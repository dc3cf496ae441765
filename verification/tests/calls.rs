use rcore_kernel::calls::{
    acquire_reply, elf_header_accepted, exec_reply, fork_replies, wait_reply, waittid_begin,
    waittid_finish, WaitStep,
};

fn elf_header(class: u8) -> Vec<u8> {
    let mut v = vec![0u8; 64];
    v[0] = 0x7f;
    v[1] = b'E';
    v[2] = b'L';
    v[3] = b'F';
    v[4] = class;
    v[5] = 1;
    v[6] = 1;
    v
}

#[test]
fn exec_replies() {
    assert_eq!(exec_reply(None), -1);
    assert_eq!(exec_reply(Some(&[])), -1);
    assert_eq!(exec_reply(Some(b"#!/bin/sh\necho hello\n")), -1);
    let good = elf_header(2);
    assert_eq!(exec_reply(Some(&good)), 0);
    let bad_class = elf_header(3);
    assert_eq!(exec_reply(Some(&bad_class)), -1);
    let short = &good[..40];
    assert_eq!(exec_reply(Some(short)), -1);
}

#[test]
fn wait_replies() {
    assert_eq!(wait_reply(Some((7, 3))), (7, Some(3)));
    assert_eq!(wait_reply(Some((2, -1))), (2, Some(-1)));
    assert_eq!(wait_reply(None), (-1, None));
}

#[test]
fn waittid_steps() {
    assert_eq!(waittid_begin(4, 4), WaitStep::Reply(-1));
    assert_eq!(waittid_begin(4, 5), WaitStep::Ask);
    assert_eq!(waittid_finish(Some(12)), 12);
    assert_eq!(waittid_finish(None), -1);
}

#[test]
fn elf_headers_by_class_and_length() {
    let h64 = elf_header(2);
    assert!(elf_header_accepted(&h64));
    assert!(!elf_header_accepted(&h64[..63]));
    let h32 = elf_header(1);
    assert!(elf_header_accepted(&h32[..52]));
    assert!(!elf_header_accepted(&h32[..51]));
    assert!(!elf_header_accepted(&elf_header(0)));
    let mut bad_magic = elf_header(2);
    bad_magic[1] = b'e';
    assert!(!elf_header_accepted(&bad_magic));
}

#[test]
fn elf_check_at_any_address() {
    // A header that does not start on an 8-byte boundary is judged the same.
    let mut buf = vec![0u8; 4];
    buf.extend_from_slice(&elf_header(2));
    assert_eq!(exec_reply(Some(&buf[4..68])), 0);
    assert_eq!(exec_reply(Some(&buf[4..60])), -1);
}

#[test]
fn fork_and_acquire_replies() {
    assert_eq!(fork_replies(9), (0, 9));
    assert_eq!(acquire_reply(true), 0);
    assert_eq!(acquire_reply(false), -1);
}
