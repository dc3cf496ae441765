use rcore_kernel::tables::{
    alloc_slot, file_io_reply, console_read_target, console_write_target, FdTable, IoTarget, STDDEBUG, STDIN,
    STDOUT,
};

#[test]
fn console_targets() {
    assert_eq!(console_write_target(STDOUT), IoTarget::Console);
    assert_eq!(console_write_target(STDDEBUG), IoTarget::Console);
    assert_eq!(console_write_target(STDIN), IoTarget::Unsupported);
    assert_eq!(console_write_target(7), IoTarget::Unsupported);
    assert_eq!(console_read_target(STDIN), IoTarget::Console);
    assert_eq!(console_read_target(STDOUT), IoTarget::Unsupported);
}

#[test]
fn fd_open_close() {
    let mut t: FdTable<&str> = FdTable::from_entries(vec![Some("stdin"), Some("stdout")]);
    assert_eq!(t.len(), 2);
    let fd = t.open("file_a");
    assert_eq!(fd, 2);
    let fd2 = t.open("file_b");
    assert_eq!(fd2, 3);
    assert_eq!(t.get(2), Some(&"file_a"));
    assert_eq!(t.close(2), 0);
    assert_eq!(t.get(2), None);
    // Closing again fails, and the other descriptors stay where they were.
    assert_eq!(t.close(2), -1);
    assert_eq!(t.get(3), Some(&"file_b"));
    assert_eq!(t.len(), 4);
    // Past the end.
    assert_eq!(t.close(10), -1);
    // A new open does not reuse the closed slot.
    assert_eq!(t.open("file_c"), 4);
}

#[test]
fn fd_targets() {
    let mut t: FdTable<u8> = FdTable::from_entries(vec![None, None]);
    let fd = t.open(5);
    assert_eq!(t.write_target(STDOUT), IoTarget::Console);
    assert_eq!(t.write_target(fd), IoTarget::File);
    assert_eq!(t.write_target(STDIN), IoTarget::Unsupported);
    assert_eq!(t.read_target(STDIN), IoTarget::Console);
    assert_eq!(t.read_target(fd), IoTarget::File);
    assert_eq!(t.read_target(STDOUT), IoTarget::Unsupported);
    assert_eq!(t.close(fd), 0);
    assert_eq!(t.write_target(fd), IoTarget::Unsupported);
}

#[test]
fn slots_reuse_first_free() {
    let mut list: Vec<Option<u32>> = Vec::new();
    assert_eq!(alloc_slot(&mut list, Some(1)), 0);
    assert_eq!(alloc_slot(&mut list, Some(2)), 1);
    assert_eq!(alloc_slot(&mut list, Some(3)), 2);
    list[1] = None;
    list[0] = None;
    assert_eq!(alloc_slot(&mut list, Some(4)), 0);
    assert_eq!(list, vec![Some(4), None, Some(3)]);
    assert_eq!(alloc_slot(&mut list, Some(5)), 1);
    assert_eq!(alloc_slot(&mut list, Some(6)), 3);
    assert_eq!(list, vec![Some(4), Some(5), Some(3), Some(6)]);
}

#[test]
fn slot_left_empty_is_handed_out_again() {
    // A non-blocking mutex request stores nothing; its id is free again.
    let mut list: Vec<Option<u32>> = vec![Some(1)];
    assert_eq!(alloc_slot(&mut list, None), 1);
    assert_eq!(alloc_slot(&mut list, None), 1);
    assert_eq!(list, vec![Some(1), None]);
}

#[test]
fn open_replies() {
    let mut t: FdTable<&str> = FdTable::from_entries(vec![Some("stdin"), None]);
    assert_eq!(t.open_reply(None), -1);
    assert_eq!(t.len(), 2);
    assert_eq!(t.open_reply(Some("a")), 2);
    assert_eq!(t.len(), 3);
    // The freed slot 1 is not reused.
    assert_eq!(t.open_reply(Some("b")), 3);
    assert_eq!(t.get(1), None);
}

#[test]
fn file_io_replies() {
    assert_eq!(file_io_reply(true, 512), 512);
    assert_eq!(file_io_reply(true, 0), 0);
    assert_eq!(file_io_reply(false, 512), -1);
}
