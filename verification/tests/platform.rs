use rcore_kernel::clock::{clock_gettime, timespec_from_usec, ClockKind, TimeSpec};
use rcore_kernel::hexdump::hexdump;
use rcore_kernel::linker::{get_arch_base, is_known_arch};
use rcore_kernel::ramdisk::{RamDiskBlock, BLOCK_SIZE};
use rcore_kernel::signal::{
    kill_delivers, kill_reply, sigaction_after_copy, sigaction_after_install, sigaction_begin, SigactionStep,
    SignalParse,
};
use rcore_kernel::stack::{next_thread_stack, KernelStack, KERNEL_STACK_SIZE};

#[test]
fn arch_bases() {
    assert_eq!(get_arch_base("x86_64"), ("i386:x86-64", "0xffffff8000200000"));
    assert_eq!(get_arch_base("riscv64"), ("riscv", "0xffffffc080200000"));
    assert_eq!(get_arch_base("riscv64gc-unknown-none-elf"), ("riscv", "0xffffffc080200000"));
    assert_eq!(get_arch_base("aarch64-unknown-none"), ("aarch64", "0xffffff8040080000"));
    assert_eq!(get_arch_base("loongarch64-unknown-none"), ("loongarch64", "0x9000000090000000"));
}

#[test]
fn arch_x86_64_needs_exact_name() {
    // A name that merely contains `x86_64` is not accepted as x86_64; with
    // `riscv64` in it, it is taken as riscv.
    assert_eq!(get_arch_base("x86_64-riscv64"), ("riscv", "0xffffffc080200000"));
}

#[test]
fn known_architectures() {
    assert!(is_known_arch("x86_64"));
    assert!(is_known_arch("riscv64"));
    assert!(is_known_arch("riscv64gc"));
    assert!(is_known_arch("aarch64"));
    assert!(is_known_arch("loongarch64"));
    assert!(!is_known_arch("riscv32"));
    assert!(!is_known_arch("x86_64-unknown-none"));
    assert!(!is_known_arch(""));
}

#[test]
fn kernel_stack_keeps_its_base() {
    let s = KernelStack::new();
    let first = s.get_position();
    assert_eq!(s.get_position(), first);
    assert_eq!(first.0 % std::mem::align_of::<u128>(), 0);
    let moved = s;
    assert_eq!(moved.get_position(), first);
}

#[test]
fn kernel_stack_position() {
    let s = KernelStack::new();
    let (bottom, top) = s.get_position();
    assert_eq!(top - bottom, KERNEL_STACK_SIZE);
    assert_eq!(KERNEL_STACK_SIZE, 8192);
    assert_ne!(bottom, 0);
    let t = KernelStack::new();
    let (b2, t2) = t.get_position();
    // Two stacks do not overlap.
    assert!(t2 <= bottom || top <= b2);
}

#[test]
fn thread_stacks_go_down() {
    assert_eq!(next_thread_stack(0x1_0000_0000), 0x1_0000_0000 - 0x4000);
    assert_eq!(next_thread_stack(0x4000), 0);
}

#[test]
fn ramdisk_blocks() {
    let d = RamDiskBlock::new(0x8000_0000, 0x8000_0000 + 4 * 0x200);
    assert_eq!(d.size(), 0x800);
    assert_eq!(d.block_address(0, BLOCK_SIZE), Some(0x8000_0000));
    assert_eq!(d.block_address(2, BLOCK_SIZE), Some(0x8000_0400));
    // The last block would reach the end of the disk.
    assert_eq!(d.block_address(3, BLOCK_SIZE), None);
    assert_eq!(d.block_address(3, BLOCK_SIZE - 1), Some(0x8000_0600));
    assert_eq!(d.block_address(4, 0), None);
    assert_eq!(d.block_address(usize::MAX, BLOCK_SIZE), None);
}

#[test]
fn clock_values() {
    assert_eq!(timespec_from_usec(3_250_000), TimeSpec { tv_sec: 3, tv_nsec: 250_000 });
    assert_eq!(timespec_from_usec(999_999), TimeSpec { tv_sec: 0, tv_nsec: 999_999 });
    assert_eq!(
        clock_gettime(ClockKind::Monotonic, 1_000_001),
        Some(TimeSpec { tv_sec: 1, tv_nsec: 1 })
    );
    assert_eq!(clock_gettime(ClockKind::Other, 1_000_001), None);
    let a = timespec_from_usec(1_999_999);
    let b = timespec_from_usec(2_000_000);
    assert!(a.tv_sec < b.tv_sec);
}

#[test]
fn kill_decisions() {
    assert!(kill_delivers(true, SignalParse::Valid));
    assert!(!kill_delivers(false, SignalParse::Valid));
    assert!(!kill_delivers(true, SignalParse::ErrorSignal));
    assert!(!kill_delivers(true, SignalParse::Invalid));
    assert_eq!(kill_reply(true, SignalParse::Valid), 0);
    assert_eq!(kill_reply(false, SignalParse::Valid), -1);
    assert_eq!(kill_reply(true, SignalParse::ErrorSignal), -1);
}

#[test]
fn sigaction_steps() {
    assert_eq!(sigaction_begin(40, 31, SignalParse::Valid, 0, 0), SigactionStep::Reply(-1));
    assert_eq!(sigaction_begin(9, 31, SignalParse::Invalid, 0, 0), SigactionStep::Reply(-1));
    assert_eq!(sigaction_begin(0, 31, SignalParse::ErrorSignal, 0, 0), SigactionStep::Reply(-1));
    assert_eq!(sigaction_begin(9, 31, SignalParse::Valid, 0x100, 0x200), SigactionStep::CopyOld);
    assert_eq!(sigaction_begin(9, 31, SignalParse::Valid, 0, 0x200), SigactionStep::Install);
    assert_eq!(sigaction_begin(9, 31, SignalParse::Valid, 0, 0), SigactionStep::Reply(0));
    assert_eq!(sigaction_after_copy(false, 0x200), SigactionStep::Reply(-1));
    assert_eq!(sigaction_after_copy(true, 0x200), SigactionStep::Install);
    assert_eq!(sigaction_after_copy(true, 0), SigactionStep::Reply(0));
    assert_eq!(sigaction_after_install(true), SigactionStep::Reply(0));
    assert_eq!(sigaction_after_install(false), SigactionStep::Reply(-1));
}

fn rule(title: &str) -> String {
    let pad = 70 - title.len();
    format!("{}{}{}\n", "-".repeat(pad / 2), title, "-".repeat(pad - pad / 2))
}

#[test]
fn hexdump_short_line() {
    let text = String::from_utf8(hexdump(&[0x41, 0x00, 0x7f], 0x10)).unwrap();
    let mut expected = rule(" hexdump ");
    expected.push_str("00000010 41 00 7f ");
    expected.push_str(&"   ".repeat(13));
    expected.push_str("      ");
    expected.push_str("A..");
    expected.push_str(&"   ".repeat(13));
    expected.push('\n');
    expected.push_str(&rule(" hexdump end "));
    assert_eq!(text, expected);
    assert!(text.starts_with(&format!("{:-^70}\n", " hexdump ")));
    assert!(text.ends_with(&format!("{:-^70}\n", " hexdump end ")));
}

#[test]
fn hexdump_two_lines_and_wide_address() {
    let data: Vec<u8> = (0u8..17).map(|b| b + 0x30).collect();
    let text = String::from_utf8(hexdump(&data, 0xffff_fff8)).unwrap();
    let lines: Vec<&str> = text.lines().collect();
    assert_eq!(lines.len(), 4);
    let hex: String = (0x30u8..0x40).map(|b| format!("{:02x} ", b)).collect();
    assert_eq!(lines[1], format!("fffffff8 {}{}0123456789:;<=>?", hex, " ".repeat(6)));
    assert!(lines[2].starts_with("100000008 40 "));
    assert!(lines[2].ends_with("@                                             "));
}

#[test]
fn hexdump_empty() {
    let text = String::from_utf8(hexdump(&[], 0)).unwrap();
    assert_eq!(text, format!("{}{}", rule(" hexdump "), rule(" hexdump end ")));
}

#[test]
fn hexdump_line_count() {
    for len in [0usize, 1, 15, 16, 17, 32, 33] {
        let data = vec![0x61u8; len];
        let text = hexdump(&data, 0x1000);
        let newlines = text.iter().filter(|&&b| b == b'\n').count();
        assert_eq!(newlines, 2 + (len + 15) / 16);
    }
}
