//! Link-time settings per target architecture.
use vstd::prelude::*;
use vstd::string::*;

verus! {

/// Linker script of the kernel; `%BASE_ADDRESS%` stands for the base
/// address that `get_arch_base` gives for the target.
pub const SCRIPT: &'static str = "\
OUTPUT_ARCH(riscv)
ENTRY(_start)

BASE_ADDRESS = %BASE_ADDRESS%;

SECTIONS
{
    . = BASE_ADDRESS;
    start = .;
    _skernel = .;

    .text ALIGN(4K): {
        stext = .;
        *(.text.entry)
        *(.text .text.*)
        etext = .;
    }

    .rodata ALIGN(4K): {
        srodata = .;
        *(.rodata .rodata.*)
        . = ALIGN(4K);
        erodata = .;
    }

    .data ALIGN(4K): {
        . = ALIGN(4K);
        *(.data.prepage .data.prepage.*)
        . = ALIGN(4K);
        _sdata = .;
        *(.data .data.*)
        *(.sdata .sdata.*)
        _edata = .;
    }

    _load_end = .;

    .bss ALIGN(4K): {
        *(.bss.stack)
        _sbss = .;
        *(.bss .bss.*)
        *(.sbss .sbss.*)
        _ebss = .;
    }

    PROVIDE(end = .);
    /DISCARD/ : {
        *(.comment) *(.gnu*) *(.note*) *(.eh_frame*)
    }
}";

/// Whether `p` occurs in `s` starting at position `i`.
pub open spec fn occurs_at(s: Seq<char>, p: Seq<char>, i: int) -> bool {
    &&& 0 <= i
    &&& i + p.len() <= s.len()
    &&& s.subrange(i, i + p.len()) == p
}

/// Whether `p` occurs somewhere in `s`.
pub open spec fn has_substr(s: Seq<char>, p: Seq<char>) -> bool {
    exists|i: int| occurs_at(s, p, i)
}

fn matches_at(s: &str, p: &str, i: usize, n: usize, m: usize) -> (b: bool)
    requires
        n == s@.len(),
        m == p@.len(),
        i + m <= n,
    ensures
        b == occurs_at(s@, p@, i as int),
{
    let mut k: usize = 0;
    while k < m
        invariant
            k <= m,
            n == s@.len(),
            m == p@.len(),
            i + m <= n,
            s@.subrange(i as int, i + k) == p@.subrange(0, k as int),
        decreases m - k,
    {
        if s.get_char(i + k) != p.get_char(k) {
            assert(s@.subrange(i as int, i + m)[k as int] != p@[k as int]);
            return false;
        }
        k = k + 1;
        assert(s@.subrange(i as int, i + k) =~= p@.subrange(0, k as int));
    }
    assert(p@.subrange(0, m as int) =~= p@);
    true
}

/// Whether `p` occurs in `s`, as `str::contains` answers for a string pattern.
fn str_contains(s: &str, p: &str) -> (b: bool)
    ensures
        b == has_substr(s@, p@),
{
    let n = s.unicode_len();
    let m = p.unicode_len();
    if m > n {
        assert forall|i: int| !occurs_at(s@, p@, i) by {}
        return false;
    }
    let mut i: usize = 0;
    loop
        invariant
            m <= n,
            i <= n - m,
            n == s@.len(),
            m == p@.len(),
            forall|j: int| 0 <= j < i ==> !occurs_at(s@, p@, j),
        decreases n - m - i,
    {
        if matches_at(s, p, i, n, m) {
            return true;
        }
        if i == n - m {
            assert forall|j: int| !occurs_at(s@, p@, j) by {
                if 0 <= j <= i {
                }
            }
            return false;
        }
        i = i + 1;
    }
}

/// Whether `s` and `p` hold the same characters.
fn str_equal(s: &str, p: &str) -> (b: bool)
    ensures
        b == (s@ == p@),
{
    let n = s.unicode_len();
    let m = p.unicode_len();
    if n != m {
        return false;
    }
    let eq = matches_at(s, p, 0, n, m);
    assert(s@.subrange(0, n as int) =~= s@);
    eq
}

/// Whether `arch` names one of the supported architectures.
pub open spec fn known_arch(arch: Seq<char>) -> bool {
    ||| arch == "x86_64"@
    ||| has_substr(arch, "riscv64"@)
    ||| has_substr(arch, "aarch64"@)
    ||| has_substr(arch, "loongarch64"@)
}

/// Whether `get_arch_base` knows `arch`: exactly `x86_64`, or a name
/// containing `riscv64`, `aarch64` or `loongarch64`. Its contract admits
/// exactly these names; any other (`riscv32`, `x86_64-unknown-none`, ...)
/// has no base address.
pub fn is_known_arch(arch: &str) -> (known: bool)
    ensures
        known == known_arch(arch@),
{
    str_equal(arch, "x86_64") || str_contains(arch, "riscv64") || str_contains(arch, "aarch64")
        || str_contains(arch, "loongarch64")
}

/// The output architecture and the base address that the kernel is linked
/// at, for the target architecture `arch`: exactly `x86_64`, or any name
/// containing `riscv64`, `aarch64` or `loongarch64`, tried in that order.
/// It is defined exactly on the names `is_known_arch` accepts; there is no
/// base address for any other name.
pub fn get_arch_base(arch: &str) -> (r: (&str, &str))
    requires
        known_arch(arch@),
    ensures
        arch@ == "x86_64"@ ==> r.0@ == "i386:x86-64"@ && r.1@ == "0xffffff8000200000"@,
        arch@ != "x86_64"@ && has_substr(arch@, "riscv64"@) ==> r.0@ == "riscv"@ && r.1@
            == "0xffffffc080200000"@,
        arch@ != "x86_64"@ && !has_substr(arch@, "riscv64"@) && has_substr(arch@, "aarch64"@)
            ==> r.0@ == "aarch64"@ && r.1@ == "0xffffff8040080000"@,
        arch@ != "x86_64"@ && !has_substr(arch@, "riscv64"@) && !has_substr(arch@, "aarch64"@)
            ==> r.0@ == "loongarch64"@ && r.1@ == "0x9000000090000000"@,
{
    if str_equal(arch, "x86_64") {
        ("i386:x86-64", "0xffffff8000200000")
    } else if str_contains(arch, "riscv64") {
        ("riscv", "0xffffffc080200000")
    } else if str_contains(arch, "aarch64") {
        ("aarch64", "0xffffff8040080000")
    } else {
        let l = str_contains(arch, "loongarch64");
        assert(l);
        ("loongarch64", "0x9000000090000000")
    }
}

} // verus!
