//! Text of a hexadecimal memory dump: an address column, sixteen byte cells
//! and an ASCII column per line, between a header and a footer rule.
use vstd::prelude::*;

verus! {

/// Width of the header and footer rules.
pub const RULE_WIDTH: usize = 70;

/// Bytes shown on one line.
pub const BYTES_PER_LINE: usize = 16;

/// The lowercase hexadecimal digit of `d` (taken below 16).
pub open spec fn hex_char(d: nat) -> u8 {
    if d < 10 {
        (48 + d) as u8
    } else {
        (87 + d) as u8
    }
}

/// The hexadecimal digits of `n`, most significant first, without leading zeros
/// (`0` gives the single digit `0`).
pub open spec fn hex_digits(n: nat) -> Seq<u8>
    decreases n,
{
    if n < 16 {
        seq![hex_char(n)]
    } else {
        hex_digits(n / 16).push(hex_char(n % 16))
    }
}

/// `n` copies of byte `b`.
pub open spec fn repeat(b: u8, n: nat) -> Seq<u8> {
    Seq::new(n, |i: int| b)
}

/// `s` padded on the left with `0` digits up to `width` bytes.
pub open spec fn zero_pad(s: Seq<u8>, width: nat) -> Seq<u8> {
    if s.len() >= width {
        s
    } else {
        repeat(48, (width - s.len()) as nat) + s
    }
}

/// A byte as two hexadecimal digits.
pub open spec fn hex_byte(b: u8) -> Seq<u8> {
    seq![hex_char((b / 16) as nat), hex_char((b % 16) as nat)]
}

/// The cell of the byte at `j` in the hexadecimal part: its two digits and a
/// space, or three spaces past the end of the data.
pub open spec fn hex_cell(data: Seq<u8>, j: int) -> Seq<u8> {
    if 0 <= j < data.len() {
        hex_byte(data[j]).push(32)
    } else {
        repeat(32, 3)
    }
}

/// The cell of the byte at `j` in the ASCII part: the byte itself when it is
/// printable, `.` when it is not, three spaces past the end of the data.
pub open spec fn ascii_cell(data: Seq<u8>, j: int) -> Seq<u8> {
    if 0 <= j < data.len() {
        if 0x20 <= data[j] <= 0x7e {
            seq![data[j]]
        } else {
            seq![46u8]
        }
    } else {
        repeat(32, 3)
    }
}

/// The first `n` hexadecimal cells of the line that starts at byte `off`.
pub open spec fn hex_cells(data: Seq<u8>, off: int, n: nat) -> Seq<u8>
    decreases n,
{
    if n == 0 {
        Seq::empty()
    } else {
        hex_cells(data, off, (n - 1) as nat) + hex_cell(data, off + n - 1)
    }
}

/// The first `n` ASCII cells of the line that starts at byte `off`.
pub open spec fn ascii_cells(data: Seq<u8>, off: int, n: nat) -> Seq<u8>
    decreases n,
{
    if n == 0 {
        Seq::empty()
    } else {
        ascii_cells(data, off, (n - 1) as nat) + ascii_cell(data, off + n - 1)
    }
}

/// Line `k` of the dump of `data` whose first byte has address `addr`.
pub open spec fn dump_line(data: Seq<u8>, addr: nat, k: nat) -> Seq<u8> {
    let off = 16 * k;
    zero_pad(hex_digits(addr + off), 8).push(32) + hex_cells(data, off as int, 16) + repeat(
        32,
        6,
    ) + ascii_cells(data, off as int, 16).push(10)
}

/// The first `k` lines of the dump.
pub open spec fn dump_lines(data: Seq<u8>, addr: nat, k: nat) -> Seq<u8>
    decreases k,
{
    if k == 0 {
        Seq::empty()
    } else {
        dump_lines(data, addr, (k - 1) as nat) + dump_line(data, addr, (k - 1) as nat)
    }
}

/// Number of lines needed for `len` bytes.
pub open spec fn line_count(len: nat) -> nat {
    if len % 16 == 0 {
        len / 16
    } else {
        len / 16 + 1
    }
}

/// `title` centred in a rule of `-` that is `RULE_WIDTH` wide (the odd dash
/// goes to the right), then a newline.
pub open spec fn rule(title: Seq<u8>) -> Seq<u8> {
    let pad = (RULE_WIDTH - title.len()) as nat;
    repeat(45, pad / 2) + title + repeat(45, (pad - pad / 2) as nat).push(10)
}

/// ` hexdump `
pub open spec fn header_title() -> Seq<u8> {
    seq![32u8, 104, 101, 120, 100, 117, 109, 112, 32]
}

/// ` hexdump end `
pub open spec fn footer_title() -> Seq<u8> {
    seq![32u8, 104, 101, 120, 100, 117, 109, 112, 32, 101, 110, 100, 32]
}

/// The whole text of the dump.
pub open spec fn dump_text(data: Seq<u8>, addr: nat) -> Seq<u8> {
    rule(header_title()) + dump_lines(data, addr, line_count(data.len())) + rule(footer_title())
}


/// Number of newline bytes in `s`.
pub open spec fn newline_count(s: Seq<u8>) -> nat
    decreases s.len(),
{
    if s.len() == 0 {
        0
    } else {
        newline_count(s.drop_last()) + if s.last() == 10 {
            1nat
        } else {
            0nat
        }
    }
}

/// `s` holds no newline byte.
spec fn no_newline(s: Seq<u8>) -> bool {
    forall|i: int| 0 <= i < s.len() ==> #[trigger] s[i] != 10
}

proof fn lemma_newline_count_add(a: Seq<u8>, b: Seq<u8>)
    ensures
        newline_count(a + b) == newline_count(a) + newline_count(b),
    decreases b.len(),
{
    if b.len() == 0 {
        assert(a + b =~= a);
    } else {
        assert((a + b).drop_last() =~= a + b.drop_last());
        assert((a + b).last() == b.last());
        lemma_newline_count_add(a, b.drop_last());
    }
}

proof fn lemma_no_newline_count(s: Seq<u8>)
    requires
        no_newline(s),
    ensures
        newline_count(s) == 0,
    decreases s.len(),
{
    if s.len() > 0 {
        assert(no_newline(s.drop_last())) by {
            assert forall|i: int| 0 <= i < s.drop_last().len() implies #[trigger] s.drop_last()[i] != 10 by {
                assert(s.drop_last()[i] == s[i]);
            }
        }
        lemma_no_newline_count(s.drop_last());
        assert(s.last() == s[s.len() - 1]);
    }
}

proof fn lemma_no_newline_concat(a: Seq<u8>, b: Seq<u8>)
    requires
        no_newline(a),
        no_newline(b),
    ensures
        no_newline(a + b),
{
    assert forall|i: int| 0 <= i < (a + b).len() implies #[trigger] (a + b)[i] != 10 by {
        if i < a.len() {
            assert((a + b)[i] == a[i]);
        } else {
            assert((a + b)[i] == b[i - a.len()]);
        }
    }
}

proof fn lemma_hex_digits_no_newline(n: nat)
    ensures
        no_newline(hex_digits(n)),
    decreases n,
{
    if n >= 16 {
        lemma_hex_digits_no_newline(n / 16);
        let s = hex_digits(n / 16).push(hex_char(n % 16));
        assert forall|i: int| 0 <= i < s.len() implies #[trigger] s[i] != 10 by {
            if i < s.len() - 1 {
                assert(s[i] == hex_digits(n / 16)[i]);
            }
        }
    }
}

proof fn lemma_cells_no_newline(data: Seq<u8>, off: int, n: nat)
    ensures
        no_newline(hex_cells(data, off, n)),
        no_newline(ascii_cells(data, off, n)),
    decreases n,
{
    if n > 0 {
        lemma_cells_no_newline(data, off, (n - 1) as nat);
        let j = off + n - 1;
        assert(no_newline(hex_cell(data, j)));
        assert(no_newline(ascii_cell(data, j)));
        lemma_no_newline_concat(hex_cells(data, off, (n - 1) as nat), hex_cell(data, j));
        lemma_no_newline_concat(ascii_cells(data, off, (n - 1) as nat), ascii_cell(data, j));
    }
}

proof fn lemma_dump_line_one_newline(data: Seq<u8>, addr: nat, k: nat)
    ensures
        newline_count(dump_line(data, addr, k)) == 1,
        dump_line(data, addr, k).last() == 10,
{
    let off = 16 * k;
    let head = zero_pad(hex_digits(addr + off), 8).push(32);
    let hex = hex_cells(data, off as int, 16);
    let gap = repeat(32, 6);
    let asc = ascii_cells(data, off as int, 16);
    lemma_hex_digits_no_newline(addr + off);
    assert(no_newline(head)) by {
        let d = hex_digits(addr + off);
        assert forall|i: int| 0 <= i < head.len() implies #[trigger] head[i] != 10 by {
            if d.len() >= 8 {
                if i < d.len() {
                    assert(head[i] == d[i]);
                }
            } else {
                let pad = (8 - d.len()) as nat;
                if pad <= i < head.len() - 1 {
                    assert(head[i] == d[i - pad]);
                }
            }
        }
    }
    lemma_cells_no_newline(data, off as int, 16);
    lemma_no_newline_concat(head, hex);
    lemma_no_newline_concat(head + hex, gap);
    lemma_no_newline_concat(head + hex + gap, asc);
    let body = head + hex + gap + asc;
    assert(dump_line(data, addr, k) =~= body.push(10));
    assert(body.push(10).drop_last() =~= body);
    lemma_no_newline_count(body);
}

proof fn lemma_dump_lines_newlines(data: Seq<u8>, addr: nat, k: nat)
    ensures
        newline_count(dump_lines(data, addr, k)) == k,
    decreases k,
{
    if k > 0 {
        lemma_dump_lines_newlines(data, addr, (k - 1) as nat);
        lemma_dump_line_one_newline(data, addr, (k - 1) as nat);
        lemma_newline_count_add(dump_lines(data, addr, (k - 1) as nat), dump_line(data, addr, (k - 1) as nat));
    }
}

proof fn lemma_rule_one_newline(title: Seq<u8>)
    requires
        title.len() <= RULE_WIDTH,
        no_newline(title),
    ensures
        newline_count(rule(title)) == 1,
        rule(title).len() == RULE_WIDTH + 1,
{
    let pad = (RULE_WIDTH - title.len()) as nat;
    let left = repeat(45, pad / 2);
    let right = repeat(45, (pad - pad / 2) as nat);
    lemma_no_newline_concat(left, title);
    lemma_no_newline_concat(left + title, right);
    let body = left + title + right;
    assert(rule(title) =~= body.push(10));
    assert(body.push(10).drop_last() =~= body);
    lemma_no_newline_count(body);
}

/// The dump is a header rule, one line per 16 bytes (the last one possibly
/// shorter), and a footer rule: it holds exactly `2 + ceil(len / 16)`
/// newlines, both rules are `RULE_WIDTH` characters and a newline, and line
/// `k` starts with the address `addr + 16 k` in hex, zero-padded to eight
/// digits, and a space.
pub proof fn lemma_dump_shape(data: Seq<u8>, addr: nat, k: nat)
    ensures
        newline_count(dump_text(data, addr)) == line_count(data.len()) + 2,
        rule(header_title()).len() == RULE_WIDTH + 1,
        rule(footer_title()).len() == RULE_WIDTH + 1,
        dump_line(data, addr, k).subrange(0, zero_pad(hex_digits(addr + 16 * k), 8).len() + 1int)
            == zero_pad(hex_digits(addr + 16 * k), 8).push(32),
        newline_count(dump_line(data, addr, k)) == 1,
{
    lemma_rule_one_newline(header_title());
    lemma_rule_one_newline(footer_title());
    lemma_dump_lines_newlines(data, addr, line_count(data.len()));
    lemma_dump_line_one_newline(data, addr, k);
    let a = rule(header_title());
    let b = dump_lines(data, addr, line_count(data.len()));
    let c = rule(footer_title());
    lemma_newline_count_add(a, b);
    lemma_newline_count_add(a + b, c);
    let head = zero_pad(hex_digits(addr + 16 * k), 8).push(32);
    assert(dump_line(data, addr, k).subrange(0, head.len() as int) =~= head);
}

/// Whether `c` is a lowercase hexadecimal digit: `0`-`9` or `a`-`f`.
pub open spec fn is_hex_digit(c: u8) -> bool {
    (48 <= c <= 57) || (97 <= c <= 102)
}

/// The value of the hexadecimal digit `c`.
pub open spec fn digit_value(c: u8) -> int {
    if 48 <= c <= 57 {
        c - 48
    } else {
        c - 87
    }
}

/// The number that the hexadecimal digits `s` spell, most significant first.
pub open spec fn hex_number(s: Seq<u8>) -> int
    decreases s.len(),
{
    if s.len() == 0 {
        0
    } else {
        16 * hex_number(s.drop_last()) + digit_value(s.last())
    }
}

/// Whether `c` is the ASCII column's character for the byte `b`: the byte
/// itself when it is printable (0x20 to 0x7e), `.` otherwise.
pub open spec fn shows_as(c: u8, b: u8) -> bool {
    if 0x20 <= b <= 0x7e {
        c == b
    } else {
        c == 46
    }
}

/// Every byte's hex cell is two lowercase hex digits that read back as the
/// byte.
pub proof fn lemma_hex_byte_reads_back(b: u8)
    ensures
        hex_byte(b).len() == 2,
        is_hex_digit(hex_byte(b)[0]),
        is_hex_digit(hex_byte(b)[1]),
        16 * digit_value(hex_byte(b)[0]) + digit_value(hex_byte(b)[1]) == b,
{
}

proof fn lemma_hex_digits_read_back(n: nat)
    ensures
        hex_number(hex_digits(n)) == n,
        forall|i: int| 0 <= i < hex_digits(n).len() ==> is_hex_digit(#[trigger] hex_digits(n)[i]),
    decreases n,
{
    let d = n % 16;
    assert(digit_value(hex_char(d)) == d && is_hex_digit(hex_char(d)));
    if n >= 16 {
        lemma_hex_digits_read_back(n / 16);
        let s = hex_digits(n);
        assert(s.drop_last() =~= hex_digits(n / 16));
        assert(s.last() == hex_char(d));
        assert(n == 16 * (n / 16) + d);
        assert(hex_number(s) == 16 * hex_number(s.drop_last()) + digit_value(s.last()));
        assert forall|i: int| 0 <= i < s.len() implies is_hex_digit(#[trigger] s[i]) by {
            if i < s.len() - 1 {
                assert(s[i] == hex_digits(n / 16)[i]);
            }
        }
    } else {
        let s = hex_digits(n);
        assert(s.drop_last() =~= Seq::<u8>::empty());
        assert(hex_number(Seq::<u8>::empty()) == 0);
        assert(d == n);
        assert(s.last() == hex_char(d));
        assert(hex_number(s) == 16 * hex_number(s.drop_last()) + digit_value(s.last()));
    }
}

proof fn lemma_zeros_read_as_zero(m: nat)
    ensures
        hex_number(repeat(48, m)) == 0,
    decreases m,
{
    if m > 0 {
        assert(repeat(48, m).drop_last() =~= repeat(48, (m - 1) as nat));
        lemma_zeros_read_as_zero((m - 1) as nat);
    }
}

proof fn lemma_leading_zeros(m: nat, s: Seq<u8>)
    ensures
        hex_number(repeat(48, m) + s) == hex_number(s),
    decreases s.len(),
{
    if s.len() == 0 {
        assert(repeat(48, m) + s =~= repeat(48, m));
        lemma_zeros_read_as_zero(m);
    } else {
        assert((repeat(48, m) + s).drop_last() =~= repeat(48, m) + s.drop_last());
        lemma_leading_zeros(m, s.drop_last());
    }
}

/// The address column reads back as the address: at least eight lowercase
/// hex digits whose value is `n`.
pub proof fn lemma_address_reads_back(n: nat)
    ensures
        zero_pad(hex_digits(n), 8).len() >= 8,
        hex_number(zero_pad(hex_digits(n), 8)) == n,
        forall|i: int|
            0 <= i < zero_pad(hex_digits(n), 8).len() ==> is_hex_digit(
                #[trigger] zero_pad(hex_digits(n), 8)[i],
            ),
{
    lemma_hex_digits_read_back(n);
    let d = hex_digits(n);
    if d.len() < 8 {
        let m = (8 - d.len()) as nat;
        lemma_leading_zeros(m, d);
        let z = zero_pad(d, 8);
        assert forall|i: int| 0 <= i < z.len() implies is_hex_digit(#[trigger] z[i]) by {
            if i >= m {
                assert(z[i] == d[i - m]);
            }
        }
    }
}

proof fn lemma_hex_cells_layout(data: Seq<u8>, off: int, n: nat, i: int)
    requires
        0 <= i < n,
    ensures
        hex_cells(data, off, n).len() == 3 * n,
        hex_cells(data, off, n).subrange(3 * i, 3 * i + 3) == hex_cell(data, off + i),
    decreases n,
{
    let prev = hex_cells(data, off, (n - 1) as nat);
    let cell = hex_cell(data, off + n - 1);
    assert(cell.len() == 3);
    if n > 1 {
        if i < n - 1 {
            lemma_hex_cells_layout(data, off, (n - 1) as nat, i);
        } else {
            lemma_hex_cells_layout(data, off, (n - 1) as nat, 0);
        }
    }
    assert(prev.len() == 3 * (n - 1));
    if i < n - 1 {
        assert((prev + cell).subrange(3 * i, 3 * i + 3) =~= prev.subrange(3 * i, 3 * i + 3));
    } else {
        assert((prev + cell).subrange(3 * i, 3 * i + 3) =~= cell);
    }
}

proof fn lemma_ascii_cells_in_range(data: Seq<u8>, off: int, n: nat, i: int)
    requires
        0 <= off,
        off + n <= data.len(),
        0 <= i < n,
    ensures
        ascii_cells(data, off, n).len() == n,
        shows_as(ascii_cells(data, off, n)[i], data[off + i]),
    decreases n,
{
    if n > 1 {
        if i < n - 1 {
            lemma_ascii_cells_in_range(data, off, (n - 1) as nat, i);
        } else {
            lemma_ascii_cells_in_range(data, off, (n - 1) as nat, 0);
        }
    }
    let prev = ascii_cells(data, off, (n - 1) as nat);
    assert(prev.len() == n - 1);
    if i < n - 1 {
        assert((prev + ascii_cell(data, off + n - 1))[i] == prev[i]);
    }
}

proof fn lemma_ascii_cells_prefix(data: Seq<u8>, off: int, n: nat, m: nat)
    requires
        n <= m,
    ensures
        ascii_cells(data, off, n).len() <= ascii_cells(data, off, m).len(),
        ascii_cells(data, off, m).subrange(0, ascii_cells(data, off, n).len() as int) == ascii_cells(
            data,
            off,
            n,
        ),
    decreases m,
{
    if n < m {
        lemma_ascii_cells_prefix(data, off, n, (m - 1) as nat);
        let prev = ascii_cells(data, off, (m - 1) as nat);
        let l = ascii_cells(data, off, n).len() as int;
        assert((prev + ascii_cell(data, off + m - 1)).subrange(0, l) =~= prev.subrange(0, l));
    } else {
        assert(ascii_cells(data, off, m).subrange(0, ascii_cells(data, off, m).len() as int)
            =~= ascii_cells(data, off, m));
    }
}

/// A rule is `RULE_WIDTH` characters and a newline: dashes, with the title
/// in the middle (one dash more on the right when the padding is odd).
pub proof fn lemma_rule_layout(title: Seq<u8>, i: int)
    requires
        title.len() <= RULE_WIDTH,
        0 <= i < RULE_WIDTH,
    ensures
        ({
            let r = rule(title);
            let left = (RULE_WIDTH - title.len()) / 2;
            &&& r.len() == RULE_WIDTH + 1
            &&& r[RULE_WIDTH as int] == 10
            &&& (i < left || i >= left + title.len() ==> r[i] == 45)
            &&& (left <= i < left + title.len() ==> r[i] == title[i - left])
            &&& RULE_WIDTH - title.len() - left - left <= 1
            &&& left + left <= RULE_WIDTH - title.len()
        }),
{
}

/// Line `k` of the dump shows the data faithfully: after the address column
/// (which reads back as `addr + 16 k`) and a space, the cell of each byte
/// `j = 16 k + i` in the data is two lowercase hex digits reading back as
/// that byte, then a space; a cell past the end of the data is blank; and
/// after the six-space gap, character `i` of the ASCII column shows the same
/// byte, as itself when printable and as `.` otherwise.
pub proof fn lemma_dump_line_shows_data(data: Seq<u8>, addr: nat, k: nat, i: int)
    requires
        0 <= i < 16,
    ensures
        ({
            let line = dump_line(data, addr, k);
            let h = zero_pad(hex_digits(addr + 16 * k), 8).len() + 1;
            let j = 16 * k + i;
            &&& hex_number(line.subrange(0, h - 1)) == addr + 16 * k
            &&& line[h - 1] == 32
            &&& line.len() >= h + 48 + 6 + 1
            &&& line.last() == 10
            &&& (0 <= i < 6 ==> line[h + 48 + i] == 32)
            &&& (j < data.len() ==> {
                &&& is_hex_digit(line[h + 3 * i])
                &&& is_hex_digit(line[h + 3 * i + 1])
                &&& 16 * digit_value(line[h + 3 * i]) + digit_value(line[h + 3 * i + 1]) == data[j]
                &&& line[h + 3 * i + 2] == 32
                &&& shows_as(line[h + 48 + 6 + i], data[j])
            })
            &&& (j >= data.len() ==> line[h + 3 * i] == 32 && line[h + 3 * i + 1] == 32 && line[h
                + 3 * i + 2] == 32)
        }),
{
    let off = 16 * k;
    let addr_col = zero_pad(hex_digits(addr + off), 8);
    let head = addr_col.push(32);
    let hex = hex_cells(data, off as int, 16);
    let gap = repeat(32, 6);
    let asc = ascii_cells(data, off as int, 16);
    let line = dump_line(data, addr, k);
    let h = addr_col.len() + 1;
    assert(line =~= head + hex + gap + asc.push(10));
    lemma_address_reads_back(addr + off);
    assert(line.subrange(0, h - 1) =~= addr_col);
    lemma_hex_cells_layout(data, off as int, 16, i);
    let cell = hex_cell(data, off + i);
    assert(line[h + 3 * i] == hex.subrange(3 * i, 3 * i + 3)[0]);
    assert(line[h + 3 * i + 1] == hex.subrange(3 * i, 3 * i + 3)[1]);
    assert(line[h + 3 * i + 2] == hex.subrange(3 * i, 3 * i + 3)[2]);
    assert(hex.len() == 48);
    if i < 6 {
        assert((head + hex + gap + asc.push(10))[h + 48 + i] == gap[i]);
    }
    let j = off + i;
    if j < data.len() {
        lemma_hex_byte_reads_back(data[j]);
        let m: nat = if data.len() - off >= 16 {
            16
        } else {
            (data.len() - off) as nat
        };
        lemma_ascii_cells_in_range(data, off as int, m, i);
        lemma_ascii_cells_prefix(data, off as int, m, 16);
        let pre = ascii_cells(data, off as int, m);
        assert(asc.subrange(0, pre.len() as int)[i] == pre[i]);
        assert(i < asc.len());
        assert(hex.len() == 48);
        assert((head + hex + gap + asc.push(10))[h + 48 + 6 + i] == asc.push(10)[i]);
        assert(line[h + 48 + 6 + i] == asc[i]);
    }
}

fn hex_digit(d: u8) -> (c: u8)
    requires
        d < 16,
    ensures
        c == hex_char(d as nat),
{
    if d < 10 {
        48 + d
    } else {
        87 + d
    }
}

fn push_repeat(out: &mut Vec<u8>, b: u8, n: usize)
    ensures
        final(out)@ == old(out)@ + repeat(b, n as nat),
{
    let ghost start = out@;
    let mut i: usize = 0;
    while i < n
        invariant
            i <= n,
            out@ == start + repeat(b, i as nat),
        decreases n - i,
    {
        out.push(b);
        i = i + 1;
        assert(out@ =~= start + repeat(b, i as nat));
    }
}

fn hex_len(n: usize) -> (len: usize)
    ensures
        len == hex_digits(n as nat).len(),
        1 <= len <= 16,
    decreases n,
{
    if n < 16 {
        1
    } else {
        let l = hex_len(n / 16);
        proof {
            lemma_hex_digits_len_bound(n as nat);
        }
        l + 1
    }
}

/// `16` raised to `k`.
spec fn pow16(k: nat) -> nat
    decreases k,
{
    if k == 0 {
        1
    } else {
        16 * pow16((k - 1) as nat)
    }
}

proof fn lemma_hex_digits_len_below(n: nat, k: nat)
    requires
        k >= 1,
        n < pow16(k),
    ensures
        1 <= hex_digits(n).len() <= k,
    decreases n,
{
    if n >= 16 {
        assert(k >= 2) by {
            if k == 1 {
                assert(pow16(1) == 16) by {
                    reveal_with_fuel(pow16, 2);
                }
            }
        }
        assert(n / 16 < pow16((k - 1) as nat));
        lemma_hex_digits_len_below(n / 16, (k - 1) as nat);
    }
}

proof fn lemma_hex_digits_len_bound(n: nat)
    requires
        n <= usize::MAX,
    ensures
        1 <= hex_digits(n).len() <= 16,
{
    assert(pow16(16) == 0x1_0000_0000_0000_0000) by {
        reveal_with_fuel(pow16, 17);
    }
    lemma_hex_digits_len_below(n, 16);
}

fn push_hex(out: &mut Vec<u8>, n: usize)
    ensures
        final(out)@ == old(out)@ + hex_digits(n as nat),
    decreases n,
{
    if n >= 16 {
        push_hex(out, n / 16);
    }
    let d = hex_digit((n % 16) as u8);
    out.push(d);
    proof {
        if n >= 16 {
            assert(hex_digits(n as nat) == hex_digits((n / 16) as nat).push(hex_char((n % 16) as nat)));
        }
    }
    assert(final(out)@ =~= old(out)@ + hex_digits(n as nat));
}

fn push_rule(out: &mut Vec<u8>, title: &[u8])
    requires
        title@.len() <= RULE_WIDTH,
    ensures
        final(out)@ == old(out)@ + rule(title@),
{
    let pad = RULE_WIDTH - title.len();
    push_repeat(out, 45, pad / 2);
    let ghost mid = out@;
    let mut i: usize = 0;
    while i < title.len()
        invariant
            i <= title@.len(),
            out@ == mid + title@.subrange(0, i as int),
        decreases title.len() - i,
    {
        out.push(title[i]);
        i = i + 1;
        assert(out@ =~= mid + title@.subrange(0, i as int));
    }
    assert(title@.subrange(0, title@.len() as int) =~= title@);
    push_repeat(out, 45, pad - pad / 2);
    out.push(10);
    assert(final(out)@ =~= old(out)@ + rule(title@));
}

fn push_line(out: &mut Vec<u8>, data: &[u8], addr: usize, k: usize)
    requires
        16 * k < data@.len(),
        addr + 16 * k <= usize::MAX,
    ensures
        final(out)@ == old(out)@ + dump_line(data@, addr as nat, k as nat),
{
    let off = 16 * k;
    let line_addr = addr + off;
    let digits = hex_len(line_addr);
    if digits < 8 {
        push_repeat(out, 48, 8 - digits);
    }
    push_hex(out, line_addr);
    out.push(32);
    let ghost after_addr = out@;
    assert(after_addr =~= old(out)@ + zero_pad(hex_digits(line_addr as nat), 8).push(32));
    let mut i: usize = 0;
    while i < 16
        invariant
            i <= 16,
            off == 16 * k,
            off < data@.len(),
            out@ == after_addr + hex_cells(data@, off as int, i as nat),
        decreases 16 - i,
    {
        if i < data.len() - off {
            let b = data[off + i];
            out.push(hex_digit(b / 16));
            out.push(hex_digit(b % 16));
            out.push(32);
        } else {
            push_repeat(out, 32, 3);
        }
        i = i + 1;
        assert(out@ =~= after_addr + hex_cells(data@, off as int, i as nat));
    }
    push_repeat(out, 32, 6);
    let ghost after_gap = out@;
    let mut i: usize = 0;
    while i < 16
        invariant
            i <= 16,
            off == 16 * k,
            off < data@.len(),
            out@ == after_gap + ascii_cells(data@, off as int, i as nat),
        decreases 16 - i,
    {
        if i < data.len() - off {
            let c = data[off + i];
            if c >= 0x20 && c <= 0x7e {
                out.push(c);
            } else {
                out.push(46);
            }
        } else {
            push_repeat(out, 32, 3);
        }
        i = i + 1;
        assert(out@ =~= after_gap + ascii_cells(data@, off as int, i as nat));
    }
    out.push(10);
    assert(final(out)@ =~= old(out)@ + dump_line(data@, addr as nat, k as nat));
}

/// The dump of `data`, whose first byte is shown at address `start_addr`, as
/// ASCII text. Each line shows the address zero-padded to eight hex digits,
/// sixteen bytes in hex and the same bytes as characters; the address grows
/// by 16 per line, so the last line's successor address must fit in `usize`.
pub fn hexdump(data: &[u8], start_addr: usize) -> (text: Vec<u8>)
    requires
        start_addr + 16 * line_count(data@.len()) <= usize::MAX,
    ensures
        text@ == dump_text(data@, start_addr as nat),
{
    let mut out: Vec<u8> = Vec::new();
    let header: [u8; 9] = [32, 104, 101, 120, 100, 117, 109, 112, 32];
    assert(header@ =~= header_title());
    push_rule(&mut out, header.as_slice());
    let ghost after_header = out@;
    let lines = if data.len() % 16 == 0 {
        data.len() / 16
    } else {
        data.len() / 16 + 1
    };
    let mut k: usize = 0;
    while k < lines
        invariant
            k <= lines,
            lines == line_count(data@.len()),
            start_addr + 16 * lines <= usize::MAX,
            out@ == after_header + dump_lines(data@, start_addr as nat, k as nat),
        decreases lines - k,
    {
        push_line(&mut out, data, start_addr, k);
        k = k + 1;
        assert(out@ =~= after_header + dump_lines(data@, start_addr as nat, k as nat));
    }
    let footer: [u8; 13] = [32, 104, 101, 120, 100, 117, 109, 112, 32, 101, 110, 100, 32];
    assert(footer@ =~= footer_title());
    push_rule(&mut out, footer.as_slice());
    assert(out@ =~= dump_text(data@, start_addr as nat));
    out
}

} // verus!
