//! Byte-level helpers: little-endian scalars, ASCII decimal numbers and
//! subsequence search.

use byteorder::{ByteOrder, LittleEndian};
use vstd::prelude::*;
use vstd::slice::slice_subrange;

verus! {

broadcast use vstd::slice::group_slice_axioms;

/// The number spelled by the two bytes of `s` at `at`, least significant first.
pub open spec fn le_u16_at(s: Seq<u8>, at: int) -> int {
    s[at] as int + 256 * (s[at + 1] as int)
}

/// The number spelled by the four bytes of `s` at `at`, least significant first.
pub open spec fn le_u32_at(s: Seq<u8>, at: int) -> int {
    s[at] as int + 256 * (s[at + 1] as int) + 65536 * (s[at + 2] as int) + 16777216 * (s[at
        + 3] as int)
}

/// `byteorder::LittleEndian::read_u16`, which reads the first two bytes of
/// `buf` as a little-endian `u16` and panics on a shorter buffer. The
/// contract claims that the result is the first byte plus 256 times the second.
#[verifier::external_body]
fn le_read_u16(buf: &[u8]) -> (r: u16)
    requires
        buf@.len() >= 2,
    ensures
        r as int == le_u16_at(buf@, 0),
{
    LittleEndian::read_u16(buf)
}

/// `byteorder::LittleEndian::read_u32`, which reads the first four bytes of
/// `buf` as a little-endian `u32` and panics on a shorter buffer. The
/// contract claims that the result is the sum of the four bytes weighted by
/// 1, 2^8, 2^16 and 2^24 in that order.
#[verifier::external_body]
fn le_read_u32(buf: &[u8]) -> (r: u32)
    requires
        buf@.len() >= 4,
    ensures
        r as int == le_u32_at(buf@, 0),
{
    LittleEndian::read_u32(buf)
}

/// Reads the little-endian `u16` that starts at offset `at` of `data`.
pub fn read_u16_at(data: &[u8], at: usize) -> (r: u16)
    requires
        at + 2 <= data.len(),
    ensures
        r as int == le_u16_at(data@, at as int),
{
    let field = slice_subrange(data, at, at + 2);
    le_read_u16(field)
}

/// Reads the little-endian `u32` that starts at offset `at` of `data`.
pub fn read_u32_at(data: &[u8], at: usize) -> (r: u32)
    requires
        at + 4 <= data.len(),
    ensures
        r as int == le_u32_at(data@, at as int),
{
    let field = slice_subrange(data, at, at + 4);
    le_read_u32(field)
}

/// Whether two byte strings hold the same bytes.
pub fn bytes_equal(a: &[u8], b: &[u8]) -> (same: bool)
    ensures
        same <==> a@ == b@,
{
    if a.len() != b.len() {
        return false;
    }
    let mut i: usize = 0;
    while i < a.len()
        invariant
            a.len() == b.len(),
            i <= a.len(),
            forall|k: int| 0 <= k < i ==> a@[k] == b@[k],
        decreases a.len() - i,
    {
        if a[i] != b[i] {
            return false;
        }
        i += 1;
    }
    assert(a@ =~= b@);
    true
}

/// Whether a byte is one of the ASCII digits `0` to `9`.
pub open spec fn is_digit(b: u8) -> bool {
    0x30 <= b <= 0x39
}

/// Whether every byte of `s` is an ASCII digit.
pub open spec fn all_digits(s: Seq<u8>) -> bool {
    forall|i: int| 0 <= i < s.len() ==> is_digit(#[trigger] s[i])
}

/// The number that a string of ASCII digits spells in base ten.
pub open spec fn decimal_value(s: Seq<u8>) -> nat
    decreases s.len(),
{
    if s.len() == 0 {
        0
    } else {
        10 * decimal_value(s.drop_last()) + (s.last() - 0x30) as nat
    }
}

/// What reading `s` as a decimal number comes to: its value where `s` is one
/// to nine ASCII digits, and nothing otherwise.
pub open spec fn decimal_outcome(s: Seq<u8>) -> Option<nat> {
    if 1 <= s.len() <= 9 && all_digits(s) {
        Some(decimal_value(s))
    } else {
        None
    }
}

/// Ten to the power `n`.
pub open spec fn pow10(n: nat) -> nat
    decreases n,
{
    if n == 0 {
        1
    } else {
        10 * pow10((n - 1) as nat)
    }
}

/// A string of `n` digits spells a number below ten to the `n`.
pub proof fn lemma_decimal_value_bound(s: Seq<u8>)
    requires
        all_digits(s),
    ensures
        decimal_value(s) < pow10(s.len()),
    decreases s.len(),
{
    if s.len() > 0 {
        lemma_decimal_value_bound(s.drop_last());
    }
}

/// Up to nine digits spell a number below one thousand million.
pub proof fn lemma_nine_digits_fit(s: Seq<u8>)
    requires
        s.len() <= 9,
        all_digits(s),
    ensures
        decimal_value(s) < 1_000_000_000,
{
    lemma_decimal_value_bound(s);
    reveal_with_fuel(pow10, 10);
    assert(pow10(s.len()) <= 1_000_000_000);
}

/// Reads `digits` as a decimal number of one to nine ASCII digits.
pub fn parse_decimal(digits: &[u8]) -> (r: Option<u32>)
    ensures
        r is Some <==> decimal_outcome(digits@) is Some,
        r is Some ==> r->Some_0 as nat == decimal_outcome(digits@)->Some_0,
{
    if digits.len() == 0 || digits.len() > 9 {
        return None;
    }
    let mut value: u32 = 0;
    let mut i: usize = 0;
    while i < digits.len()
        invariant
            1 <= digits.len() <= 9,
            i <= digits.len(),
            all_digits(digits@.subrange(0, i as int)),
            value as nat == decimal_value(digits@.subrange(0, i as int)),
        decreases digits.len() - i,
    {
        let b: u8 = digits[i];
        if b < 0x30 || b > 0x39 {
            assert(!is_digit(digits@[i as int]));
            return None;
        }
        proof {
            let before = digits@.subrange(0, i as int);
            let after = digits@.subrange(0, i + 1);
            assert(after.drop_last() =~= before);
            assert(after.last() == b);
            assert(all_digits(after)) by {
                assert forall|k: int| 0 <= k < after.len() implies is_digit(#[trigger] after[k]) by {
                    if k < i {
                        assert(after[k] == before[k]);
                    }
                }
            }
            lemma_nine_digits_fit(after);
        }
        value = value * 10 + (b - 0x30) as u32;
        i += 1;
    }
    assert(digits@.subrange(0, i as int) =~= digits@);
    Some(value)
}

/// Appends the bytes of `piece` to `out`.
pub fn append_bytes(out: &mut Vec<u8>, piece: &[u8])
    ensures
        final(out)@ == old(out)@ + piece@,
{
    let mut i: usize = 0;
    while i < piece.len()
        invariant
            i <= piece.len(),
            out@ == old(out)@ + piece@.subrange(0, i as int),
        decreases piece.len() - i,
    {
        out.push(piece[i]);
        i += 1;
        assert(out@ =~= old(out)@ + piece@.subrange(0, i as int));
    }
    assert(piece@.subrange(0, i as int) =~= piece@);
}

/// Whether `needle` stands in `hay` at offset `at`.
pub open spec fn occurs_at(hay: Seq<u8>, needle: Seq<u8>, at: int) -> bool {
    &&& 0 <= at
    &&& at + needle.len() <= hay.len()
    &&& hay.subrange(at, at + needle.len()) == needle
}

/// Whether `needle` stands somewhere in `hay`.
pub open spec fn contains(hay: Seq<u8>, needle: Seq<u8>) -> bool {
    exists|at: int| occurs_at(hay, needle, at)
}

/// Whether `needle` stands somewhere in `hay`.
pub fn contains_bytes(hay: &[u8], needle: &[u8]) -> (found: bool)
    ensures
        found == contains(hay@, needle@),
{
    if needle.len() > hay.len() {
        assert(forall|at: int| !occurs_at(hay@, needle@, at));
        return false;
    }
    let last: usize = hay.len() - needle.len();
    let mut at: usize = 0;
    loop
        invariant
            last == hay.len() - needle.len(),
            at <= last,
            forall|k: int| 0 <= k < at ==> !occurs_at(hay@, needle@, k),
        decreases last - at,
    {
        if bytes_equal(slice_subrange(hay, at, at + needle.len()), needle) {
            assert(occurs_at(hay@, needle@, at as int));
            return true;
        }
        if at == last {
            assert(forall|k: int| !occurs_at(hay@, needle@, k));
            return false;
        }
        at += 1;
    }
}

} // verus!
