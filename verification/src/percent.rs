//! Percent-decoding of request-path bytes.

use vstd::prelude::*;

verus! {

/// A byte is a hexadecimal digit: `0-9`, `A-F` or `a-f`.
pub open spec fn is_hex_digit(b: u8) -> bool {
    (48 <= b <= 57) || (65 <= b <= 70) || (97 <= b <= 102)
}

/// Numeric value of a hexadecimal digit, upper or lower case.
pub open spec fn hex_val(b: u8) -> u8 {
    if 48 <= b <= 57 {
        (b - 48) as u8
    } else if 65 <= b <= 70 {
        (b - 55) as u8
    } else {
        (b - 87) as u8
    }
}

/// Percent-decoding of a byte sequence: each `%` followed by two hex digits
/// becomes the byte they denote; every other byte passes through unchanged.
pub open spec fn percent_decode_spec(s: Seq<u8>) -> Seq<u8>
    decreases s.len(),
{
    if s.len() == 0 {
        Seq::<u8>::empty()
    } else if s[0] == 37 && s.len() >= 3 && is_hex_digit(s[1]) && is_hex_digit(s[2]) {
        seq![(16 * hex_val(s[1]) + hex_val(s[2])) as u8] + percent_decode_spec(s.skip(3))
    } else {
        seq![s[0]] + percent_decode_spec(s.skip(1))
    }
}

/// Relies on `percent_encoding::percent_decode`: it decodes each `%` that is
/// followed by two hex digits (either case) into the byte they denote and
/// copies every other byte through unchanged.
#[verifier::external_body]
pub(crate) fn percent_decode_bytes(s: &Vec<u8>) -> (r: Vec<u8>)
    ensures
        r@ == percent_decode_spec(s@),
{
    percent_encoding::percent_decode(s.as_slice()).collect()
}

/// The lower-case hex digit for a value below sixteen.
pub open spec fn lower_hex_digit(v: u8) -> u8
    recommends
        v < 16,
{
    if v < 10 {
        (v + 48) as u8
    } else {
        (v + 87) as u8
    }
}

/// The upper-case hex digit for a value below sixteen.
pub open spec fn upper_hex_digit(v: u8) -> u8
    recommends
        v < 16,
{
    if v < 10 {
        (v + 48) as u8
    } else {
        (v + 55) as u8
    }
}

/// The lower-case percent escape of a byte, such as `%2e`.
pub open spec fn escape_lower(b: u8) -> Seq<u8> {
    seq![37u8, lower_hex_digit((b / 16) as u8), lower_hex_digit((b % 16) as u8)]
}

/// The upper-case percent escape of a byte, such as `%2E`.
pub open spec fn escape_upper(b: u8) -> Seq<u8> {
    seq![37u8, upper_hex_digit((b / 16) as u8), upper_hex_digit((b % 16) as u8)]
}

/// A percent escape decodes to the escaped byte whether its hex digits are
/// written in upper or in lower case, so the two spellings of an escape
/// decode identically in any context.
pub proof fn lemma_escape_case_insensitive(b: u8, rest: Seq<u8>)
    ensures
        percent_decode_spec(escape_lower(b) + rest) == seq![b] + percent_decode_spec(rest),
        percent_decode_spec(escape_upper(b) + rest) == seq![b] + percent_decode_spec(rest),
        percent_decode_spec(escape_lower(b) + rest) == percent_decode_spec(escape_upper(b) + rest),
{
    let hi = (b / 16) as u8;
    let lo = (b % 16) as u8;
    assert(hi < 16 && lo < 16);
    assert(16 * hi + lo == b);
    let sl = escape_lower(b) + rest;
    assert(sl[0] == 37 && sl.len() >= 3);
    assert(sl[1] == lower_hex_digit(hi) && sl[2] == lower_hex_digit(lo));
    assert(is_hex_digit(sl[1]) && is_hex_digit(sl[2]));
    assert(hex_val(sl[1]) == hi && hex_val(sl[2]) == lo);
    assert(sl.skip(3) =~= rest);
    assert(percent_decode_spec(sl) =~= seq![b] + percent_decode_spec(rest));
    let su = escape_upper(b) + rest;
    assert(su[0] == 37 && su.len() >= 3);
    assert(su[1] == upper_hex_digit(hi) && su[2] == upper_hex_digit(lo));
    assert(is_hex_digit(su[1]) && is_hex_digit(su[2]));
    assert(hex_val(su[1]) == hi && hex_val(su[2]) == lo);
    assert(su.skip(3) =~= rest);
    assert(percent_decode_spec(su) =~= seq![b] + percent_decode_spec(rest));
}

} // verus!
