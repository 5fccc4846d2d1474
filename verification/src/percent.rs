//! Percent-decoding of byte strings.
//!
//! Decoding never fails: a `%` that is not followed by two hexadecimal digits
//! is kept as it stands.

use vstd::prelude::*;

verus! {

/// Whether `b` is an ASCII hexadecimal digit.
pub open spec fn is_hex_digit(b: u8) -> bool {
    (0x30 <= b <= 0x39) || (0x41 <= b <= 0x46) || (0x61 <= b <= 0x66)
}

/// The value of the hexadecimal digit `b`.
pub open spec fn hex_digit_value(b: u8) -> int
    recommends
        is_hex_digit(b),
{
    if 0x30 <= b <= 0x39 {
        b - 0x30
    } else if 0x41 <= b <= 0x46 {
        b - 0x41 + 10
    } else {
        b - 0x61 + 10
    }
}

/// Whether an escape sequence (`%` and two hexadecimal digits) starts at `i`.
pub open spec fn escape_at(s: Seq<u8>, i: int) -> bool {
    &&& 0 <= i
    &&& i + 2 < s.len()
    &&& s[i] == 0x25
    &&& is_hex_digit(s[i + 1])
    &&& is_hex_digit(s[i + 2])
}

/// The percent-decoded form of `s`: every escape sequence, read from the
/// left, is replaced by the byte it names; all other bytes are kept.
pub open spec fn percent_decoded(s: Seq<u8>) -> Seq<u8>
    decreases s.len(),
{
    if s.len() == 0 {
        Seq::<u8>::empty()
    } else if escape_at(s, 0) {
        seq![(hex_digit_value(s[1]) * 16 + hex_digit_value(s[2])) as u8] + percent_decoded(
            s.skip(3),
        )
    } else {
        seq![s[0]] + percent_decoded(s.skip(1))
    }
}

/// Whether `s` holds no escape sequence at all.
pub open spec fn escape_free(s: Seq<u8>) -> bool {
    forall|i: int| !escape_at(s, i)
}

/// Calls `url::percent_encoding::percent_decode`. The contract states its
/// whole result: the decoded bytes, as `percent_decoded` defines them.
#[verifier::external_body]
pub(crate) fn percent_decode(input: &[u8]) -> (output: Vec<u8>)
    ensures
        output@ == percent_decoded(input@),
{
    url::percent_encoding::percent_decode(input)
}

/// Calls `url::percent_encoding::percent_decode_to`, which appends the decoded
/// form of `input` to `output` and leaves what `output` held in front of it.
#[verifier::external_body]
pub(crate) fn percent_decode_to(input: &[u8], output: &mut Vec<u8>)
    ensures
        final(output)@ == old(output)@ + percent_decoded(input@),
{
    url::percent_encoding::percent_decode_to(input, output)
}

/// Percent-decodes `input`.
pub fn decode(input: &[u8]) -> (output: Vec<u8>)
    ensures
        output@ == percent_decoded(input@),
{
    percent_decode(input)
}

/// Decoding never lengthens a byte string.
pub proof fn lemma_decoded_len(s: Seq<u8>)
    ensures
        percent_decoded(s).len() <= s.len(),
    decreases s.len(),
{
    if s.len() == 0 {
    } else if escape_at(s, 0) {
        lemma_decoded_len(s.skip(3));
    } else {
        lemma_decoded_len(s.skip(1));
    }
}

/// Decoding goes through a separator that is neither `%` nor a hexadecimal
/// digit: what stands before it and what stands behind it are decoded apart.
pub proof fn lemma_decode_around_separator(front: Seq<u8>, separator: u8, back: Seq<u8>)
    requires
        separator != 0x25,
        !is_hex_digit(separator),
    ensures
        percent_decoded(front + seq![separator] + back) == percent_decoded(front) + seq![separator]
            + percent_decoded(back),
    decreases front.len(),
{
    let s = front + seq![separator] + back;
    if front.len() == 0 {
        assert(!escape_at(s, 0));
        assert(s.skip(1) =~= back);
        assert(percent_decoded(s) =~= percent_decoded(front) + seq![separator] + percent_decoded(
            back,
        ));
    } else if escape_at(front, 0) {
        assert(s[0] == front[0] && s[1] == front[1] && s[2] == front[2]);
        assert(escape_at(s, 0));
        assert(s.skip(3) =~= front.skip(3) + seq![separator] + back);
        lemma_decode_around_separator(front.skip(3), separator, back);
        assert(percent_decoded(s) =~= percent_decoded(front) + seq![separator] + percent_decoded(
            back,
        ));
    } else {
        assert(!escape_at(s, 0)) by {
            assert(s[0] == front[0]);
            if front.len() == 1 {
                assert(s[1] == separator);
            } else if front.len() == 2 {
                assert(s[2] == separator);
            } else {
                assert(s[1] == front[1] && s[2] == front[2]);
            }
        }
        assert(s.skip(1) =~= front.skip(1) + seq![separator] + back);
        lemma_decode_around_separator(front.skip(1), separator, back);
        assert(percent_decoded(s) =~= percent_decoded(front) + seq![separator] + percent_decoded(
            back,
        ));
    }
}

/// A byte string without escape sequences decodes to itself.
pub proof fn lemma_decode_escape_free(s: Seq<u8>)
    requires
        escape_free(s),
    ensures
        percent_decoded(s) == s,
    decreases s.len(),
{
    if s.len() == 0 {
        assert(percent_decoded(s) =~= s);
    } else {
        assert(!escape_at(s, 0));
        let rest = s.skip(1);
        assert forall|i: int| !escape_at(rest, i) by {
            if escape_at(rest, i) {
                assert(escape_at(s, i + 1));
            }
        }
        lemma_decode_escape_free(rest);
        assert(seq![s[0]] + rest =~= s);
    }
}

/// Decoding is idempotent on a byte string without escape sequences: decoding
/// it twice gives what decoding it once gives.
pub proof fn lemma_decode_idempotent(s: Seq<u8>)
    requires
        escape_free(s),
    ensures
        percent_decoded(percent_decoded(s)) == percent_decoded(s),
{
    lemma_decode_escape_free(s);
}

} // verus!
