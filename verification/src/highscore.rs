//! The stored high score.
//!
//! The store holds one number: a non-negative integer in decimal ASCII
//! digits. Reading is lenient. Whitespace on either side is skipped, a plus
//! sign before the digits is let through, and anything that is not such a
//! number, or does not fit in 32 bits, reads as zero.

use vstd::prelude::*;

verus! {

/// The ASCII whitespace bytes: space, tab, line feed, vertical tab, form
/// feed and carriage return.
pub open spec fn is_whitespace(byte: u8) -> bool {
    byte == 32 || (9 <= byte && byte <= 13)
}

/// The ASCII digits.
pub open spec fn is_digit(byte: u8) -> bool {
    48 <= byte && byte <= 57
}

/// The bytes without their leading whitespace.
pub open spec fn trimmed_start(bytes: Seq<u8>) -> Seq<u8>
    decreases bytes.len(),
{
    if bytes.len() > 0 && is_whitespace(bytes[0]) {
        trimmed_start(bytes.drop_first())
    } else {
        bytes
    }
}

/// The bytes without their trailing whitespace.
pub open spec fn trimmed_end(bytes: Seq<u8>) -> Seq<u8>
    decreases bytes.len(),
{
    if bytes.len() > 0 && is_whitespace(bytes.last()) {
        trimmed_end(bytes.drop_last())
    } else {
        bytes
    }
}

/// The bytes without the whitespace on either side.
pub open spec fn trimmed(bytes: Seq<u8>) -> Seq<u8> {
    trimmed_end(trimmed_start(bytes))
}

/// The bytes without a leading plus sign.
pub open spec fn unsigned(bytes: Seq<u8>) -> Seq<u8> {
    if bytes.len() > 0 && bytes[0] == 43 {
        bytes.drop_first()
    } else {
        bytes
    }
}

/// Whether every byte is a digit.
pub open spec fn all_digits(bytes: Seq<u8>) -> bool {
    forall|i: int| 0 <= i < bytes.len() ==> is_digit(#[trigger] bytes[i])
}

/// The number that a run of digits writes, most significant digit first.
pub open spec fn digits_value(digits: Seq<u8>) -> nat
    decreases digits.len(),
{
    if digits.len() == 0 {
        0
    } else {
        (digits_value(digits.drop_last()) * 10 + (digits.last() - 48)) as nat
    }
}

/// What the store's contents read as.
pub open spec fn parsed(bytes: Seq<u8>) -> u32 {
    let digits = unsigned(trimmed(bytes));
    if digits.len() > 0 && all_digits(digits) && digits_value(digits) <= u32::MAX {
        digits_value(digits) as u32
    } else {
        0
    }
}

/// A number in decimal digits, without sign or leading zeros.
pub open spec fn decimal(number: nat) -> Seq<u8>
    decreases number,
{
    if number < 10 {
        seq![(48 + number) as u8]
    } else {
        decimal(number / 10).push((48 + number % 10) as u8)
    }
}

/// A run of digits writes a number no smaller than any of its prefixes.
pub proof fn lemma_digits_value_grows(digits: Seq<u8>, count: int)
    requires
        0 <= count <= digits.len(),
        all_digits(digits),
    ensures
        digits_value(digits.take(count)) <= digits_value(digits),
    decreases digits.len() - count,
{
    if count == digits.len() {
        assert(digits.take(count) =~= digits);
    } else {
        lemma_digits_value_grows(digits, count + 1);
        assert(digits.take(count + 1).drop_last() =~= digits.take(count));
        assert(is_digit(digits[count]));
    }
}

/// The decimal form of a number is a run of digits that writes it.
pub proof fn lemma_decimal_is_digits(number: nat)
    ensures
        decimal(number).len() > 0,
        all_digits(decimal(number)),
        digits_value(decimal(number)) == number,
    decreases number,
{
    if number < 10 {
        let only = decimal(number);
        assert(only.drop_last() =~= Seq::<u8>::empty());
        assert(digits_value(only.drop_last()) == 0);
    } else {
        lemma_decimal_is_digits(number / 10);
        let whole = decimal(number);
        assert(whole.drop_last() =~= decimal(number / 10));
        assert forall|i: int| 0 <= i < whole.len() implies is_digit(#[trigger] whole[i]) by {
            if i < whole.len() - 1 {
                assert(whole[i] == decimal(number / 10)[i]);
            }
        }
    }
}

/// Reading what was written gives back the number.
pub proof fn law_round_trip(score: u32)
    ensures
        parsed(decimal(score as nat)) == score,
{
    let written = decimal(score as nat);
    lemma_decimal_is_digits(score as nat);
    assert(is_digit(written[0]));
    assert(is_digit(written.last()));
    assert(trimmed_start(written) == written);
    assert(trimmed_end(written) == written);
}

/// Whitespace around a written number does not change what is read.
pub proof fn law_padding_is_skipped(before: Seq<u8>, score: u32, after: Seq<u8>)
    requires
        forall|i: int| 0 <= i < before.len() ==> is_whitespace(#[trigger] before[i]),
        forall|i: int| 0 <= i < after.len() ==> is_whitespace(#[trigger] after[i]),
    ensures
        parsed(before + decimal(score as nat) + after) == score,
{
    let written = decimal(score as nat);
    lemma_decimal_is_digits(score as nat);
    assert(is_digit(written[0]));
    assert(is_digit(written.last()));
    lemma_trim_start(before, written + after);
    assert(before + written + after =~= before + (written + after));
    lemma_trim_end(written, after);
    law_round_trip(score);
    assert(trimmed_start(written) == written);
    assert(trimmed_end(written) == written);
}

/// Leading whitespace goes, up to the first byte that is none.
proof fn lemma_trim_start(padding: Seq<u8>, rest: Seq<u8>)
    requires
        forall|i: int| 0 <= i < padding.len() ==> is_whitespace(#[trigger] padding[i]),
        rest.len() > 0 && !is_whitespace(rest[0]),
    ensures
        trimmed_start(padding + rest) == rest,
    decreases padding.len(),
{
    if padding.len() == 0 {
        assert(padding + rest =~= rest);
    } else {
        assert(is_whitespace(padding[0]));
        assert((padding + rest).drop_first() =~= padding.drop_first() + rest);
        lemma_trim_start(padding.drop_first(), rest);
    }
}

/// Trailing whitespace goes, back to the last byte that is none.
proof fn lemma_trim_end(rest: Seq<u8>, padding: Seq<u8>)
    requires
        forall|i: int| 0 <= i < padding.len() ==> is_whitespace(#[trigger] padding[i]),
        rest.len() > 0 && !is_whitespace(rest.last()),
    ensures
        trimmed_end(rest + padding) == rest,
    decreases padding.len(),
{
    if padding.len() == 0 {
        assert(rest + padding =~= rest);
    } else {
        assert(is_whitespace(padding.last()));
        assert((rest + padding).drop_last() =~= rest + padding.drop_last());
        lemma_trim_end(rest, padding.drop_last());
    }
}

/// Tests whether a byte is ASCII whitespace.
fn whitespace(byte: u8) -> (yes: bool)
    ensures
        yes == is_whitespace(byte),
{
    byte == 32 || (9 <= byte && byte <= 13)
}

/// Reads the store's contents.
pub fn parse_high_score(bytes: &[u8]) -> (score: u32)
    ensures
        score == parsed(bytes@),
{
    let len = bytes.len();
    let mut start: usize = 0;
    proof {
        assert(bytes@.subrange(0, len as int) =~= bytes@);
    }
    while start < len && whitespace(bytes[start])
        invariant
            start <= len,
            len == bytes@.len(),
            trimmed_start(bytes@) == trimmed_start(bytes@.subrange(start as int, len as int)),
        decreases len - start,
    {
        proof {
            let rest = bytes@.subrange(start as int, len as int);
            assert(rest.drop_first() =~= bytes@.subrange(start + 1, len as int));
        }
        start = start + 1;
    }
    let mut end: usize = len;
    while end > start && whitespace(bytes[end - 1])
        invariant
            start <= end <= len,
            len == bytes@.len(),
            trimmed_end(bytes@.subrange(start as int, len as int)) == trimmed_end(
                bytes@.subrange(start as int, end as int),
            ),
        decreases end - start,
    {
        proof {
            let rest = bytes@.subrange(start as int, end as int);
            assert(rest.drop_last() =~= bytes@.subrange(start as int, end - 1));
        }
        end = end - 1;
    }
    let ghost core = bytes@.subrange(start as int, end as int);
    proof {
        let rest = bytes@.subrange(start as int, len as int);
        assert(trimmed_start(rest) == rest);
        assert(trimmed_end(core) == core);
        assert(trimmed(bytes@) == core);
    }
    if start < end && bytes[start] == 43 {
        proof {
            assert(core.drop_first() =~= bytes@.subrange(start + 1, end as int));
        }
        start = start + 1;
    }
    let ghost digits = bytes@.subrange(start as int, end as int);
    assert(digits == unsigned(core));
    if start == end {
        return 0;
    }
    let mut value: u64 = 0;
    let mut i: usize = start;
    proof {
        assert(digits.take(0) =~= Seq::<u8>::empty());
    }
    while i < end
        invariant
            start <= i <= end <= len,
            len == bytes@.len(),
            digits == bytes@.subrange(start as int, end as int),
            digits == unsigned(trimmed(bytes@)),
            all_digits(digits.take(i - start)),
            value == digits_value(digits.take(i - start)),
            value <= u32::MAX,
        decreases end - i,
    {
        let byte = bytes[i];
        proof {
            assert(digits.take(i - start + 1).drop_last() =~= digits.take(i - start));
            assert(digits[i - start] == byte);
        }
        if !(48 <= byte && byte <= 57) {
            assert(!is_digit(digits[i - start]));
            return 0;
        }
        value = value * 10 + (byte - 48) as u64;
        proof {
            assert(digits.take(i - start + 1).last() == byte);
            assert(value == digits_value(digits.take(i - start + 1)));
            assert forall|k: int| 0 <= k < i - start + 1 implies is_digit(
                #[trigger] digits.take(i - start + 1)[k],
            ) by {
                if k < i - start {
                    assert(is_digit(digits.take(i - start)[k]));
                }
            }
        }
        if value > 0xffff_ffff {
            proof {
                if all_digits(digits) {
                    lemma_digits_value_grows(digits, i - start + 1);
                }
            }
            return 0;
        }
        i = i + 1;
    }
    proof {
        assert(digits.take(end - start) =~= digits);
    }
    value as u32
}

/// Appends a number in decimal digits.
pub fn push_decimal(number: u32, text: &mut Vec<u8>)
    ensures
        final(text)@ == old(text)@ + decimal(number as nat),
    decreases number,
{
    if number >= 10 {
        push_decimal(number / 10, text);
    }
    text.push(48 + (number % 10) as u8);
    assert(text@ =~= old(text)@ + decimal(number as nat));
}

/// Writes a high score as the store holds it.
pub fn format_high_score(score: u32) -> (bytes: Vec<u8>)
    ensures
        bytes@ == decimal(score as nat),
        parsed(bytes@) == score,
{
    let mut bytes: Vec<u8> = Vec::new();
    push_decimal(score, &mut bytes);
    proof {
        assert(bytes@ =~= decimal(score as nat));
        law_round_trip(score);
    }
    bytes
}

/// The high score that a run starts with: what the store's contents read
/// as, or zero where the store could not be had.
pub fn initial_high_score(stored: Option<&[u8]>) -> (score: u32)
    ensures
        score == match stored {
            Some(bytes) => parsed(bytes@),
            None => 0,
        },
{
    match stored {
        Some(bytes) => parse_high_score(bytes),
        None => 0,
    }
}

} // verus!
