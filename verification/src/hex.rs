//! Fixed-width hexadecimal text, as the boot monitor reads and prints words.

use vstd::prelude::*;

verus! {

/// Number of hexadecimal digits in a 32-bit word.
pub const WORD_DIGITS: usize = 8;

/// The ASCII digit that stands for a value below sixteen, in upper case.
pub open spec fn digit(value: int) -> u8 {
    if value < 10 {
        (0x30 + value) as u8
    } else {
        (0x41 + value - 10) as u8
    }
}

/// The value of an ASCII hexadecimal digit of either case, if it is one.
pub open spec fn digit_value(byte: u8) -> Option<int> {
    if 0x30 <= byte <= 0x39 {
        Some(byte - 0x30)
    } else if 0x41 <= byte <= 0x46 {
        Some(byte - 0x41 + 10)
    } else if 0x61 <= byte <= 0x66 {
        Some(byte - 0x61 + 10)
    } else {
        None
    }
}

/// The `width` least significant hexadecimal digits of `value`, most
/// significant first.
pub open spec fn digits(value: nat, width: nat) -> Seq<u8>
    decreases width,
{
    if width == 0 {
        Seq::empty()
    } else {
        digits(value / 16, (width - 1) as nat).push(digit((value % 16) as int))
    }
}

/// The eight digits of a 32-bit word.
pub open spec fn word_digits(word: u32) -> Seq<u8> {
    digits(word as nat, WORD_DIGITS as nat)
}

/// Whether every byte of `text` is a hexadecimal digit.
pub open spec fn all_digits(text: Seq<u8>) -> bool {
    forall|i: int| 0 <= i < text.len() ==> (#[trigger] digit_value(text[i])) is Some
}

/// The number that a string of hexadecimal digits denotes.
pub open spec fn number(text: Seq<u8>) -> nat
    decreases text.len(),
{
    if text.len() == 0 {
        0
    } else {
        let low = match digit_value(text.last()) {
            Some(v) => v as nat,
            None => 0,
        };
        16 * number(text.drop_last()) + low
    }
}

/// The word that `text` denotes: `text` must be exactly eight hexadecimal
/// digits.
pub open spec fn parse_word(text: Seq<u8>) -> Option<u32> {
    if text.len() == WORD_DIGITS && all_digits(text) {
        Some(number(text) as u32)
    } else {
        None
    }
}

/// Sixteen to the power `n`.
pub open spec fn pow16(n: nat) -> nat
    decreases n,
{
    if n == 0 {
        1
    } else {
        16 * pow16((n - 1) as nat)
    }
}

/// `digits` yields `width` bytes, each of them a digit in upper case.
pub proof fn lemma_digits_shape(value: nat, width: nat)
    ensures
        digits(value, width).len() == width,
        all_digits(digits(value, width)),
    decreases width,
{
    if width > 0 {
        lemma_digits_shape(value / 16, (width - 1) as nat);
        let d = digits(value, width);
        let init = digits(value / 16, (width - 1) as nat);
        assert forall|i: int| 0 <= i < d.len() implies (#[trigger] digit_value(d[i])) is Some by {
            if i < width - 1 {
                assert(d[i] == init[i]);
            }
        }
    }
}

/// Reading back the digits of a value gives the value, as far as the width
/// holds it.
pub proof fn lemma_number_of_digits(value: nat, width: nat)
    requires
        value < pow16(width),
    ensures
        number(digits(value, width)) == value,
    decreases width,
{
    if width > 0 {
        let d = digits(value, width);
        let init = digits(value / 16, (width - 1) as nat);
        lemma_digits_shape(value, width);
        assert(d.drop_last() =~= init);
        lemma_number_of_digits(value / 16, (width - 1) as nat);
        assert(digit_value(digit((value % 16) as int)) == Some((value % 16) as int));
    }
}

/// Formatting a word and parsing the text gives the word back.
pub proof fn lemma_parse_word_digits(word: u32)
    ensures
        word_digits(word).len() == WORD_DIGITS,
        all_digits(word_digits(word)),
        parse_word(word_digits(word)) == Some(word),
{
    lemma_digits_shape(word as nat, WORD_DIGITS as nat);
    assert(pow16(8) == 0x1_0000_0000) by {
        reveal_with_fuel(pow16, 9);
    }
    lemma_number_of_digits(word as nat, WORD_DIGITS as nat);
}

/// The upper-case ASCII digit for `value`.
fn encode_digit(value: u8) -> (byte: u8)
    requires
        value < 16,
    ensures
        byte == digit(value as int),
{
    if value < 10 {
        0x30 + value
    } else {
        0x41 + (value - 10)
    }
}

/// The value of the hexadecimal digit `byte`, or `None` for any other byte.
pub fn decode_digit(byte: u8) -> (value: Option<u8>)
    ensures
        value is Some <==> digit_value(byte) is Some,
        value matches Some(v) ==> digit_value(byte) == Some(v as int) && v < 16,
{
    if 0x30 <= byte && byte <= 0x39 {
        Some(byte - 0x30)
    } else if 0x41 <= byte && byte <= 0x46 {
        Some(byte - 0x41 + 10)
    } else if 0x61 <= byte && byte <= 0x66 {
        Some(byte - 0x61 + 10)
    } else {
        None
    }
}

fn push_digits(out: &mut Vec<u8>, value: u32, width: u8)
    ensures
        final(out)@ == old(out)@ + digits(value as nat, width as nat),
    decreases width,
{
    if width > 0 {
        push_digits(out, value / 16, width - 1);
        let low: u8 = (value % 16) as u8;
        out.push(encode_digit(low));
        assert(final(out)@ =~= old(out)@ + digits(value as nat, width as nat));
    } else {
        assert(out@ =~= old(out)@ + digits(value as nat, width as nat));
    }
}

/// Appends the eight upper-case hexadecimal digits of `word` to `out`.
pub fn push_word(out: &mut Vec<u8>, word: u32)
    ensures
        final(out)@ == old(out)@ + word_digits(word),
{
    push_digits(out, word, 8);
}

/// Parses exactly eight hexadecimal digits, of either case, into a word.
pub fn decode_word(text: &[u8]) -> (word: Option<u32>)
    ensures
        word == parse_word(text@),
{
    if text.len() != WORD_DIGITS {
        return None;
    }
    let mut value: u32 = 0;
    let mut i: usize = 0;
    while i < WORD_DIGITS
        invariant
            text@.len() == WORD_DIGITS,
            i <= WORD_DIGITS,
            all_digits(text@.subrange(0, i as int)),
            value == number(text@.subrange(0, i as int)),
            value < pow16(i as nat),
        decreases WORD_DIGITS - i,
    {
        let ghost before = text@.subrange(0, i as int);
        let ghost after = text@.subrange(0, i + 1);
        assert(after.drop_last() =~= before);
        assert(after.last() == text@[i as int]);
        match decode_digit(text[i]) {
            None => {
                assert(!all_digits(text@));
                return None;
            },
            Some(v) => {
                assert forall|k: int| 0 <= k < after.len() implies (#[trigger] digit_value(
                    after[k],
                )) is Some by {
                    if k < i {
                        assert(after[k] == before[k]);
                    }
                }
                assert(pow16(8) == 0x1_0000_0000) by {
                    reveal_with_fuel(pow16, 9);
                }
                assert(pow16(i as nat) <= 0x1000_0000) by {
                    lemma_pow16_increases(i as nat, 7);
                    reveal_with_fuel(pow16, 9);
                }
                value = value * 16 + (v as u32);
                i += 1;
            },
        }
    }
    assert(text@.subrange(0, WORD_DIGITS as int) =~= text@);
    Some(value)
}

/// Powers of sixteen grow with the exponent.
pub proof fn lemma_pow16_increases(low: nat, high: nat)
    requires
        low <= high,
    ensures
        pow16(low) <= pow16(high),
        pow16(low) > 0,
    decreases high,
{
    if low < high {
        lemma_pow16_increases(low, (high - 1) as nat);
    } else if low > 0 {
        lemma_pow16_increases((low - 1) as nat, (low - 1) as nat);
    }
}

} // verus!
