//! Console text as bytes: ASCII literals and decimal numerals.

use vstd::prelude::*;
use vstd::string::{is_ascii_spec_bytes, StringSliceAdditionalSpecFns};

verus! {

/// The bytes of a text of ASCII characters: one byte per character, in order.
pub open spec fn ascii_bytes(text: Seq<char>) -> Seq<u8> {
    Seq::new(text.len(), |i: int| text[i] as u8)
}

/// Appends the bytes of a text to `out`: for an ASCII text, one byte per
/// character.
pub fn push_text(out: &mut Vec<u8>, text: &str)
    ensures
        final(out)@ == old(out)@ + text.spec_bytes(),
        text.is_ascii() ==> final(out)@ == old(out)@ + ascii_bytes(text@),
{
    proof {
        is_ascii_spec_bytes(text);
    }
    let bytes = text.as_bytes();
    out.extend_from_slice(bytes);
    assert(out@ =~= old(out)@ + text.spec_bytes());
}

/// The byte of the decimal digit `digit`.
pub open spec fn digit_byte(digit: int) -> u8
    recommends
        0 <= digit <= 9,
{
    (48 + digit) as u8
}

/// The decimal numeral of a natural number: no sign, no leading zero.
pub open spec fn natural_text(n: nat) -> Seq<u8>
    decreases n,
{
    if n < 10 {
        seq![digit_byte(n as int)]
    } else {
        natural_text(n / 10).push(digit_byte((n % 10) as int))
    }
}

/// The decimal numeral of an integer: a minus sign in front of the numeral of
/// its magnitude when it is negative.
pub open spec fn decimal_text(n: int) -> Seq<u8> {
    if n < 0 {
        seq![45u8] + natural_text((-n) as nat)
    } else {
        natural_text(n as nat)
    }
}

/// The number that a sequence of digit bytes denotes, read as a decimal numeral.
pub open spec fn natural_value(digits: Seq<u8>) -> int
    decreases digits.len(),
{
    if digits.len() == 0 {
        0
    } else {
        10 * natural_value(digits.drop_last()) + (digits.last() - 48)
    }
}

/// A numeral is made of digits only and reads back as the number it was
/// written for.
pub proof fn lemma_natural_text_reads_back(n: nat)
    ensures
        natural_text(n).len() >= 1,
        forall|i: int| 0 <= i < natural_text(n).len() ==> 48 <= #[trigger] natural_text(n)[i] <= 57,
        natural_value(natural_text(n)) == n,
    decreases n,
{
    if n < 10 {
        assert(natural_text(n).drop_last() =~= Seq::<u8>::empty());
        assert(natural_value(Seq::<u8>::empty()) == 0);
    } else {
        lemma_natural_text_reads_back(n / 10);
        assert(natural_text(n).drop_last() =~= natural_text(n / 10));
    }
}

/// The integer that a decimal numeral denotes: a leading minus sign negates
/// the number that the digits after it denote.
pub open spec fn decimal_value(text: Seq<u8>) -> int {
    if text.len() > 0 && text[0] == 45 {
        -natural_value(text.drop_first())
    } else {
        natural_value(text)
    }
}

/// The numeral of an integer reads back as that integer.
pub proof fn lemma_decimal_text_reads_back(n: int)
    ensures
        decimal_value(decimal_text(n)) == n,
{
    if n < 0 {
        lemma_natural_text_reads_back((-n) as nat);
        assert(decimal_text(n).drop_first() =~= natural_text((-n) as nat));
    } else {
        lemma_natural_text_reads_back(n as nat);
    }
}

/// Appends the decimal numeral of `n` to `out`.
pub fn push_decimal(out: &mut Vec<u8>, n: i32)
    ensures
        final(out)@ == old(out)@ + decimal_text(n as int),
{
    let mut rest: u32 = if n < 0 {
        out.push(45u8);
        (-(n as i64)) as u32
    } else {
        n as u32
    };
    let ghost start = out@;
    let ghost magnitude = rest as nat;
    let mut reversed: Vec<u8> = Vec::new();
    while rest >= 10
        invariant
            natural_text(magnitude) == natural_text(rest as nat) + reversed@.reverse(),
        decreases rest,
    {
        let digit = (rest % 10) as u8;
        let ghost earlier = reversed@;
        reversed.push(48 + digit);
        assert(natural_text(rest as nat) + earlier.reverse() =~= natural_text((rest / 10) as nat)
            + reversed@.reverse());
        rest = rest / 10;
    }
    reversed.push(48 + rest as u8);
    assert(natural_text(magnitude) =~= reversed@.reverse());
    let mut i: usize = reversed.len();
    while i > 0
        invariant
            i <= reversed.len(),
            out@ == start + reversed@.reverse().take(reversed.len() - i),
        decreases i,
    {
        i -= 1;
        out.push(reversed[i]);
        assert(out@ =~= start + reversed@.reverse().take(reversed.len() - i));
    }
    assert(out@ =~= old(out)@ + decimal_text(n as int));
}

} // verus!
