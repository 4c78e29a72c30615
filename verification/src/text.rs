//! Text building blocks: UTF-8 lengths and decimal numbers.

use vstd::prelude::*;
use vstd::utf8::*;

verus! {

/// `String::push` appends one character.
pub assume_specification[ String::push ](string: &mut String, ch: char)
    ensures
        final(string)@ == old(string)@.push(ch),
;

/// The number of bytes of the UTF-8 encoding of `text`.
pub open spec fn utf8_len(text: Seq<char>) -> nat {
    encode_utf8(text).len()
}

/// The number of bytes of the UTF-8 encoding of `ch`.
pub open spec fn char_width(ch: char) -> nat {
    encode_scalar(ch as u32).len()
}

/// The encoding of a concatenation is the concatenation of the encodings.
pub proof fn lemma_encode_concat(left: Seq<char>, right: Seq<char>)
    ensures
        encode_utf8(left + right) == encode_utf8(left) + encode_utf8(right),
        utf8_len(left + right) == utf8_len(left) + utf8_len(right),
    decreases left.len(),
{
    if left.len() == 0 {
        assert(left + right =~= right);
        assert(encode_utf8(left) =~= Seq::<u8>::empty());
        assert(encode_utf8(left) + encode_utf8(right) =~= encode_utf8(right));
    } else {
        lemma_encode_concat(left.drop_first(), right);
        assert((left + right).drop_first() =~= left.drop_first() + right);
        assert(encode_utf8(left + right) =~= encode_utf8(left) + encode_utf8(right));
    }
}

/// One more character makes the encoding longer by the width of that character.
pub proof fn lemma_push_width(text: Seq<char>, ch: char)
    ensures
        utf8_len(text.push(ch)) == utf8_len(text) + char_width(ch),
        1 <= char_width(ch) <= 4,
{
    let one = seq![ch];
    assert(text.push(ch) =~= text + one);
    lemma_encode_concat(text, one);
    assert(one.drop_first() =~= Seq::<char>::empty());
    assert(encode_utf8(one.drop_first()) =~= Seq::<u8>::empty());
    assert(encode_utf8(one) =~= encode_scalar(ch as u32));
}

/// The number of bytes that `ch` takes in UTF-8.
pub fn width_of(ch: char) -> (width: usize)
    ensures
        width == char_width(ch),
{
    let code: u32 = ch as u32;
    if code <= 0x7f {
        1
    } else if code <= 0x7ff {
        2
    } else if code <= 0xffff {
        3
    } else {
        4
    }
}

/// The decimal digit for `value`, which is below ten.
pub open spec fn digit(value: nat) -> char {
    (0x30 + value) as char
}

/// `value` in decimal notation, without leading zeros.
pub open spec fn decimal(value: nat) -> Seq<char>
    decreases value,
{
    if value < 10 {
        seq![digit(value)]
    } else {
        decimal(value / 10).push(digit(value % 10))
    }
}

/// Writes `value` in decimal notation.
pub fn decimal_text(value: u64) -> (text: String)
    ensures
        text@ == decimal(value as nat),
    decreases value,
{
    if value < 10 {
        let mut text = String::new();
        text.push((0x30 + value as u8) as char);
        assert(text@ =~= seq![digit(value as nat)]);
        text
    } else {
        let mut text = decimal_text(value / 10);
        text.push((0x30 + (value % 10) as u8) as char);
        text
    }
}

/// Concatenates two texts.
pub(crate) fn concat2(first: &str, second: &str) -> (text: String)
    ensures
        text@ == first@ + second@,
{
    let mut text = first.to_owned();
    text.append(second);
    text
}

/// Concatenates three texts.
pub(crate) fn concat3(first: &str, second: &str, third: &str) -> (text: String)
    ensures
        text@ == first@ + second@ + third@,
{
    let mut text = concat2(first, second);
    text.append(third);
    text
}

/// Concatenates four texts.
pub(crate) fn concat4(first: &str, second: &str, third: &str, fourth: &str) -> (text: String)
    ensures
        text@ == first@ + second@ + third@ + fourth@,
{
    let mut text = concat3(first, second, third);
    text.append(fourth);
    text
}

/// Concatenates five texts.
pub(crate) fn concat5(
    first: &str,
    second: &str,
    third: &str,
    fourth: &str,
    fifth: &str,
) -> (text: String)
    ensures
        text@ == first@ + second@ + third@ + fourth@ + fifth@,
{
    let mut text = concat4(first, second, third, fourth);
    text.append(fifth);
    text
}

/// The number that `text` is in decimal notation.
pub open spec fn decimal_value(text: Seq<char>) -> int
    decreases text.len(),
{
    if text.len() == 0 {
        0
    } else {
        10 * decimal_value(text.drop_last()) + (text.last() as int - '0' as int)
    }
}

/// Decimal notation reads back: it is made of digits, it has the value that it was made of, and
/// it has no zero in front unless it is the digit zero alone.
pub proof fn law_decimal_reads_back(value: nat)
    ensures
        decimal_value(decimal(value)) == value,
        decimal(value).len() > 0,
        forall|i: int|
            0 <= i < decimal(value).len() ==> '0' <= #[trigger] decimal(value)[i] <= '9',
        decimal(value)[0] == '0' ==> value == 0 && decimal(value).len() == 1,
    decreases value,
{
    reveal_with_fuel(decimal_value, 2);
    if value >= 10 {
        law_decimal_reads_back(value / 10);
        assert(decimal(value).drop_last() =~= decimal(value / 10));
    } else {
        assert(decimal(value).drop_last() =~= Seq::<char>::empty());
    }
}

/// The length of a text is that of its UTF-8 encoding, and the width of a character that of the
/// text that it makes up.
pub proof fn law_lengths_are_those_of_the_encoding(text: Seq<char>, ch: char)
    ensures
        utf8_len(text) == encode_utf8(text).len(),
        char_width(ch) == encode_utf8(seq![ch]).len(),
{
    lemma_push_width(Seq::empty(), ch);
    assert(Seq::<char>::empty().push(ch) =~= seq![ch]);
    assert(encode_utf8(Seq::<char>::empty()) =~= Seq::<u8>::empty());
}

} // verus!
