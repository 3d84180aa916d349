//! Text: decimal digits, characters and quoting.
use vstd::prelude::*;

verus! {

/// The character that writes the decimal digit `digit`.
pub open spec fn digit_char(digit: nat) -> char {
    (48 + digit) as char
}

/// The decimal digits of `number`, without leading zeros.
pub open spec fn digits(number: nat) -> Seq<char>
    decreases number,
{
    if number < 10 {
        seq![digit_char(number)]
    } else {
        digits(number / 10).push(digit_char(number % 10))
    }
}

pub(crate) fn digit_text(digit: u8) -> (text: &'static str)
    requires
        digit < 10,
    ensures
        text@ == seq![digit_char(digit as nat)],
{
    proof {
        reveal_strlit("0");
        reveal_strlit("1");
        reveal_strlit("2");
        reveal_strlit("3");
        reveal_strlit("4");
        reveal_strlit("5");
        reveal_strlit("6");
        reveal_strlit("7");
        reveal_strlit("8");
        reveal_strlit("9");
    }
    match digit {
        0 => "0",
        1 => "1",
        2 => "2",
        3 => "3",
        4 => "4",
        5 => "5",
        6 => "6",
        7 => "7",
        8 => "8",
        _ => "9",
    }
}

/// Writes `number` in decimal.
pub fn number_text(number: u64) -> (text: String)
    ensures
        text@ == digits(number as nat),
    decreases number,
{
    if number < 10 {
        digit_text(number as u8).to_owned()
    } else {
        let mut text = number_text(number / 10);
        text.append(digit_text((number % 10) as u8));
        text
    }
}

/// The characters of `text`, in order.
pub fn chars_of(text: &str) -> (chars: Vec<char>)
    ensures
        chars@ == text@,
{
    let mut chars: Vec<char> = Vec::new();
    for c in it: text.chars()
        invariant
            it.seq() == text@,
            chars@ == it.seq().take(it.index()),
    {
        chars.push(c);
    }
    chars
}

/// `text` in quotes, with what is not plainly printable escaped, as `{:?}` writes it.
pub uninterp spec fn debug_text(text: Seq<char>) -> Seq<char>;

/// Quotes `text`, by the standard `Debug` of `str` through `format!`.
///
/// What is written depends on `text` alone and is named [`debug_text`].
#[verifier::external_body]
pub(crate) fn quoted(text: &str) -> (quoted: String)
    ensures
        quoted@ == debug_text(text@),
{
    format!("{:?}", text)
}

/// Whether `unit` is the first half of a surrogate pair.
pub open spec fn is_high_surrogate(unit: u16) -> bool {
    0xD800 <= unit <= 0xDBFF
}

/// Whether `unit` is the second half of a surrogate pair.
pub open spec fn is_low_surrogate(unit: u16) -> bool {
    0xDC00 <= unit <= 0xDFFF
}

/// The text that `units` encode in UTF-16, with a replacement character for each surrogate that
/// has no partner.
pub open spec fn utf16_text(units: Seq<u16>) -> Seq<char>
    decreases units.len(),
{
    if units.len() == 0 {
        seq![]
    } else if is_high_surrogate(units[0]) && units.len() > 1 && is_low_surrogate(units[1]) {
        seq![
            (0x10000 + (units[0] - 0xD800) * 0x400 + (units[1] - 0xDC00)) as char,
        ] + utf16_text(units.skip(2))
    } else if is_high_surrogate(units[0]) || is_low_surrogate(units[0]) {
        seq!['\u{FFFD}'] + utf16_text(units.skip(1))
    } else {
        seq![units[0] as char] + utf16_text(units.skip(1))
    }
}

/// Decodes UTF-16, by `String::from_utf16_lossy`: the text is [`utf16_text`].
#[verifier::external_body]
pub(crate) fn decode_utf16(units: &[u16]) -> (text: String)
    ensures
        text@ == utf16_text(units@),
{
    String::from_utf16_lossy(units)
}

/// The decimal digits of a number are those of the number without its last digit, and that digit.
pub proof fn law_digits_end_in_the_last_digit(number: nat, last: nat)
    requires
        last < 10,
    ensures
        digits(last) == seq![(48 + last) as char],
        number > 0 ==> digits(10 * number + last) == digits(number).push((48 + last) as char),
{
    assert((10 * number + last) / 10 == number && (10 * number + last) % 10 == last);
}

/// Numbers that are written alike are equal.
pub proof fn law_digits_tell_numbers_apart(left: nat, right: nat)
    requires
        digits(left) == digits(right),
    ensures
        left == right,
    decreases left,
{
    lemma_digits_len(left);
    lemma_digits_len(right);
    assert(digits(left).last() == digit_char(left % 10));
    assert(digits(right).last() == digit_char(right % 10));
    assert(digit_char(left % 10) as int == 48 + left % 10);
    assert(digit_char(right % 10) as int == 48 + right % 10);
    if left >= 10 {
        assert(digits(left).drop_last() =~= digits(left / 10));
        assert(digits(right).drop_last() =~= digits(right / 10));
        law_digits_tell_numbers_apart(left / 10, right / 10);
    }
}

proof fn lemma_digits_len(number: nat)
    ensures
        digits(number).len() >= 1,
        number >= 10 <==> digits(number).len() >= 2,
    decreases number,
{
    if number >= 10 {
        lemma_digits_len(number / 10);
    }
}

} // verus!
