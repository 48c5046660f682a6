//! Session tokens and their text.
//!
//! A token is a number of 128 bits. On the wire it is a string of 32
//! hexadecimal digits, the most significant first, with the letters in lower
//! case. No other string is the text of a token.

use vstd::prelude::*;

verus! {

/// The number of digits of the text of a token.
pub const TOKEN_DIGITS: usize = 32;

/// The capability that a client holds for a session.
#[derive(Debug, Clone, Copy, PartialEq, Eq, Hash, Structural)]
pub struct SessionToken {
    pub value: u128,
}

/// The hexadecimal digit for a number from 0 to 15.
pub open spec fn hex_digit(nibble: int) -> char {
    if nibble == 0 {
        '0'
    } else if nibble == 1 {
        '1'
    } else if nibble == 2 {
        '2'
    } else if nibble == 3 {
        '3'
    } else if nibble == 4 {
        '4'
    } else if nibble == 5 {
        '5'
    } else if nibble == 6 {
        '6'
    } else if nibble == 7 {
        '7'
    } else if nibble == 8 {
        '8'
    } else if nibble == 9 {
        '9'
    } else if nibble == 10 {
        'a'
    } else if nibble == 11 {
        'b'
    } else if nibble == 12 {
        'c'
    } else if nibble == 13 {
        'd'
    } else if nibble == 14 {
        'e'
    } else {
        'f'
    }
}

/// The number that a hexadecimal digit stands for, or `None` where the
/// character is no digit. Upper-case letters are no digits.
pub open spec fn hex_value(digit: char) -> Option<int> {
    if digit == '0' {
        Some(0)
    } else if digit == '1' {
        Some(1)
    } else if digit == '2' {
        Some(2)
    } else if digit == '3' {
        Some(3)
    } else if digit == '4' {
        Some(4)
    } else if digit == '5' {
        Some(5)
    } else if digit == '6' {
        Some(6)
    } else if digit == '7' {
        Some(7)
    } else if digit == '8' {
        Some(8)
    } else if digit == '9' {
        Some(9)
    } else if digit == 'a' {
        Some(10)
    } else if digit == 'b' {
        Some(11)
    } else if digit == 'c' {
        Some(12)
    } else if digit == 'd' {
        Some(13)
    } else if digit == 'e' {
        Some(14)
    } else if digit == 'f' {
        Some(15)
    } else {
        None
    }
}

/// The last `digits` hexadecimal digits of `value`, the most significant
/// first.
pub open spec fn text_of(value: int, digits: nat) -> Seq<char>
    decreases digits,
{
    if digits == 0 {
        Seq::empty()
    } else {
        text_of(value / 16, (digits - 1) as nat).push(hex_digit(value % 16))
    }
}

/// The number that a string of hexadecimal digits stands for, or `None`
/// where a character of the string is no digit.
pub open spec fn value_of(text: Seq<char>) -> Option<int>
    decreases text.len(),
{
    if text.len() == 0 {
        Some(0)
    } else {
        match (value_of(text.drop_last()), hex_value(text.last())) {
            (Some(value), Some(digit)) => Some(value * 16 + digit),
            _ => None,
        }
    }
}

/// Sixteen to the power of `digits`: the number of values that `digits`
/// hexadecimal digits tell apart.
pub open spec fn sixteen_to(digits: nat) -> int
    decreases digits,
{
    if digits == 0 {
        1
    } else {
        16 * sixteen_to((digits - 1) as nat)
    }
}

/// The text of a token.
pub open spec fn token_text(token: SessionToken) -> Seq<char> {
    text_of(token.value as int, TOKEN_DIGITS as nat)
}

/// The token that a text stands for, or `None` where the text is not 32
/// hexadecimal digits.
pub open spec fn token_of_text(text: Seq<char>) -> Option<SessionToken> {
    if text.len() == TOKEN_DIGITS && value_of(text) is Some {
        Some(SessionToken { value: value_of(text)->0 as u128 })
    } else {
        None
    }
}

proof fn lemma_thirty_two_digits()
    ensures
        sixteen_to(32) == u128::MAX + 1,
{
    reveal_with_fuel(sixteen_to, 33);
}

/// The digits of a number that fits them stand for the number.
proof fn lemma_text_stands_for_value(value: int, digits: nat)
    requires
        0 <= value < sixteen_to(digits),
    ensures
        text_of(value, digits).len() == digits,
        value_of(text_of(value, digits)) == Some(value),
    decreases digits,
{
    if digits > 0 {
        let shorter = (digits - 1) as nat;
        lemma_text_stands_for_value(value / 16, shorter);
        let text = text_of(value, digits);
        assert(text.drop_last() == text_of(value / 16, shorter));
        assert(text.last() == hex_digit(value % 16));
        assert(hex_value(hex_digit(value % 16)) == Some(value % 16));
    }
}

/// A string of digits is the text of the number it stands for, and the
/// number fits the digits.
proof fn lemma_value_has_the_text(text: Seq<char>)
    requires
        value_of(text) is Some,
    ensures
        0 <= value_of(text)->0 < sixteen_to(text.len()),
        text_of(value_of(text)->0, text.len()) == text,
    decreases text.len(),
{
    if text.len() > 0 {
        let head = text.drop_last();
        lemma_value_has_the_text(head);
        let value = value_of(text)->0;
        let digit = hex_value(text.last())->0;
        assert(value == value_of(head)->0 * 16 + digit);
        assert(value / 16 == value_of(head)->0);
        assert(value % 16 == digit);
        assert(hex_digit(digit) == text.last());
        assert(text_of(value, text.len()) == text_of(value / 16, head.len()).push(
            hex_digit(value % 16),
        ));
        assert(head.push(text.last()) == text);
    } else {
        assert(text_of(0, 0) =~= text);
    }
}

/// The text of a token stands for the token.
pub proof fn law_text_stands_for_its_token(token: SessionToken)
    ensures
        token_text(token).len() == TOKEN_DIGITS,
        token_of_text(token_text(token)) == Some(token),
{
    lemma_thirty_two_digits();
    lemma_text_stands_for_value(token.value as int, 32);
}

/// A token has one text: a string that stands for a token is the text of
/// that token.
pub proof fn law_token_has_one_text(text: Seq<char>)
    requires
        token_of_text(text) is Some,
    ensures
        token_text(token_of_text(text)->0) == text,
{
    lemma_thirty_two_digits();
    lemma_value_has_the_text(text);
}

/// The digit for a number from 0 to 15, as a string.
fn digit_text(nibble: u8) -> (digit: &'static str)
    requires
        nibble < 16,
    ensures
        digit@ == seq![hex_digit(nibble as int)],
{
    proof {
        reveal_strlit("0");
        reveal_strlit("1");
        reveal_strlit("2");
        reveal_strlit("3");
        reveal_strlit("4");
        reveal_strlit("5");
        reveal_strlit("6");
        reveal_strlit("7");
        reveal_strlit("8");
        reveal_strlit("9");
        reveal_strlit("a");
        reveal_strlit("b");
        reveal_strlit("c");
        reveal_strlit("d");
        reveal_strlit("e");
        reveal_strlit("f");
    }
    let digit = if nibble == 0 {
        "0"
    } else if nibble == 1 {
        "1"
    } else if nibble == 2 {
        "2"
    } else if nibble == 3 {
        "3"
    } else if nibble == 4 {
        "4"
    } else if nibble == 5 {
        "5"
    } else if nibble == 6 {
        "6"
    } else if nibble == 7 {
        "7"
    } else if nibble == 8 {
        "8"
    } else if nibble == 9 {
        "9"
    } else if nibble == 10 {
        "a"
    } else if nibble == 11 {
        "b"
    } else if nibble == 12 {
        "c"
    } else if nibble == 13 {
        "d"
    } else if nibble == 14 {
        "e"
    } else {
        "f"
    };
    assert(digit@ =~= seq![hex_digit(nibble as int)]);
    digit
}

/// The number that a character stands for as a hexadecimal digit.
fn digit_value(digit: char) -> (value: Option<u8>)
    ensures
        match value {
            Some(v) => hex_value(digit) == Some(v as int) && v < 16,
            None => hex_value(digit) is None,
        },
{
    if digit == '0' {
        Some(0)
    } else if digit == '1' {
        Some(1)
    } else if digit == '2' {
        Some(2)
    } else if digit == '3' {
        Some(3)
    } else if digit == '4' {
        Some(4)
    } else if digit == '5' {
        Some(5)
    } else if digit == '6' {
        Some(6)
    } else if digit == '7' {
        Some(7)
    } else if digit == '8' {
        Some(8)
    } else if digit == '9' {
        Some(9)
    } else if digit == 'a' {
        Some(10)
    } else if digit == 'b' {
        Some(11)
    } else if digit == 'c' {
        Some(12)
    } else if digit == 'd' {
        Some(13)
    } else if digit == 'e' {
        Some(14)
    } else if digit == 'f' {
        Some(15)
    } else {
        None
    }
}

impl SessionToken {
    /// The text of the token: 32 hexadecimal digits.
    pub fn to_text(&self) -> (text: String)
        ensures
            text@ == token_text(*self),
    {
        let mut digits: [u8; 32] = [0u8; 32];
        let mut rest: u128 = self.value;
        let mut i: usize = 32;
        assert(text_of(rest as int, 32) =~= text_of(rest as int, 32) + Seq::<char>::empty());
        while i > 0
            invariant
                i <= 32,
                forall|k: int| i <= k < 32 ==> digits@[k] < 16,
                token_text(*self) == text_of(rest as int, i as nat) + Seq::new(
                    (32 - i) as nat,
                    |k: int| hex_digit(digits@[i + k] as int),
                ),
            decreases i,
        {
            let ghost before = digits@;
            let ghost tail = Seq::new((32 - i) as nat, |k: int| hex_digit(before[i + k] as int));
            i -= 1;
            let nibble: u8 = (rest % 16) as u8;
            digits[i] = nibble;
            proof {
                let longer = Seq::new(
                    (32 - i) as nat,
                    |k: int| hex_digit(digits@[i + k] as int),
                );
                assert(longer =~= seq![hex_digit(nibble as int)] + tail);
                assert(text_of(rest as int, (i + 1) as nat) == text_of(
                    (rest / 16) as int,
                    i as nat,
                ).push(hex_digit(nibble as int)));
                assert(text_of(rest as int, (i + 1) as nat) + tail =~= text_of(
                    (rest / 16) as int,
                    i as nat,
                ) + longer);
            }
            rest = rest / 16;
        }
        let mut text = String::new();
        let mut k: usize = 0;
        while k < 32
            invariant
                k <= 32,
                forall|j: int| 0 <= j < 32 ==> digits@[j] < 16,
                text@ == Seq::new(k as nat, |j: int| hex_digit(digits@[j] as int)),
            decreases 32 - k,
        {
            text.append(digit_text(digits[k]));
            k += 1;
            assert(text@ =~= Seq::new(k as nat, |j: int| hex_digit(digits@[j] as int)));
        }
        assert(text@ =~= token_text(*self));
        text
    }

    /// The token that `text` stands for, or `None` where `text` is not 32
    /// hexadecimal digits with the letters in lower case.
    pub fn from_text(text: &str) -> (token: Option<SessionToken>)
        ensures
            token == token_of_text(text@),
    {
        if text.unicode_len() != 32 {
            return None;
        }
        let mut value: u128 = 0;
        let mut i: usize = 0;
        assert(text@.take(0) =~= Seq::<char>::empty());
        while i < 32
            invariant
                i <= 32,
                text@.len() == 32,
                value_of(text@.take(i as int)) == Some(value as int),
                value < sixteen_to(i as nat),
            decreases 32 - i,
        {
            let ghost head = text@.take(i as int);
            let ghost longer = text@.take(i + 1);
            proof {
                assert(longer.drop_last() =~= head);
                assert(longer.last() == text@[i as int]);
                lemma_thirty_two_digits();
                lemma_sixteen_to_grows((i + 1) as nat, 32);
            }
            match digit_value(text.get_char(i)) {
                None => {
                    proof {
                        assert(value_of(longer) is None);
                        lemma_bad_digit_spoils(text@, i + 1);
                    }
                    return None;
                },
                Some(digit) => {
                    value = value * 16 + digit as u128;
                },
            }
            i += 1;
        }
        assert(text@.take(32) =~= text@);
        Some(SessionToken { value })
    }
}

proof fn lemma_sixteen_to_grows(fewer: nat, more: nat)
    requires
        fewer <= more,
    ensures
        0 < sixteen_to(fewer) <= sixteen_to(more),
    decreases more,
{
    if fewer < more {
        lemma_sixteen_to_grows(fewer, (more - 1) as nat);
    } else if more > 0 {
        lemma_sixteen_to_grows((fewer - 1) as nat, (more - 1) as nat);
    }
}

/// A string with a head that stands for no number stands for no number.
proof fn lemma_bad_digit_spoils(text: Seq<char>, head: int)
    requires
        0 <= head <= text.len(),
        value_of(text.take(head)) is None,
    ensures
        value_of(text) is None,
    decreases text.len() - head,
{
    if head < text.len() {
        let longer = text.take(head + 1);
        assert(longer.drop_last() =~= text.take(head));
        lemma_bad_digit_spoils(text, head + 1);
    } else {
        assert(text.take(head) =~= text);
    }
}

} // verus!
