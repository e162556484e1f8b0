//! Numbers and bytes as text: the hexadecimal dump that the editor shows and
//! the decimal numbers of the trace messages.

use vstd::prelude::*;
use vstd::string::*;

verus! {

/// The digit for a value below 16: a decimal digit, or an upper-case letter
/// from A to F.
pub open spec fn digit_char(value: int) -> char {
    if value == 0 {
        '0'
    } else if value == 1 {
        '1'
    } else if value == 2 {
        '2'
    } else if value == 3 {
        '3'
    } else if value == 4 {
        '4'
    } else if value == 5 {
        '5'
    } else if value == 6 {
        '6'
    } else if value == 7 {
        '7'
    } else if value == 8 {
        '8'
    } else if value == 9 {
        '9'
    } else if value == 10 {
        'A'
    } else if value == 11 {
        'B'
    } else if value == 12 {
        'C'
    } else if value == 13 {
        'D'
    } else if value == 14 {
        'E'
    } else {
        'F'
    }
}

/// The two hexadecimal digits of a byte, high digit first.
pub open spec fn hex_pair(byte: u8) -> Seq<char> {
    seq![digit_char(byte as int / 16), digit_char(byte as int % 16)]
}

/// The dump of a byte string: two upper-case hexadecimal digits for each
/// byte, and one space between neighbours.
pub open spec fn hex_text(bytes: Seq<u8>) -> Seq<char>
    decreases bytes.len(),
{
    if bytes.len() == 0 {
        Seq::empty()
    } else if bytes.len() == 1 {
        hex_pair(bytes[0])
    } else {
        hex_text(bytes.drop_last()) + seq![' '] + hex_pair(bytes.last())
    }
}

/// The decimal numeral of a number, without leading zeros.
pub open spec fn decimal_text(value: nat) -> Seq<char>
    decreases value,
{
    if value < 10 {
        seq![digit_char(value as int)]
    } else {
        decimal_text(value / 10).push(digit_char((value % 10) as int))
    }
}

/// The digit for a value below 16, as a string of one character.
fn digit_str(value: u8) -> (digit: &'static str)
    requires
        value < 16,
    ensures
        digit@ == seq![digit_char(value as int)],
{
    proof {
        reveal_strlit("0");
        reveal_strlit("1");
        reveal_strlit("2");
        reveal_strlit("3");
        reveal_strlit("4");
        reveal_strlit("5");
        reveal_strlit("6");
        reveal_strlit("7");
        reveal_strlit("8");
        reveal_strlit("9");
        reveal_strlit("A");
        reveal_strlit("B");
        reveal_strlit("C");
        reveal_strlit("D");
        reveal_strlit("E");
        reveal_strlit("F");
    }
    let digit: &'static str = if value == 0 {
        "0"
    } else if value == 1 {
        "1"
    } else if value == 2 {
        "2"
    } else if value == 3 {
        "3"
    } else if value == 4 {
        "4"
    } else if value == 5 {
        "5"
    } else if value == 6 {
        "6"
    } else if value == 7 {
        "7"
    } else if value == 8 {
        "8"
    } else if value == 9 {
        "9"
    } else if value == 10 {
        "A"
    } else if value == 11 {
        "B"
    } else if value == 12 {
        "C"
    } else if value == 13 {
        "D"
    } else if value == 14 {
        "E"
    } else {
        "F"
    };
    assert(digit@ =~= seq![digit_char(value as int)]);
    digit
}

/// Writes bytes as upper-case hexadecimal pairs with a space between them.
pub fn format_bytes_to_string(file_content: Vec<u8>) -> (text: String)
    ensures
        text@ == hex_text(file_content@),
{
    let mut text: String = String::new();
    let mut i: usize = 0;
    assert(file_content@.take(0) =~= Seq::<u8>::empty());
    while i < file_content.len()
        invariant
            i <= file_content.len(),
            text@ == hex_text(file_content@.take(i as int)),
        decreases file_content.len() - i,
    {
        let byte: u8 = file_content[i];
        proof {
            let done = file_content@.take(i as int);
            let next = file_content@.take(i + 1);
            assert(next.drop_last() =~= done);
            assert(next.last() == byte);
            reveal_strlit(" ");
            assert(" "@ =~= seq![' ']);
        }
        if i > 0 {
            text.append(" ");
        }
        text.append(digit_str(byte / 16));
        text.append(digit_str(byte % 16));
        i += 1;
        assert(text@ =~= hex_text(file_content@.take(i as int)));
    }
    assert(file_content@.take(file_content@.len() as int) =~= file_content@);
    text
}

/// Writes a number in decimal.
pub fn decimal_string(value: u128) -> (text: String)
    ensures
        text@ == decimal_text(value as nat),
    decreases value,
{
    if value < 10 {
        digit_str(value as u8).to_owned()
    } else {
        let mut text: String = decimal_string(value / 10);
        text.append(digit_str((value % 10) as u8));
        assert(text@ =~= decimal_text(value as nat));
        text
    }
}

} // verus!
