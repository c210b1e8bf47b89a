//! Payload bytes as text: upper-case hex pairs with a space between them,
//! as in `55 AA 1B 00`.

use vstd::prelude::*;
use vstd::string::StrSliceExecFns;
use vstd::string::StringExecFns;

verus! {

/// The sixteen lower-case hex digits, by value.
pub open spec fn lower_digits() -> Seq<char> {
    seq!['0', '1', '2', '3', '4', '5', '6', '7', '8', '9', 'a', 'b', 'c', 'd', 'e', 'f']
}

/// Lower-case hex of `bytes`: two digits for each byte, the high half first.
pub open spec fn hex_text(bytes: Seq<u8>) -> Seq<char> {
    Seq::new(
        2 * bytes.len(),
        |i: int|
            if i % 2 == 0 {
                lower_digits()[bytes[i / 2] as int / 16]
            } else {
                lower_digits()[bytes[i / 2] as int % 16]
            },
    )
}

/// The upper-case form of a hex digit; any other character is itself.
pub open spec fn upper_of(c: char) -> char {
    if c == 'a' {
        'A'
    } else if c == 'b' {
        'B'
    } else if c == 'c' {
        'C'
    } else if c == 'd' {
        'D'
    } else if c == 'e' {
        'E'
    } else if c == 'f' {
        'F'
    } else {
        c
    }
}

/// One byte as two upper-case hex digits.
pub open spec fn hex_pair(b: u8) -> Seq<char> {
    seq![upper_of(lower_digits()[b as int / 16]), upper_of(lower_digits()[b as int % 16])]
}

/// The bytes as upper-case hex pairs, one space between two pairs.
pub open spec fn spaced_hex(bytes: Seq<u8>) -> Seq<char>
    decreases bytes.len(),
{
    if bytes.len() == 0 {
        Seq::empty()
    } else if bytes.len() == 1 {
        hex_pair(bytes[0])
    } else {
        spaced_hex(bytes.drop_last()) + seq![' '] + hex_pair(bytes.last())
    }
}

/// Calls `hex::encode`, which writes each byte as two lower-case hex digits,
/// the high half first.
#[verifier::external_body]
fn hex_encode(bytes: &[u8]) -> (text: String)
    ensures
        text@ == hex_text(bytes@),
{
    hex::encode(bytes)
}

/// A lower-case hex digit in upper case, as text.
fn upper_digit(c: char) -> (text: &'static str)
    requires
        lower_digits().contains(c),
    ensures
        text@ == seq![upper_of(c)],
{
    proof {
        reveal_strlit("0");
        reveal_strlit("1");
        reveal_strlit("2");
        reveal_strlit("3");
        reveal_strlit("4");
        reveal_strlit("5");
        reveal_strlit("6");
        reveal_strlit("7");
        reveal_strlit("8");
        reveal_strlit("9");
        reveal_strlit("A");
        reveal_strlit("B");
        reveal_strlit("C");
        reveal_strlit("D");
        reveal_strlit("E");
        reveal_strlit("F");
        let i = choose|i: int| 0 <= i < 16 && lower_digits()[i] == c;
        assert(lower_digits()[i] == c);
    }
    let text = if c == '0' {
        "0"
    } else if c == '1' {
        "1"
    } else if c == '2' {
        "2"
    } else if c == '3' {
        "3"
    } else if c == '4' {
        "4"
    } else if c == '5' {
        "5"
    } else if c == '6' {
        "6"
    } else if c == '7' {
        "7"
    } else if c == '8' {
        "8"
    } else if c == '9' {
        "9"
    } else if c == 'a' {
        "A"
    } else if c == 'b' {
        "B"
    } else if c == 'c' {
        "C"
    } else if c == 'd' {
        "D"
    } else if c == 'e' {
        "E"
    } else {
        "F"
    };
    proof {
        assert(text@ =~= seq![upper_of(c)]);
    }
    text
}

/// The bytes as a line of upper-case hex pairs, one space between two
/// pairs; the empty line for no bytes.
pub fn hex_pairs(bytes: &[u8]) -> (line: String)
    ensures
        line@ == spaced_hex(bytes@),
{
    let text = hex_encode(bytes);
    let digits = text.as_str().unicode_len();
    let mut line = String::new();
    let mut k: usize = 0;
    while k < bytes.len()
        invariant
            k <= bytes.len(),
            digits == 2 * bytes.len(),
            text@ == hex_text(bytes@),
            line@ == spaced_hex(bytes@.subrange(0, k as int)),
        decreases bytes.len() - k,
    {
        let high = text.as_str().get_char(2 * k);
        let low = text.as_str().get_char(2 * k + 1);
        proof {
            let b = bytes@[k as int];
            assert(high == lower_digits()[b as int / 16]);
            assert(low == lower_digits()[b as int % 16]);
            let now = bytes@.subrange(0, k as int + 1);
            assert(now.drop_last() =~= bytes@.subrange(0, k as int));
            assert(now.last() == b);
            assert(now[0] == bytes@[0]);
        }
        if k > 0 {
            line.append(" ");
            proof {
                reveal_strlit(" ");
                assert(" "@ =~= seq![' ']);
            }
        }
        line.append(upper_digit(high));
        line.append(upper_digit(low));
        proof {
            let b = bytes@[k as int];
            let before = spaced_hex(bytes@.subrange(0, k as int));
            if k > 0 {
                assert(line@ =~= before + seq![' '] + hex_pair(b));
            } else {
                assert(line@ =~= hex_pair(b));
            }
        }
        k += 1;
    }
    proof {
        assert(bytes@.subrange(0, k as int) =~= bytes@);
    }
    line
}

} // verus!
