//! Lowercase hexadecimal encoding of unsigned values, zero-padded on the
//! left to a minimum width.  Identifiers and version markers are such
//! encodings of a nanosecond timestamp.

use vstd::prelude::*;
use vstd::string::StringExecFns;

verus! {

/// The lowercase hexadecimal digit character for a value in `0..16`.
pub open spec fn hex_char(d: int) -> char {
    if d == 0 {
        '0'
    } else if d == 1 {
        '1'
    } else if d == 2 {
        '2'
    } else if d == 3 {
        '3'
    } else if d == 4 {
        '4'
    } else if d == 5 {
        '5'
    } else if d == 6 {
        '6'
    } else if d == 7 {
        '7'
    } else if d == 8 {
        '8'
    } else if d == 9 {
        '9'
    } else if d == 10 {
        'a'
    } else if d == 11 {
        'b'
    } else if d == 12 {
        'c'
    } else if d == 13 {
        'd'
    } else if d == 14 {
        'e'
    } else {
        'f'
    }
}

/// The lowercase hexadecimal encoding of `v`: most significant digit first,
/// zero-padded on the left to at least `width` digits, longer when `v` needs
/// more digits, and never empty.
pub open spec fn hex_seq(v: nat, width: nat) -> Seq<char>
    decreases v, width,
{
    if v < 16 && width <= 1 {
        seq![hex_char(v as int)]
    } else {
        hex_seq(v / 16, if width == 0 { 0 } else { (width - 1) as nat }) + seq![
            hex_char((v % 16) as int),
        ]
    }
}

/// How many hexadecimal digits `v` needs without padding.
pub open spec fn hex_digits(v: nat) -> nat
    decreases v,
{
    if v < 16 {
        1
    } else {
        1 + hex_digits(v / 16)
    }
}

/// The encoding is exactly as long as the wider of the requested width and
/// the number of digits the value needs.
pub proof fn lemma_hex_seq_len(v: nat, width: nat)
    ensures
        hex_seq(v, width).len() == if hex_digits(v) > width {
            hex_digits(v)
        } else {
            width
        },
        hex_seq(v, width).len() >= 1,
    decreases v, width,
{
    if v < 16 && width <= 1 {
    } else {
        let w2: nat = if width == 0 { 0 } else { (width - 1) as nat };
        lemma_hex_seq_len(v / 16, w2);
    }
}

/// The one-character string holding the hexadecimal digit for `d`.
pub fn hex_digit(d: u8) -> (r: &'static str)
    requires
        d < 16,
    ensures
        r@ == seq![hex_char(d as int)],
{
    proof {
        reveal_strlit("0");
        reveal_strlit("1");
        reveal_strlit("2");
        reveal_strlit("3");
        reveal_strlit("4");
        reveal_strlit("5");
        reveal_strlit("6");
        reveal_strlit("7");
        reveal_strlit("8");
        reveal_strlit("9");
        reveal_strlit("a");
        reveal_strlit("b");
        reveal_strlit("c");
        reveal_strlit("d");
        reveal_strlit("e");
        reveal_strlit("f");
    }
    let r: &'static str = match d {
        0 => "0",
        1 => "1",
        2 => "2",
        3 => "3",
        4 => "4",
        5 => "5",
        6 => "6",
        7 => "7",
        8 => "8",
        9 => "9",
        10 => "a",
        11 => "b",
        12 => "c",
        13 => "d",
        14 => "e",
        _ => "f",
    };
    proof {
        assert(r@ =~= seq![hex_char(d as int)]);
    }
    r
}

/// Encodes `v` in lowercase hexadecimal, zero-padded to at least `width`
/// digits.
pub fn hex_encode(v: u128, width: usize) -> (s: String)
    ensures
        s@ == hex_seq(v as nat, width as nat),
    decreases v, width,
{
    if v < 16 && width <= 1 {
        let s = String::new().concat(hex_digit(v as u8));
        proof {
            assert(s@ =~= hex_seq(v as nat, width as nat));
        }
        s
    } else {
        let w2: usize = if width == 0 { 0 } else { width - 1 };
        let sub = hex_encode(v / 16, w2);
        let s = sub.concat(hex_digit((v % 16) as u8));
        proof {
            assert(s@ =~= hex_seq(v as nat, width as nat));
        }
        s
    }
}

} // verus!
