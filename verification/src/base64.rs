//! Base64 with the standard alphabet and padding.

use crate::text::string_of;
use vstd::prelude::*;

verus! {

/// The character that stands for a six-bit number.
pub open spec fn digit(n: int) -> char {
    if n < 26 {
        ((n + 65) as u8) as char
    } else if n < 52 {
        ((n + 71) as u8) as char
    } else if n < 62 {
        ((n - 4) as u8) as char
    } else if n == 62 {
        '+'
    } else {
        '/'
    }
}

/// The Base64 text of a sequence of bytes: four characters for each three
/// bytes, the last group filled up with `=`.
pub open spec fn base64(bytes: Seq<u8>) -> Seq<char>
    decreases bytes.len(),
{
    if bytes.len() == 0 {
        Seq::empty()
    } else if bytes.len() == 1 {
        let a = bytes[0] as int;
        seq![digit(a / 4), digit((a % 4) * 16), '=', '=']
    } else if bytes.len() == 2 {
        let a = bytes[0] as int;
        let b = bytes[1] as int;
        seq![digit(a / 4), digit((a % 4) * 16 + b / 16), digit((b % 16) * 4), '=']
    } else {
        let a = bytes[0] as int;
        let b = bytes[1] as int;
        let c = bytes[2] as int;
        seq![
            digit(a / 4),
            digit((a % 4) * 16 + b / 16),
            digit((b % 16) * 4 + c / 64),
            digit(c % 64),
        ] + base64(bytes.skip(3))
    }
}

fn digit_of(n: u8) -> (c: char)
    requires
        n < 64,
    ensures
        c == digit(n as int),
{
    if n < 26 {
        (n + 65) as char
    } else if n < 52 {
        (n + 71) as char
    } else if n < 62 {
        (n - 4) as char
    } else if n == 62 {
        '+'
    } else {
        '/'
    }
}

/// Encodes `bytes` in Base64.
pub fn encode(bytes: &Vec<u8>) -> (text: String)
    ensures
        text@ == base64(bytes@),
{
    let mut out: Vec<char> = Vec::new();
    let mut i: usize = 0;
    assert(bytes@.skip(0) =~= bytes@);
    while bytes.len() - i >= 3
        invariant
            i <= bytes.len(),
            out@ + base64(bytes@.skip(i as int)) == base64(bytes@),
        decreases bytes.len() - i,
    {
        let a = bytes[i];
        let b = bytes[i + 1];
        let c = bytes[i + 2];
        let ghost rest = bytes@.skip(i as int);
        let ghost before = out@;
        out.push(digit_of(a / 4));
        out.push(digit_of((a % 4) * 16 + b / 16));
        out.push(digit_of((b % 16) * 4 + c / 64));
        out.push(digit_of(c % 64));
        proof {
            assert(rest[0] == a && rest[1] == b && rest[2] == c);
            assert(rest.skip(3) =~= bytes@.skip(i + 3));
            assert(out@ + base64(bytes@.skip(i + 3)) =~= before + base64(rest));
        }
        i += 3;
    }
    let ghost rest = bytes@.skip(i as int);
    let ghost before = out@;
    if bytes.len() - i == 1 {
        let a = bytes[i];
        out.push(digit_of(a / 4));
        out.push(digit_of((a % 4) * 16));
        out.push('=');
        out.push('=');
        proof {
            assert(rest[0] == a);
            assert(out@ =~= before + base64(rest));
        }
    } else if bytes.len() - i == 2 {
        let a = bytes[i];
        let b = bytes[i + 1];
        out.push(digit_of(a / 4));
        out.push(digit_of((a % 4) * 16 + b / 16));
        out.push(digit_of((b % 16) * 4));
        out.push('=');
        proof {
            assert(rest[0] == a && rest[1] == b);
            assert(out@ =~= before + base64(rest));
        }
    } else {
        assert(out@ =~= before + base64(rest));
    }
    string_of(&out)
}

} // verus!
