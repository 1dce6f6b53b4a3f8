//! Base64 with the standard alphabet and `=` padding, as HTTP Basic
//! authentication asks for.

use vstd::prelude::*;
use vstd::string::*;

verus! {

/// The character that stands for a six-bit value.
pub open spec fn sextet_char(v: int) -> char
    recommends
        0 <= v < 64,
{
    if v < 26 {
        (v + 65) as char
    } else if v < 52 {
        (v + 71) as char
    } else if v < 62 {
        (v - 4) as char
    } else if v == 62 {
        '+'
    } else {
        '/'
    }
}

/// The twenty-four bits that three bytes make, first byte on top.
pub open spec fn group_value(b0: u8, b1: u8, b2: u8) -> int {
    b0 * 65536 + b1 * 256 + b2
}

/// The six-bit value at `position` (0 to 3, from the top) of a group.
pub open spec fn sextet_at(group: int, position: int) -> int {
    if position == 0 {
        group / 262144
    } else if position == 1 {
        group / 4096 % 64
    } else if position == 2 {
        group / 64 % 64
    } else {
        group % 64
    }
}

/// The Base64 text of a byte sequence: four characters for every three
/// bytes, and a last group padded with `=` where one or two bytes remain.
pub open spec fn encoded(bytes: Seq<u8>) -> Seq<char>
    decreases bytes.len(),
{
    if bytes.len() == 0 {
        seq![]
    } else if bytes.len() == 1 {
        let g = group_value(bytes[0], 0, 0);
        seq![sextet_char(sextet_at(g, 0)), sextet_char(sextet_at(g, 1)), '=', '=']
    } else if bytes.len() == 2 {
        let g = group_value(bytes[0], bytes[1], 0);
        seq![
            sextet_char(sextet_at(g, 0)),
            sextet_char(sextet_at(g, 1)),
            sextet_char(sextet_at(g, 2)),
            '=',
        ]
    } else {
        let g = group_value(bytes[0], bytes[1], bytes[2]);
        seq![
            sextet_char(sextet_at(g, 0)),
            sextet_char(sextet_at(g, 1)),
            sextet_char(sextet_at(g, 2)),
            sextet_char(sextet_at(g, 3)),
        ] + encoded(bytes.skip(3))
    }
}

/// Returns the character of a six-bit value.
fn sextet(v: u32) -> (c: char)
    requires
        v < 64,
    ensures
        c == sextet_char(v as int),
{
    let v: u8 = v as u8;
    if v < 26 {
        (v + 65) as char
    } else if v < 52 {
        (v + 71) as char
    } else if v < 62 {
        (v - 4) as char
    } else if v == 62 {
        '+'
    } else {
        '/'
    }
}

/// Packs three bytes into the low twenty-four bits of a word.
fn pack(b0: u8, b1: u8, b2: u8) -> (g: u32)
    ensures
        g == group_value(b0, b1, b2),
        g < 0x100_0000,
{
    let g: u32 = ((b0 as u32) << 16) | ((b1 as u32) << 8) | (b2 as u32);
    assert(g == b0 * 65536 + b1 * 256 + b2 && g < 0x100_0000) by (bit_vector)
        requires
            g == ((b0 as u32) << 16) | ((b1 as u32) << 8) | (b2 as u32),
    ;
    g
}

/// Returns the six-bit value at `position` of a packed group.
fn unpack(g: u32, position: u32) -> (v: u32)
    requires
        g < 0x100_0000,
        position < 4,
    ensures
        v == sextet_at(g as int, position as int),
        v < 64,
{
    let shift: u32 = 18 - 6 * position;
    let v: u32 = (g >> shift) & 63;
    assert(v < 64 && (position == 0 ==> v == g / 262144) && (position == 1 ==> v == g / 4096 % 64)
        && (position == 2 ==> v == g / 64 % 64) && (position == 3 ==> v == g % 64))
        by (bit_vector)
        requires
            g < 0x100_0000,
            position < 4,
            shift == 18 - 6 * position,
            v == (g >> shift) & 63,
    ;
    v
}

/// Encodes `bytes` as Base64 text.
pub fn encode(bytes: &[u8]) -> (text: String)
    ensures
        text@ == encoded(bytes@),
{
    let mut out = String::new();
    let mut i: usize = 0;
    assert(bytes@.skip(0) =~= bytes@);
    while bytes.len() - i >= 3
        invariant
            i <= bytes.len(),
            encoded(bytes@) == out@ + encoded(bytes@.skip(i as int)),
        decreases bytes.len() - i,
    {
        let g = pack(bytes[i], bytes[i + 1], bytes[i + 2]);
        out.push(sextet(unpack(g, 0)));
        out.push(sextet(unpack(g, 1)));
        out.push(sextet(unpack(g, 2)));
        out.push(sextet(unpack(g, 3)));
        assert(bytes@.skip(i as int).skip(3) =~= bytes@.skip(i + 3));
        i = i + 3;
    }
    if bytes.len() - i == 1 {
        let g = pack(bytes[i], 0, 0);
        out.push(sextet(unpack(g, 0)));
        out.push(sextet(unpack(g, 1)));
        out.push('=');
        out.push('=');
    } else if bytes.len() - i == 2 {
        let g = pack(bytes[i], bytes[i + 1], 0);
        out.push(sextet(unpack(g, 0)));
        out.push(sextet(unpack(g, 1)));
        out.push(sextet(unpack(g, 2)));
        out.push('=');
    }
    out
}

/// A character of Base64 text: a letter, a digit, `+`, `/`, or the
/// padding sign `=`.
pub open spec fn is_base64_char(c: char) -> bool {
    ||| 'A' <= c <= 'Z'
    ||| 'a' <= c <= 'z'
    ||| '0' <= c <= '9'
    ||| c == '+'
    ||| c == '/'
    ||| c == '='
}

/// Base64 text holds nothing but characters of the alphabet and the
/// padding sign: no white space, no line breaks.
pub proof fn lemma_encoded_characters(bytes: Seq<u8>)
    ensures
        forall|i: int|
            0 <= i < encoded(bytes).len() ==> is_base64_char(#[trigger] encoded(bytes)[i]),
    decreases bytes.len(),
{
    if bytes.len() >= 3 {
        lemma_encoded_characters(bytes.skip(3));
        assert forall|i: int| 0 <= i < encoded(bytes).len() implies is_base64_char(
            #[trigger] encoded(bytes)[i],
        ) by {
            if i >= 4 {
                assert(encoded(bytes)[i] == encoded(bytes.skip(3))[i - 4]);
            }
        }
    }
}

} // verus!
