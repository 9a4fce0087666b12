//! Colors as eight hexadecimal digits: `rrggbbaa`.

use vstd::prelude::*;

verus! {

/// The value of a hexadecimal digit (either case), or -1 for any other character.
pub open spec fn hex_value(c: char) -> int {
    let n = c as u32;
    if 48 <= n && n <= 57 {
        n - 48
    } else if 97 <= n && n <= 102 {
        n - 87
    } else if 65 <= n && n <= 70 {
        n - 55
    } else {
        -1
    }
}

pub open spec fn is_hex_digit(c: char) -> bool {
    hex_value(c) >= 0
}

/// Text that names a color: exactly eight hexadecimal digits.
pub open spec fn is_color_text(s: Seq<char>) -> bool {
    &&& s.len() == 8
    &&& forall|i: int| 0 <= i < 8 ==> is_hex_digit(#[trigger] s[i])
}

/// The byte written by the digit pair at positions `2 * j` and `2 * j + 1`.
pub open spec fn pair_value(s: Seq<char>, j: int) -> u8 {
    (16 * hex_value(s[2 * j]) + hex_value(s[2 * j + 1])) as u8
}

/// The four channels named by color text, in the order red, green, blue, alpha.
pub open spec fn color_bytes(s: Seq<char>) -> Seq<u8> {
    seq![pair_value(s, 0), pair_value(s, 1), pair_value(s, 2), pair_value(s, 3)]
}

/// The lowercase hexadecimal digit for a value below sixteen.
pub open spec fn lower_hex_digit(n: u8) -> char {
    if n < 10 {
        ((48 + n) as u8) as char
    } else {
        ((87 + n) as u8) as char
    }
}

/// The two lowercase digits of a byte, most significant first.
pub open spec fn byte_text(b: u8) -> Seq<char> {
    seq![lower_hex_digit(b / 16), lower_hex_digit(b % 16)]
}

/// The text of a color: each channel as two lowercase digits, red first.
pub open spec fn color_text(r: u8, g: u8, b: u8, a: u8) -> Seq<char> {
    byte_text(r) + byte_text(g) + byte_text(b) + byte_text(a)
}

/// Why color text could not be read.
#[derive(Clone, Copy, Debug, PartialEq, Eq, Structural)]
pub enum ColorError {
    /// The text is not exactly eight hexadecimal digits.
    Malformed,
}

/// hex's error type, which `hex_to_rgba` hands back on failure.
#[verifier::external_type_specification]
#[verifier::external_body]
pub struct ExFromHexError(hex::FromHexError);

/// Relies on hex's `FromHex` for `[u8; 4]` (through `decode_to_slice`): it
/// succeeds exactly on eight digits of either case, and reads each pair of
/// digits as one byte, high digit first.
#[verifier::external_body]
fn hex_to_rgba(s: &str) -> (r: Result<[u8; 4], hex::FromHexError>)
    ensures
        r.is_ok() == is_color_text(s@),
        r matches Ok(b) ==> b@ == color_bytes(s@),
{
    <[u8; 4] as hex::FromHex>::from_hex(s)
}

/// Relies on `String::push`: appends one character.
pub assume_specification[ String::push ](s: &mut String, ch: char)
    ensures
        final(s)@ == old(s)@.push(ch),
;

/// Reads color text into its four channels, red first.
pub fn decode(s: &str) -> (r: Result<[u8; 4], ColorError>)
    ensures
        r.is_ok() == is_color_text(s@),
        r matches Ok(b) ==> b@ == color_bytes(s@),
        r matches Err(e) ==> e == ColorError::Malformed,
{
    match hex_to_rgba(s) {
        Ok(b) => Ok(b),
        Err(_) => Err(ColorError::Malformed),
    }
}

fn hex_digit(n: u8) -> (c: char)
    requires
        n < 16,
    ensures
        c == lower_hex_digit(n),
{
    if n < 10 {
        (48 + n) as char
    } else {
        (87 + n) as char
    }
}

/// Writes four channels as color text: two lowercase digits each, red first.
pub fn encode(r: u8, g: u8, b: u8, a: u8) -> (s: String)
    ensures
        s@ == color_text(r, g, b, a),
{
    let mut s = String::new();
    s.push(hex_digit(r / 16));
    s.push(hex_digit(r % 16));
    s.push(hex_digit(g / 16));
    s.push(hex_digit(g % 16));
    s.push(hex_digit(b / 16));
    s.push(hex_digit(b % 16));
    s.push(hex_digit(a / 16));
    s.push(hex_digit(a % 16));
    assert(s@ =~= color_text(r, g, b, a));
    s
}

proof fn lemma_digit_value(n: u8)
    requires
        n < 16,
    ensures
        hex_value(lower_hex_digit(n)) == n as int,
{
}

proof fn lemma_byte_text(b: u8)
    ensures
        is_hex_digit(byte_text(b)[0]),
        is_hex_digit(byte_text(b)[1]),
        16 * hex_value(byte_text(b)[0]) + hex_value(byte_text(b)[1]) == b as int,
{
    lemma_digit_value(b / 16);
    lemma_digit_value(b % 16);
}

/// Every color survives being written as text and read back.
pub proof fn lemma_round_trip(r: u8, g: u8, b: u8, a: u8)
    ensures
        is_color_text(color_text(r, g, b, a)),
        color_bytes(color_text(r, g, b, a)) == seq![r, g, b, a],
{
    let s = color_text(r, g, b, a);
    lemma_byte_text(r);
    lemma_byte_text(g);
    lemma_byte_text(b);
    lemma_byte_text(a);
    assert(s[0] == byte_text(r)[0] && s[1] == byte_text(r)[1]);
    assert(s[2] == byte_text(g)[0] && s[3] == byte_text(g)[1]);
    assert(s[4] == byte_text(b)[0] && s[5] == byte_text(b)[1]);
    assert(s[6] == byte_text(a)[0] && s[7] == byte_text(a)[1]);
    assert(color_bytes(s) =~= seq![r, g, b, a]);
}

} // verus!
