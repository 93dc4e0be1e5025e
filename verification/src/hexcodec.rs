//! Hexadecimal text to bytes and back: a payload given on the command line
//! as a hex string becomes the raw bytes of one frame, and bytes can be
//! rendered back as lowercase hex text.
use vstd::arithmetic::div_mod::lemma_fundamental_div_mod_converse;
use vstd::prelude::*;
use vstd::string::{StrSliceExecFns, StringExecFns};

verus! {

/// Why a hex string failed to decode: its length is odd, or it holds a
/// character that is no hexadecimal digit.
#[derive(Clone, Copy, Debug, PartialEq, Eq, Structural)]
pub enum HexDecodeError {
    OddLength,
    InvalidChar,
}

/// The character is a hexadecimal digit, in either letter case.
pub open spec fn is_hex_digit(c: char) -> bool {
    ||| 48 <= c as u32 && c as u32 <= 57
    ||| 97 <= c as u32 && c as u32 <= 102
    ||| 65 <= c as u32 && c as u32 <= 70
}

/// The value of one hexadecimal digit.
pub open spec fn hex_digit_value(c: char) -> u8
    recommends
        is_hex_digit(c),
{
    let v = c as u32;
    if 48 <= v && v <= 57 {
        (v - 48) as u8
    } else if 97 <= v && v <= 102 {
        (v - 87) as u8
    } else {
        (v - 55) as u8
    }
}

/// The lowercase hexadecimal digit for a value below sixteen.
pub open spec fn hex_char_of_nibble(v: u8) -> char
    recommends
        v < 16,
{
    if v < 10 {
        ((v + 48) as u8) as char
    } else {
        ((v + 87) as u8) as char
    }
}

/// The string decodes: its length is even and every character is a
/// hexadecimal digit.
pub open spec fn valid_hex(s: Seq<char>) -> bool {
    &&& s.len() % 2 == 0
    &&& forall|j: int| 0 <= j < s.len() ==> is_hex_digit(#[trigger] s[j])
}

/// The bytes a valid hex string stands for: each pair of digits is one byte,
/// high nibble first.
pub open spec fn decoded_bytes(s: Seq<char>) -> Seq<u8>
    recommends
        valid_hex(s),
{
    Seq::new(
        s.len() / 2,
        |j: int| (hex_digit_value(s[2 * j]) * 16 + hex_digit_value(s[2 * j + 1])) as u8,
    )
}

/// The lowercase hex text for a byte sequence: two digits per byte, high
/// nibble first.
pub open spec fn encoded_hex(b: Seq<u8>) -> Seq<char> {
    Seq::new(
        2 * b.len(),
        |i: int|
            if i % 2 == 0 {
                hex_char_of_nibble((b[i / 2] / 16) as u8)
            } else {
                hex_char_of_nibble((b[i / 2] % 16) as u8)
            },
    )
}

/// The same text with every uppercase hex letter lowered.
pub open spec fn lower_hex(s: Seq<char>) -> Seq<char> {
    Seq::new(s.len(), |i: int| lower_hex_char(s[i]))
}

/// The character with an uppercase hex letter lowered; anything else is kept.
pub open spec fn lower_hex_char(c: char) -> char {
    if 65 <= c as u32 && c as u32 <= 70 {
        ((c as u32 + 32) as u8) as char
    } else {
        c
    }
}

/// The value of one hexadecimal digit character, or nothing for any other
/// character.
fn hex_digit_to_value(c: char) -> (r: Option<u8>)
    ensures
        is_hex_digit(c) ==> (r matches Some(v) && v == hex_digit_value(c) && v < 16),
        !is_hex_digit(c) ==> r is None,
{
    let v = c as u32;
    if 48 <= v && v <= 57 {
        Some((v - 48) as u8)
    } else if 97 <= v && v <= 102 {
        Some((v - 87) as u8)
    } else if 65 <= v && v <= 70 {
        Some((v - 55) as u8)
    } else {
        None
    }
}

/// Decodes a hex string to the exact byte sequence it stands for. A string of
/// odd length is rejected, as is one holding any character that is not a
/// hexadecimal digit; only a valid string decodes, and then to
/// [`decoded_bytes`] of it.
pub fn decode_hex(s: &str) -> (r: Result<Vec<u8>, HexDecodeError>)
    ensures
        valid_hex(s@) ==> (r matches Ok(b) && b@ == decoded_bytes(s@)),
        s@.len() % 2 != 0 ==> r == Err::<Vec<u8>, HexDecodeError>(HexDecodeError::OddLength),
        s@.len() % 2 == 0 && !valid_hex(s@) ==> r == Err::<Vec<u8>, HexDecodeError>(
            HexDecodeError::InvalidChar,
        ),
{
    let n = s.unicode_len();
    if n % 2 != 0 {
        return Err(HexDecodeError::OddLength);
    }
    let mut out: Vec<u8> = Vec::new();
    let mut i: usize = 0;
    while i < n
        invariant
            n == s@.len(),
            n % 2 == 0,
            i % 2 == 0,
            i <= n,
            forall|j: int| 0 <= j < i ==> is_hex_digit(#[trigger] s@[j]),
            out@.len() == i / 2,
            forall|j: int|
                0 <= j < out@.len() ==> #[trigger] out@[j] == (hex_digit_value(s@[2 * j]) * 16
                    + hex_digit_value(s@[2 * j + 1])) as u8,
        decreases n - i,
    {
        let hi = match hex_digit_to_value(s.get_char(i)) {
            Some(v) => v,
            None => {
                return Err(HexDecodeError::InvalidChar);
            },
        };
        let lo = match hex_digit_to_value(s.get_char(i + 1)) {
            Some(v) => v,
            None => {
                return Err(HexDecodeError::InvalidChar);
            },
        };
        out.push(hi * 16 + lo);
        i = i + 2;
    }
    proof {
        assert(valid_hex(s@));
        assert(out@ =~= decoded_bytes(s@));
    }
    Ok(out)
}

/// The one-character string holding the lowercase hex digit for a value
/// below sixteen.
fn nibble_str(v: u8) -> (r: &'static str)
    requires
        v < 16,
    ensures
        r@.len() == 1,
        r@[0] == hex_char_of_nibble(v),
{
    let r: &'static str = match v {
        0 => "0",
        1 => "1",
        2 => "2",
        3 => "3",
        4 => "4",
        5 => "5",
        6 => "6",
        7 => "7",
        8 => "8",
        9 => "9",
        10 => "a",
        11 => "b",
        12 => "c",
        13 => "d",
        14 => "e",
        _ => "f",
    };
    proof {
        reveal_strlit("0");
        reveal_strlit("1");
        reveal_strlit("2");
        reveal_strlit("3");
        reveal_strlit("4");
        reveal_strlit("5");
        reveal_strlit("6");
        reveal_strlit("7");
        reveal_strlit("8");
        reveal_strlit("9");
        reveal_strlit("a");
        reveal_strlit("b");
        reveal_strlit("c");
        reveal_strlit("d");
        reveal_strlit("e");
        reveal_strlit("f");
    }
    r
}

/// Encodes bytes as lowercase hex text: exactly [`encoded_hex`] of them.
pub fn encode_hex(b: &Vec<u8>) -> (r: String)
    ensures
        r@ == encoded_hex(b@),
{
    let mut out = String::new();
    let mut i: usize = 0;
    while i < b.len()
        invariant
            i <= b@.len(),
            out@ == encoded_hex(b@).subrange(0, 2 * i as int),
        decreases b@.len() - i,
    {
        let byte = b[i];
        out.append(nibble_str(byte / 16));
        out.append(nibble_str(byte % 16));
        proof {
            assert(out@ =~= encoded_hex(b@).subrange(0, 2 * (i + 1)));
        }
        i = i + 1;
    }
    proof {
        assert(encoded_hex(b@).subrange(0, 2 * b@.len() as int) =~= encoded_hex(b@));
    }
    out
}

/// A packed byte splits back into its two nibbles.
proof fn lemma_nibble_pack(a: u8, b: u8)
    requires
        a < 16,
        b < 16,
    ensures
        (a * 16 + b) as u8 / 16 == a,
        (a * 16 + b) as u8 % 16 == b,
{
    lemma_fundamental_div_mod_converse((a * 16 + b) as int, 16, a as int, b as int);
}

/// Encoding the value of a hex digit gives that digit back, lowered.
proof fn lemma_digit_round_trip(c: char)
    requires
        is_hex_digit(c),
    ensures
        hex_char_of_nibble(hex_digit_value(c)) == lower_hex_char(c),
{
}

/// Law: the round trip is exact up to letter case. Decoding a valid hex
/// string and re-encoding the bytes yields the original string with its
/// uppercase hex letters lowered.
pub proof fn lemma_hex_round_trip(s: Seq<char>)
    requires
        valid_hex(s),
    ensures
        encoded_hex(decoded_bytes(s)) == lower_hex(s),
{
    let e = encoded_hex(decoded_bytes(s));
    assert forall|i: int| 0 <= i < s.len() implies e[i] == lower_hex_char(s[i]) by {
        let j = i / 2;
        assert(is_hex_digit(s[2 * j]) && is_hex_digit(s[2 * j + 1]));
        let a = hex_digit_value(s[2 * j]);
        let b = hex_digit_value(s[2 * j + 1]);
        lemma_nibble_pack(a, b);
        if i % 2 == 0 {
            assert(2 * j == i);
            lemma_digit_round_trip(s[i]);
        } else {
            assert(2 * j + 1 == i);
            lemma_digit_round_trip(s[i]);
        }
    }
    assert(e =~= lower_hex(s));
}

} // verus!
