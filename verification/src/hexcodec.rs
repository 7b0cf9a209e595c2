//! Hexadecimal encoding and decoding of byte strings, verified against an
//! exact specification. Encoding always produces lowercase digits; decoding
//! accepts both cases and fails on odd length or any non-hex character.

use vstd::prelude::*;
use crate::util::string_from_ascii;

verus! {

/// ASCII code of the lowercase hex digit for a nibble.
pub open spec fn hex_digit_byte(n: u8) -> u8 {
    if n < 10 {
        (48 + n) as u8
    } else {
        (87 + n) as u8
    }
}

/// The lowercase hex encoding of a byte string, as ASCII bytes.
pub open spec fn hex_bytes_of(s: Seq<u8>) -> Seq<u8> {
    Seq::new(s.len() * 2, |i: int| if i % 2 == 0 {
        hex_digit_byte((s[i / 2] / 16) as u8)
    } else {
        hex_digit_byte((s[i / 2] % 16) as u8)
    })
}

/// The lowercase hex encoding of a byte string, as text.
pub open spec fn hex_of(s: Seq<u8>) -> Seq<char> {
    hex_bytes_of(s).map_values(|b: u8| b as char)
}

/// The nibble value of an ASCII hex digit, or 255 if it is not one.
pub open spec fn hex_val(b: u8) -> u8 {
    if 48 <= b && b <= 57 {
        (b - 48) as u8
    } else if 97 <= b && b <= 102 {
        (b - 87) as u8
    } else if 65 <= b && b <= 70 {
        (b - 55) as u8
    } else {
        255
    }
}

/// Whether a byte is an ASCII hex digit, either case.
pub open spec fn is_hex_digit(b: u8) -> bool {
    hex_val(b) < 16
}

/// Whether a character sequence is a well-formed hex string.
pub open spec fn is_hex_string(s: Seq<char>) -> bool {
    &&& s.len() % 2 == 0
    &&& forall|i: int| 0 <= i < s.len() ==> ('\0' <= #[trigger] s[i] <= '\u{7f}' && is_hex_digit(s[i] as u8))
}

/// The bytes denoted by a well-formed hex string.
pub open spec fn hex_decoded(s: Seq<char>) -> Seq<u8> {
    Seq::new((s.len() / 2) as nat, |i: int|
        (hex_val(s[2 * i] as u8) * 16 + hex_val(s[2 * i + 1] as u8)) as u8)
}

fn hex_digit(n: u8) -> (r: u8)
    requires
        n < 16,
    ensures
        r == hex_digit_byte(n),
{
    if n < 10 {
        48 + n
    } else {
        87 + n
    }
}

/// Encode bytes as lowercase hex, returned as ASCII bytes.
pub fn hex_encode_bytes(data: &Vec<u8>) -> (r: Vec<u8>)
    ensures
        r@ == hex_bytes_of(data@),
{
    let mut out: Vec<u8> = Vec::new();
    let mut i: usize = 0;
    while i < data.len()
        invariant
            i <= data@.len(),
            out@ == hex_bytes_of(data@.take(i as int)),
        decreases data@.len() - i,
    {
        let b = data[i];
        out.push(hex_digit(b / 16));
        out.push(hex_digit(b % 16));
        i = i + 1;
        proof {
            assert(out@ =~= hex_bytes_of(data@.take(i as int)));
        }
    }
    proof {
        assert(data@.take(data@.len() as int) =~= data@);
    }
    out
}

/// Encode bytes as a lowercase hex string.
pub fn hex_encode(data: &Vec<u8>) -> (r: String)
    ensures
        r@ == hex_of(data@),
{
    let bytes = hex_encode_bytes(data);
    proof {
        assert forall|i: int| 0 <= i < bytes@.len() implies (#[trigger] bytes@[i]) < 128 by {
            assert(bytes@[i] == hex_bytes_of(data@)[i]);
        }
    }
    string_from_ascii(bytes)
}

/// Decode a hex string into bytes. Fails exactly on odd length or any
/// character that is not a hex digit.
pub fn hex_decode(s: &str) -> (r: Result<Vec<u8>, ()>)
    ensures
        r is Ok <==> is_hex_string(s@),
        r matches Ok(v) ==> v@ == hex_decoded(s@) && v@.len() * 2 == s@.len(),
{
    if !s.is_ascii() {
        proof {
            let j = choose|j: int| 0 <= j < s@.len() && !('\0' <= #[trigger] s@[j] <= '\u{7f}');
            assert(!('\0' <= s@[j] <= '\u{7f}' && is_hex_digit(s@[j] as u8)));
        }
        return Err(());
    }
    let bytes = s.as_bytes_vec();
    proof {
        vstd::string::is_ascii_spec_bytes(s);
        assert(bytes@.len() == s@.len());
        assert(forall|i: int| 0 <= i < s@.len() ==> (#[trigger] bytes@[i]) == s@[i] as u8);
        assert(forall|i: int| 0 <= i < s@.len() ==> '\0' <= #[trigger] s@[i] <= '\u{7f}');
    }
    let n = bytes.len();
    if n % 2 != 0 {
        return Err(());
    }
    let mut out: Vec<u8> = Vec::new();
    let mut i: usize = 0;
    while i < n
        invariant
            n == bytes@.len(),
            n == s@.len(),
            n % 2 == 0,
            i <= n,
            i % 2 == 0,
            forall|j: int| 0 <= j < s@.len() ==> '\0' <= #[trigger] s@[j] <= '\u{7f}',
            forall|j: int| 0 <= j < s@.len() ==> (#[trigger] bytes@[j]) == s@[j] as u8,
            forall|j: int| 0 <= j < i ==> is_hex_digit(#[trigger] bytes@[j]),
            out@.len() == i / 2,
            forall|j: int| 0 <= j < i / 2 ==>
                (#[trigger] out@[j]) == (hex_val(s@[2 * j] as u8) * 16 + hex_val(s@[2 * j + 1] as u8)) as u8,
        decreases n - i,
    {
        let hi = hex_value(bytes[i]);
        let lo = hex_value(bytes[i + 1]);
        if hi >= 16 || lo >= 16 {
            proof {
                if hi >= 16 {
                    assert(!is_hex_digit(s@[i as int] as u8));
                } else {
                    assert(!is_hex_digit(s@[i as int + 1] as u8));
                }
            }
            return Err(());
        }
        out.push(hi * 16 + lo);
        i = i + 2;
    }
    proof {
        assert(out@ =~= hex_decoded(s@));
        assert forall|j: int| 0 <= j < s@.len() implies
            ('\0' <= #[trigger] s@[j] <= '\u{7f}' && is_hex_digit(s@[j] as u8)) by {
            assert(bytes@[j] == s@[j] as u8);
            assert(is_hex_digit(bytes@[j]));
        }
    }
    Ok(out)
}

fn hex_value(b: u8) -> (r: u8)
    ensures
        r == hex_val(b),
{
    if 48 <= b && b <= 57 {
        b - 48
    } else if 97 <= b && b <= 102 {
        b - 87
    } else if 65 <= b && b <= 70 {
        b - 55
    } else {
        255
    }
}

/// Round trip: decoding an encoded byte string gives the bytes back.
pub proof fn lemma_hex_round_trip(data: Seq<u8>)
    ensures
        is_hex_string(hex_of(data)),
        hex_decoded(hex_of(data)) =~= data,
{
    assert forall|i: int| 0 <= i < hex_of(data).len() implies
        '\0' <= #[trigger] hex_of(data)[i] <= '\u{7f}' && is_hex_digit(hex_of(data)[i] as u8) by {
        assert(hex_of(data)[i] == hex_bytes_of(data)[i] as char);
    }
    assert forall|i: int| 0 <= i < data.len() implies #[trigger] hex_decoded(hex_of(data))[i] == data[i] by {
        assert(hex_of(data)[2 * i] == hex_bytes_of(data)[2 * i] as char);
        assert(hex_of(data)[2 * i + 1] == hex_bytes_of(data)[2 * i + 1] as char);
    }
}

} // verus!
