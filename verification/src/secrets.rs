//! The API key that a build may carry: hex text of the key's bytes, each
//! masked with a byte of a fixed key.

use crate::text::same_text;
use vstd::prelude::*;
use vstd::string::*;
use vstd::utf8::{decode_utf8, is_char_boundary, valid_utf8};

verus! {

/// The mask, sixteen bytes long, repeated over the key.
pub open spec fn mask() -> Seq<u8> {
    seq![
        0x4fu8, 0x72u8, 0x61u8, 0x6eu8, 0x67u8, 0x65u8, 0x50u8, 0x69u8, 0x6eu8, 0x65u8, 0x61u8,
        0x70u8, 0x70u8, 0x6cu8, 0x65u8, 0x21u8,
    ]
}

/// The byte of the mask that covers position `i`.
pub fn mask_byte(i: usize) -> (r: u8)
    ensures
        r == mask()[(i % 16) as int],
{
    let k = i % 16;
    if k == 0 {
        0x4f
    } else if k == 1 {
        0x72
    } else if k == 2 {
        0x61
    } else if k == 3 {
        0x6e
    } else if k == 4 {
        0x67
    } else if k == 5 {
        0x65
    } else if k == 6 {
        0x50
    } else if k == 7 {
        0x69
    } else if k == 8 {
        0x6e
    } else if k == 9 {
        0x65
    } else if k == 10 {
        0x61
    } else if k == 11 {
        0x70
    } else if k == 12 {
        0x70
    } else if k == 13 {
        0x6c
    } else if k == 14 {
        0x65
    } else {
        0x21
    }
}

/// The value of a hexadecimal digit, upper or lower case.
pub open spec fn hex_digit(b: u8) -> Option<u8> {
    if 0x30 <= b && b <= 0x39 {
        Some((b - 0x30) as u8)
    } else if 0x61 <= b && b <= 0x66 {
        Some((b - 0x61 + 10) as u8)
    } else if 0x41 <= b && b <= 0x46 {
        Some((b - 0x41 + 10) as u8)
    } else {
        None
    }
}

/// The byte that two characters of hex text stand for: two digits, or a
/// plus sign and one digit.  Anything else stands for nothing.
pub open spec fn hex_pair(high: u8, low: u8) -> Option<u8> {
    match (hex_digit(high), hex_digit(low)) {
        (Some(h), Some(l)) => Some((h * 16 + l) as u8),
        (None, Some(l)) => if high == 0x2b {
            Some(l)
        } else {
            None
        },
        _ => None,
    }
}

/// The bytes that the first `pairs` pairs of hex text stand for; a pair that
/// stands for nothing is passed over.
pub open spec fn hex_decoded(text: Seq<u8>, pairs: int) -> Seq<u8>
    decreases pairs,
{
    if pairs <= 0 || 2 * pairs > text.len() {
        Seq::empty()
    } else {
        match hex_pair(text[2 * pairs - 2], text[2 * pairs - 1]) {
            Some(b) => hex_decoded(text, pairs - 1).push(b),
            None => hex_decoded(text, pairs - 1),
        }
    }
}

/// The bytes with the mask taken off.
pub open spec fn unmasked(bytes: Seq<u8>) -> Seq<u8> {
    Seq::new(bytes.len(), |i: int| bytes[i] ^ mask()[i % 16])
}

/// The key that hex text holds: its pairs decoded, the mask taken off, read
/// as UTF-8.  There is none where the text decodes to nothing or the bytes
/// are not UTF-8.
pub open spec fn deobfuscated(text: Seq<u8>) -> Option<Seq<char>> {
    let masked = hex_decoded(text, text.len() as int / 2);
    if masked.len() == 0 {
        None
    } else if valid_utf8(unmasked(masked)) {
        Some(decode_utf8(unmasked(masked)))
    } else {
        None
    }
}

/// Hex text that can be cut into pairs of bytes without cutting a character.
pub open spec fn pairable(text: Seq<u8>) -> bool {
    text.len() % 2 == 0 && forall|k: int|
        0 <= k && 2 * k <= text.len() ==> is_char_boundary(text, #[trigger] (2 * k))
}

/// `String::from_utf8`: the text that the bytes encode, where they are
/// valid UTF-8, and nothing where they are not.
#[verifier::external_body]
fn text_from_utf8(bytes: Vec<u8>) -> (r: Option<String>)
    ensures
        match r {
            Some(s) => valid_utf8(bytes@) && s@ == decode_utf8(bytes@),
            None => !valid_utf8(bytes@),
        },
{
    String::from_utf8(bytes).ok()
}

/// The value of a hexadecimal digit.
fn digit_value(b: u8) -> (r: Option<u8>)
    ensures
        r == hex_digit(b),
{
    if 0x30 <= b && b <= 0x39 {
        Some(b - 0x30)
    } else if 0x61 <= b && b <= 0x66 {
        Some(b - 0x61 + 10)
    } else if 0x41 <= b && b <= 0x46 {
        Some(b - 0x41 + 10)
    } else {
        None
    }
}

/// The byte that two characters of hex text stand for.
pub fn pair_value(high: u8, low: u8) -> (r: Option<u8>)
    ensures
        r == hex_pair(high, low),
{
    match (digit_value(high), digit_value(low)) {
        (Some(h), Some(l)) => Some(h * 16 + l),
        (None, Some(l)) => if high == 0x2b {
            Some(l)
        } else {
            None
        },
        _ => None,
    }
}

/// The key that hex text holds.
pub fn deobfuscate_api_key(hex_encoded: &str) -> (r: Option<String>)
    requires
        pairable(hex_encoded.spec_bytes()),
    ensures
        match r {
            Some(key) => deobfuscated(hex_encoded.spec_bytes()) == Some(key@),
            None => deobfuscated(hex_encoded.spec_bytes()) is None,
        },
{
    let text = hex_encoded.as_bytes();
    let n = text.len();
    let pairs = n / 2;
    let mut plain: Vec<u8> = Vec::new();
    let mut i: usize = 0;
    let ghost all = hex_encoded.spec_bytes();
    while i < pairs
        invariant
            text@ == all,
            n == all.len(),
            pairs == n / 2,
            i <= pairs,
            plain@ == unmasked(hex_decoded(all, i as int)),
            plain@.len() == hex_decoded(all, i as int).len(),
            plain@.len() <= i,
        decreases pairs - i,
    {
        let ghost before = hex_decoded(all, i as int);
        if let Some(b) = pair_value(text[2 * i], text[2 * i + 1]) {
            let k = plain.len();
            plain.push(b ^ mask_byte(k));
            proof {
                assert(hex_decoded(all, i + 1) == before.push(b));
                assert(plain@ =~= unmasked(before.push(b)));
            }
        }
        i += 1;
    }
    if plain.len() == 0 {
        return None;
    }
    text_from_utf8(plain)
}

/// The key that the build carries, if it carries one: `has_builtin_key` is
/// `1` where it does, and `obfuscated_api_key` is then the key's hex text.
pub fn get_builtin_api_key(has_builtin_key: &str, obfuscated_api_key: &str) -> (r: Option<String>)
    requires
        has_builtin_key@ == "1"@ ==> pairable(obfuscated_api_key.spec_bytes()),
    ensures
        match r {
            Some(key) => has_builtin_key@ == "1"@ && deobfuscated(
                obfuscated_api_key.spec_bytes(),
            ) == Some(key@),
            None => has_builtin_key@ != "1"@ || deobfuscated(obfuscated_api_key.spec_bytes())
                is None,
        },
{
    if same_text(has_builtin_key, "1") {
        deobfuscate_api_key(obfuscated_api_key)
    } else {
        None
    }
}

} // verus!
