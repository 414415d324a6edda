use oto_core::secrets::{deobfuscate_api_key, get_builtin_api_key, mask_byte, pair_value};

const MASK: [u8; 16] = [
    0x4f, 0x72, 0x61, 0x6e, 0x67, 0x65, 0x50, 0x69, 0x6e, 0x65, 0x61, 0x70, 0x70, 0x6c, 0x65, 0x21,
];

fn obfuscate(key: &str) -> String {
    let mut hex = String::new();
    for (i, b) in key.bytes().enumerate() {
        hex.push_str(&format!("{:02x}", b ^ MASK[i % 16]));
    }
    hex
}

#[test]
fn mask_repeats_every_sixteen_bytes() {
    for i in 0..64usize {
        assert_eq!(mask_byte(i), MASK[i % 16]);
    }
}

#[test]
fn pairs_of_hex_digits() {
    assert_eq!(pair_value(b'0', b'0'), Some(0));
    assert_eq!(pair_value(b'f', b'f'), Some(255));
    assert_eq!(pair_value(b'F', b'f'), Some(255));
    assert_eq!(pair_value(b'1', b'a'), Some(26));
    assert_eq!(pair_value(b'A', b'0'), Some(160));
    assert_eq!(pair_value(b'+', b'f'), Some(15));
    assert_eq!(pair_value(b'-', b'f'), None);
    assert_eq!(pair_value(b'g', b'0'), None);
    assert_eq!(pair_value(b'0', b'g'), None);
    assert_eq!(pair_value(b'0', b'+'), None);
    assert_eq!(pair_value(b' ', b'1'), None);
    assert_eq!(pair_value(b'0', b'x'), None);
}

#[test]
fn pairs_agree_with_std() {
    for high in 0u8..128 {
        for low in 0u8..128 {
            let text = String::from_utf8(vec![high, low]).expect("ascii");
            assert_eq!(pair_value(high, low), u8::from_str_radix(&text, 16).ok(), "{:?}", text);
        }
    }
}

#[test]
fn known_keys() {
    assert_eq!(deobfuscate_api_key("0e"), Some("A".to_string()));
    assert_eq!(deobfuscate_api_key("0e30"), Some("AB".to_string()));
    assert_eq!(deobfuscate_api_key("0E30"), Some("AB".to_string()));
    assert_eq!(deobfuscate_api_key("+f"), Some("@".to_string()));
}

#[test]
fn round_trip() {
    for key in ["SECRET-REDACTED", "k", "clé secrète 日本"] {
        assert_eq!(deobfuscate_api_key(&obfuscate(key)), Some(key.to_string()));
    }
}

#[test]
fn pairs_that_are_no_hex_are_passed_over() {
    assert_eq!(deobfuscate_api_key("zz0e"), Some("A".to_string()));
    assert_eq!(deobfuscate_api_key("0ezz30"), Some("AB".to_string()));
    assert_eq!(deobfuscate_api_key("éé0e"), Some("A".to_string()));
}

#[test]
fn nothing_to_decode_is_no_key() {
    assert_eq!(deobfuscate_api_key(""), None);
    assert_eq!(deobfuscate_api_key("zz"), None);
    assert_eq!(deobfuscate_api_key("  "), None);
}

#[test]
fn bytes_that_are_not_utf8_are_no_key() {
    assert_eq!(deobfuscate_api_key("b0"), None);
    assert_eq!(deobfuscate_api_key("0eb0"), None);
}

#[test]
fn built_in_key_needs_the_flag() {
    assert_eq!(get_builtin_api_key("1", "0e30"), Some("AB".to_string()));
    assert_eq!(get_builtin_api_key("0", "0e30"), None);
    assert_eq!(get_builtin_api_key("", "0e30"), None);
    assert_eq!(get_builtin_api_key("1", ""), None);
    assert_eq!(get_builtin_api_key("11", "0e30"), None);
}
