use std::collections::hash_map::DefaultHasher;
use std::hash::{Hash, Hasher};

use uuid::Uuid;
use uuid_b64::codec::{decode, encode};
use uuid_b64::{CodecError, UuidB64};

const KNOWN_HEX: &str = "b0c1ee86-6f46-4f1b-8d8b-7849e75dbcee";
const KNOWN_RAW: u128 = 0xb0c1ee86_6f46_4f1b_8d8b_7849e75dbcee;
const KNOWN_TEXT: &str = "sMHuhm9GTxuNi3hJ51287g";

fn hash_of(x: &UuidB64) -> u64 {
    let mut h = DefaultHasher::new();
    x.hash(&mut h);
    h.finish()
}

#[test]
fn display_is_b64() {
    let id = UuidB64::new();
    let fmted = id.to_string();
    assert_eq!(fmted.len(), 22);
    assert_eq!(format!("UuidB64({})", fmted), id.to_debug_string());
}

#[test]
fn parse_roundtrips() {
    let original = UuidB64::new();
    let encoded = original.to_string();
    let parsed: UuidB64 = encoded.parse().unwrap();
    assert_eq!(parsed, original);
}

#[test]
fn from_uuid_works() {
    let _ = UuidB64::from(Uuid::new_v4().as_u128());
}

#[test]
fn known_identifier_encodes_and_parses() {
    let raw = Uuid::parse_str(KNOWN_HEX).unwrap().as_u128();
    assert_eq!(raw, KNOWN_RAW);
    let id = UuidB64::from(raw);
    assert_eq!(id.to_string(), KNOWN_TEXT);
    let parsed = UuidB64::parse(KNOWN_TEXT).unwrap();
    assert_eq!(parsed, id);
    assert_eq!(parsed.uuid(), KNOWN_RAW);
}

#[test]
fn debug_string_wraps_text() {
    let id = UuidB64::from(KNOWN_RAW);
    assert_eq!(id.to_debug_string(), "UuidB64(sMHuhm9GTxuNi3hJ51287g)");
}

#[test]
fn round_trip_of_edge_values() {
    for raw in [0u128, 1, u128::MAX, 1u128 << 127, KNOWN_RAW] {
        let id = UuidB64::from(raw);
        let parsed: UuidB64 = id.to_string().parse().unwrap();
        assert_eq!(parsed, id);
        assert_eq!(parsed.uuid(), raw);
    }
}

#[test]
fn text_of_zero_and_max() {
    assert_eq!(UuidB64::from(0u128).to_string(), "AAAAAAAAAAAAAAAAAAAAAA");
    assert_eq!(UuidB64::from(u128::MAX).to_string(), "_____________________w");
}

#[test]
fn text_has_fixed_length_and_alphabet() {
    for raw in [0u128, u128::MAX, KNOWN_RAW, 0xfbff_fbff_fbff_fbff_fbff_fbff_fbff_fbff] {
        let text = UuidB64::from(raw).to_string();
        assert_eq!(text.len(), 22);
        assert!(text
            .chars()
            .all(|c| c.is_ascii_alphanumeric() || c == '-' || c == '_'));
        assert!(!text.contains('='));
    }
}

#[test]
fn url_safe_characters_are_used() {
    // 0xfb 0xff 0xbf encodes to "-_-_" in the URL-safe alphabet.
    let text = UuidB64::from(0xfbff_bffb_ffbf_fbff_bffb_ffbf_fbff_bffb).to_string();
    assert!(text.contains('-'));
    assert!(text.contains('_'));
    assert!(!text.contains('+'));
    assert!(!text.contains('/'));
}

#[test]
fn distinct_values_have_distinct_texts() {
    let a = UuidB64::from(KNOWN_RAW);
    let b = UuidB64::from(KNOWN_RAW ^ 1);
    assert_ne!(a, b);
    assert_ne!(a.to_string(), b.to_string());
}

#[test]
fn text_is_deterministic() {
    let id = UuidB64::new();
    assert_eq!(id.to_string(), id.to_string());
    assert_eq!(id.to_string(), UuidB64::from(id.uuid()).to_string());
}

#[test]
fn generated_values_differ() {
    let a = UuidB64::new();
    let b = UuidB64::new();
    assert_ne!(a, b);
}

#[test]
fn generated_values_are_version_four() {
    let raw = UuidB64::new().uuid();
    assert_eq!((raw >> 76) & 0xf, 4);
    assert_eq!((raw >> 62) & 0x3, 2);
    assert_eq!(Uuid::from_u128(raw).get_version_num(), 4);
}

#[test]
fn parse_rejects_padding_character() {
    let err = UuidB64::parse("sMHuhm9GTxuNi3hJ51287g=").unwrap_err();
    assert_eq!(err.text, "sMHuhm9GTxuNi3hJ51287g=");
    assert_eq!(err.cause, CodecError::InvalidText);
}

#[test]
fn parse_rejects_standard_alphabet() {
    let err = UuidB64::parse("sMHuhm9GTxuNi3hJ5128+g").unwrap_err();
    assert_eq!(err.text, "sMHuhm9GTxuNi3hJ5128+g");
    assert_eq!(err.cause, CodecError::InvalidText);
    assert!("sMHuhm9GTxuNi3hJ5128/g".parse::<UuidB64>().is_err());
}

#[test]
fn parse_rejects_whitespace() {
    assert!(UuidB64::parse(" sMHuhm9GTxuNi3hJ51287g").is_err());
    assert!(UuidB64::parse("sMHuhm9GTxuNi3hJ51287g\n").is_err());
}

#[test]
fn parse_rejects_21_characters() {
    let err = UuidB64::parse("sMHuhm9GTxuNi3hJ51287").unwrap_err();
    assert_eq!(err.text, "sMHuhm9GTxuNi3hJ51287");
    assert_eq!(err.cause, CodecError::InvalidText);
}

#[test]
fn parse_rejects_23_characters() {
    let err = UuidB64::parse("sMHuhm9GTxuNi3hJ51287gA").unwrap_err();
    assert_eq!(err.cause, CodecError::WrongLength);
}

#[test]
fn parse_rejects_wrong_byte_count() {
    // 24 characters: a valid text of 18 bytes.
    let err = UuidB64::parse("sMHuhm9GTxuNi3hJ51287gAA").unwrap_err();
    assert_eq!(err.cause, CodecError::WrongLength);
    let err = UuidB64::parse("").unwrap_err();
    assert_eq!(err.cause, CodecError::WrongLength);
}

#[test]
fn parse_rejects_non_canonical_last_character() {
    // "h" carries set bits past the 16th byte; "g" is the canonical form.
    let err = UuidB64::parse("sMHuhm9GTxuNi3hJ51287h").unwrap_err();
    assert_eq!(err.cause, CodecError::InvalidText);
}

#[test]
fn equal_values_hash_equally() {
    let a = UuidB64::from(KNOWN_RAW);
    let b = UuidB64::parse(KNOWN_TEXT).unwrap();
    assert_eq!(a, b);
    assert_eq!(hash_of(&a), hash_of(&b));
    let g = UuidB64::new();
    let p = UuidB64::parse(&g.to_string()).unwrap();
    assert_eq!(g, p);
    assert_eq!(hash_of(&g), hash_of(&p));
}

#[test]
fn codec_encodes_and_decodes_sixteen_bytes() {
    let bytes: Vec<u8> = (0u8..16).collect();
    let text = encode(&bytes);
    assert_eq!(text, "AAECAwQFBgcICQoLDA0ODw");
    assert_eq!(decode(&text).unwrap(), bytes);
}

#[test]
fn codec_reports_each_error() {
    assert_eq!(decode("AAECAwQFBgcICQoLDA0OD*"), Err(CodecError::InvalidText));
    assert_eq!(decode("AAECAwQFBgcICQoLDA0O"), Err(CodecError::WrongLength));
}
