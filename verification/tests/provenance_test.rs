use ed25519_dalek::{Signer, Verifier};
use helio_kernel::proto::StateTransition;
use helio_kernel::provenance::canonical_json::{canonicalize_json, key_less, JsonValue, SafeInteger};
use helio_kernel::provenance::unit_order::units_less;
use helio_kernel::provenance::merkle_dag::{
    calculate_transition_hash, generate_signing_key, sign_transition, transition_to_json, SigningKey,
};

fn s(text: &str) -> String {
    text.to_string()
}

fn number(n: i64) -> SafeInteger {
    SafeInteger::new(n).unwrap()
}

fn sample() -> StateTransition {
    StateTransition {
        current_state_hash: s("should-be-ignored"),
        parent_hash: s("parent123"),
        input_manifest_hash: s("input456"),
        wasm_logic_hash: s("wasm789"),
        telemetry_attestation: s("telemetry000"),
    }
}

#[test]
fn canonical_scalars() {
    assert_eq!(canonicalize_json(&JsonValue::Null), "null");
    assert_eq!(canonicalize_json(&JsonValue::Bool(true)), "true");
    assert_eq!(canonicalize_json(&JsonValue::Bool(false)), "false");
    assert_eq!(canonicalize_json(&JsonValue::Str(s("a b"))), "\"a b\"");
}

#[test]
fn canonical_arrays_keep_order() {
    let v = JsonValue::Array(vec![
        JsonValue::Number(number(3)),
        JsonValue::Array(vec![]),
        JsonValue::Str(s("z")),
        JsonValue::Null,
    ]);
    assert_eq!(canonicalize_json(&v), "[3,[],\"z\",null]");
    assert_eq!(canonicalize_json(&JsonValue::Array(vec![])), "[]");
}

#[test]
fn canonical_objects_sort_keys() {
    let v = JsonValue::Object(vec![
        (s("b"), JsonValue::Number(number(1))),
        (s("a"), JsonValue::Object(vec![(s("y"), JsonValue::Null), (s("x"), JsonValue::Bool(true))])),
        (s("ab"), JsonValue::Array(vec![JsonValue::Str(s("q"))])),
    ]);
    assert_eq!(canonicalize_json(&v), "{\"a\":{\"x\":true,\"y\":null},\"ab\":[\"q\"],\"b\":1}");
    assert_eq!(canonicalize_json(&JsonValue::Object(vec![])), "{}");
}

#[test]
fn canonical_objects_last_value_wins() {
    let v = JsonValue::Object(vec![
        (s("k"), JsonValue::Number(number(1))),
        (s("j"), JsonValue::Null),
        (s("k"), JsonValue::Number(number(2))),
    ]);
    assert_eq!(canonicalize_json(&v), "{\"j\":null,\"k\":2}");
}

#[test]
fn canonical_member_order_does_not_matter() {
    let a = JsonValue::Object(vec![(s("p"), JsonValue::Null), (s("q"), JsonValue::Bool(false))]);
    let b = JsonValue::Object(vec![(s("q"), JsonValue::Bool(false)), (s("p"), JsonValue::Null)]);
    assert_eq!(canonicalize_json(&a), canonicalize_json(&b));
}

#[test]
fn canonical_keys_in_utf16_order() {
    // 'Z' < 'a' < 'z' < 'é' (U+00E9); U+10000 (lead unit 0xD800) < U+E000
    let v = JsonValue::Object(vec![
        (s("é"), JsonValue::Null),
        (s("\u{E000}"), JsonValue::Null),
        (s("z"), JsonValue::Null),
        (s("\u{10000}"), JsonValue::Null),
        (s("a"), JsonValue::Null),
        (s("Z"), JsonValue::Null),
    ]);
    assert_eq!(
        canonicalize_json(&v),
        "{\"Z\":null,\"a\":null,\"z\":null,\"é\":null,\"\u{10000}\":null,\"\u{E000}\":null}"
    );
}

#[test]
fn canonical_string_escapes() {
    assert_eq!(canonicalize_json(&JsonValue::Str(s("a\"b"))), "\"a\\\"b\"");
    assert_eq!(canonicalize_json(&JsonValue::Str(s("a\nb"))), "\"a\\nb\"");
    assert_eq!(canonicalize_json(&JsonValue::Str(s("\\"))), "\"\\\\\"");
    assert_eq!(
        canonicalize_json(&JsonValue::Str(s("\u{8}\u{c}\r\t\u{1}\u{1f}"))),
        "\"\\b\\f\\r\\t\\u0001\\u001f\""
    );
    // characters from U+0020 on, non-ASCII included, are written as they are
    assert_eq!(canonicalize_json(&JsonValue::Str(s("é€😀/"))), "\"é€😀/\"");
    // keys are escaped too
    let v = JsonValue::Object(vec![(s("k\"\n"), JsonValue::Null)]);
    assert_eq!(canonicalize_json(&v), "{\"k\\\"\\n\":null}");
}

#[test]
fn canonical_strings_keep_arrays_apart() {
    let one = JsonValue::Array(vec![JsonValue::Str(s("a\",\"b"))]);
    let two = JsonValue::Array(vec![JsonValue::Str(s("a")), JsonValue::Str(s("b"))]);
    assert_ne!(canonicalize_json(&one), canonicalize_json(&two));
    assert_eq!(canonicalize_json(&one), "[\"a\\\",\\\"b\"]");
}

#[test]
fn canonical_integers() {
    assert_eq!(canonicalize_json(&JsonValue::Number(number(0))), "0");
    assert_eq!(canonicalize_json(&JsonValue::Number(number(-12))), "-12");
    assert_eq!(canonicalize_json(&JsonValue::Number(number(1000))), "1000");
    assert_eq!(canonicalize_json(&JsonValue::Number(number(9007199254740992))), "9007199254740992");
    assert_eq!(canonicalize_json(&JsonValue::Number(number(-9007199254740992))), "-9007199254740992");
    assert!(SafeInteger::new(9007199254740993).is_none());
    assert!(SafeInteger::new(i64::MIN).is_none());
    assert_eq!(number(-5).value(), -5);
}

#[test]
fn code_unit_order_compare() {
    assert!(units_less(&[1, 2, 3], &[1, 2, 4]));
    assert!(units_less(&[1, 2], &[1, 2, 3]));
    assert!(!units_less(&[1, 2, 3], &[1, 2]));
    assert!(!units_less(&[1, 2, 3], &[1, 2, 3]));
    assert!(units_less(&[], &[0]));
    assert!(!units_less(&[], &[]));
    assert!(key_less(&s("z"), &s("é")));
    assert!(!key_less(&s("é"), &s("z")));
    assert!(key_less(&s("\u{10000}"), &s("\u{E000}")));
    assert!(!key_less(&s("\u{E000}"), &s("\u{10000}")));
}

#[test]
fn transition_json_text() {
    let json = transition_to_json(&sample());
    assert_eq!(
        canonicalize_json(&json),
        "{\"current_state_hash\":\"should-be-ignored\",\"input_manifest_hash\":\"input456\",\"parent_hash\":\"parent123\",\"telemetry_attestation\":\"telemetry000\",\"wasm_logic_hash\":\"wasm789\"}"
    );
}

#[test]
fn transition_hash_known_value() {
    assert_eq!(
        calculate_transition_hash(&sample()),
        "06e363a4a2e66acdf4ed98cae6c8d51a0277f2e6c7e5f7982ea0384a35cd11fb"
    );
    let empty = StateTransition {
        current_state_hash: s("x"),
        parent_hash: s(""),
        input_manifest_hash: s(""),
        wasm_logic_hash: s(""),
        telemetry_attestation: s(""),
    };
    assert_eq!(
        calculate_transition_hash(&empty),
        "e6f764ccbbc9f5a983cd00ec7c1f21b4cd9e9f6bbc65facb48a701dd8967502e"
    );
}

#[test]
fn transition_hash_ignores_current_state_hash() {
    let mut t = sample();
    let h1 = calculate_transition_hash(&t);
    t.current_state_hash = s("");
    assert_eq!(h1, calculate_transition_hash(&t));
    t.current_state_hash = s("{\"anything\":1}");
    assert_eq!(h1, calculate_transition_hash(&t));
}

#[test]
fn transition_hash_shape() {
    let h = calculate_transition_hash(&sample());
    assert_eq!(h.len(), 64);
    assert!(h.chars().all(|c| c.is_ascii_digit() || ('a'..='f').contains(&c)));
}

#[test]
fn transition_hash_changes_with_each_field() {
    let base = calculate_transition_hash(&sample());
    let mut t = sample();
    t.input_manifest_hash = s("input457");
    assert_ne!(base, calculate_transition_hash(&t));
    let mut t = sample();
    t.wasm_logic_hash = s("wasm780");
    assert_ne!(base, calculate_transition_hash(&t));
    let mut t = sample();
    t.telemetry_attestation = s("telemetry001");
    assert_ne!(base, calculate_transition_hash(&t));
}

#[test]
fn signing_key_bytes_round_trip() {
    let secret = [7u8; 32];
    let key = SigningKey::from_bytes(&secret);
    assert_eq!(key.to_bytes(), secret);
}

#[test]
fn signature_matches_ed25519_over_hash_text() {
    let secret = [
        0x9d, 0x61, 0xb1, 0x9d, 0xef, 0xfd, 0x5a, 0x60, 0xba, 0x84, 0x4a, 0xf4, 0x92, 0xec, 0x2c, 0xc4,
        0x44, 0x49, 0xc5, 0x69, 0x7b, 0x32, 0x69, 0x19, 0x70, 0x3b, 0xac, 0x03, 0x1c, 0xae, 0x7f, 0x60,
    ];
    let key = SigningKey::from_bytes(&secret);
    let t = sample();
    let sig_hex = sign_transition(&t, &key);
    assert_eq!(sig_hex.len(), 128);
    assert!(sig_hex.chars().all(|c| c.is_ascii_digit() || ('a'..='f').contains(&c)));

    let hash = calculate_transition_hash(&t);
    let dalek = ed25519_dalek::SigningKey::from_bytes(&secret);
    let expected = dalek.sign(hash.as_bytes());
    assert_eq!(sig_hex, hex::encode(expected.to_bytes()));

    let raw = hex::decode(&sig_hex).unwrap();
    let mut bytes = [0u8; 64];
    bytes.copy_from_slice(&raw);
    let signature = ed25519_dalek::Signature::from_bytes(&bytes);
    assert!(dalek.verifying_key().verify(hash.as_bytes(), &signature).is_ok());
    // deterministic
    assert_eq!(sig_hex, sign_transition(&t, &key));
}

#[test]
fn generated_keys_sign_verifiably() {
    let k1 = generate_signing_key();
    let k2 = generate_signing_key();
    assert_ne!(k1.to_bytes(), k2.to_bytes());
    let t = sample();
    let sig_hex = sign_transition(&t, &k1);
    let raw = hex::decode(&sig_hex).unwrap();
    let mut bytes = [0u8; 64];
    bytes.copy_from_slice(&raw);
    let dalek = ed25519_dalek::SigningKey::from_bytes(&k1.to_bytes());
    let signature = ed25519_dalek::Signature::from_bytes(&bytes);
    let hash = calculate_transition_hash(&t);
    assert!(dalek.verifying_key().verify(hash.as_bytes(), &signature).is_ok());
}

#[test]
fn quotes_in_fields_stay_inside_their_member() {
    // Values are escaped, so a quote inside a value cannot move text into the next member.
    let mut t1 = sample();
    t1.parent_hash = s("x\",\"telemetry_attestation\":\"y");
    t1.telemetry_attestation = s("z");
    let mut t2 = sample();
    t2.parent_hash = s("x");
    t2.telemetry_attestation = s("y\",\"telemetry_attestation\":\"z");
    assert_ne!(calculate_transition_hash(&t1), calculate_transition_hash(&t2));
    let json = transition_to_json(&t1);
    assert_eq!(
        canonicalize_json(&json),
        "{\"current_state_hash\":\"should-be-ignored\",\"input_manifest_hash\":\"input456\",\"parent_hash\":\"x\\\",\\\"telemetry_attestation\\\":\\\"y\",\"telemetry_attestation\":\"z\",\"wasm_logic_hash\":\"wasm789\"}"
    );
}

#[test]
fn canonical_text_reads_back_as_the_same_json() {
    let v = JsonValue::Object(vec![
        (s("z"), JsonValue::Array(vec![JsonValue::Str(s("a\",\"b")), JsonValue::Null])),
        (s("a\n"), JsonValue::Number(number(-7))),
        (s("\u{10000}"), JsonValue::Bool(true)),
        (s("\u{E000}"), JsonValue::Str(s("\\\u{1}\t"))),
    ]);
    let text = canonicalize_json(&v);
    let parsed: serde_json::Value = serde_json::from_str(&text).unwrap();
    let mut expected = serde_json::Map::new();
    expected.insert(
        s("z"),
        serde_json::Value::Array(vec![serde_json::Value::String(s("a\",\"b")), serde_json::Value::Null]),
    );
    expected.insert(s("a\n"), serde_json::Value::from(-7));
    expected.insert(s("\u{10000}"), serde_json::Value::Bool(true));
    expected.insert(s("\u{E000}"), serde_json::Value::String(s("\\\u{1}\t")));
    assert_eq!(parsed, serde_json::Value::Object(expected));
    assert_eq!(
        text,
        "{\"a\\n\":-7,\"z\":[\"a\\\",\\\"b\",null],\"\u{10000}\":true,\"\u{E000}\":\"\\\\\\u0001\\t\"}"
    );
}
