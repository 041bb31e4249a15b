//! Transition hashes and signatures of the provenance Merkle-DAG.
use vstd::prelude::*;
use vstd::utf8::{encode_utf8, encode_utf8_decode_utf8};
use crate::proto::StateTransition;
use crate::provenance::canonical_json::{
    JsonValue, canonicalize_json, comma_join, entry_map, is_sorted_listing,
    lemma_key_lt_by_first_ascii, lemma_sorted_keys_is, member_text, member_texts, object_text,
    sorted_keys, strictly_sorted,
};
use crate::provenance::json_text::{escaped, hex_digit, json_string, lemma_escaped_split};
use sha2::Digest;
use ed25519_dalek::Signer;
use rand::Rng;

verus! {

/// The SHA-256 digest of `data`.
pub uninterp spec fn sha256(data: Seq<u8>) -> Seq<u8>;

/// The Ed25519 (RFC 8032) signature of `message` under the secret key `secret`.
pub uninterp spec fn ed25519_signature(secret: Seq<u8>, message: Seq<u8>) -> Seq<u8>;

/// Whether `c` is one of `0`-`9`, `a`-`f`.
pub open spec fn is_lower_hex(c: char) -> bool {
    ('0' <= c && c <= '9') || ('a' <= c && c <= 'f')
}

/// Each byte as two lowercase hexadecimal digits, high nibble first.
pub open spec fn hex_lower(bytes: Seq<u8>) -> Seq<char> {
    Seq::new(
        2 * bytes.len(),
        |i: int|
            if i % 2 == 0 {
                hex_digit(bytes[i / 2] as int / 16)
            } else {
                hex_digit(bytes[i / 2] as int % 16)
            },
    )
}

/// `sha2::Sha256`: the digest of `data`, 32 bytes long.
#[verifier::external_body]
fn sha256_digest(data: &[u8]) -> (digest: Vec<u8>)
    ensures
        digest@ == sha256(data@),
        digest@.len() == 32,
{
    let mut hasher = sha2::Sha256::new();
    hasher.update(data);
    hasher.finalize().to_vec()
}

/// `hex::encode`: every byte as two lowercase hexadecimal digits, high nibble first.
#[verifier::external_body]
fn hex_encode(data: &[u8]) -> (text: String)
    ensures
        text@ == hex_lower(data@),
{
    hex::encode(data)
}

/// `ed25519_dalek::SigningKey::sign`: the Ed25519 signature of `message` under the key
/// whose secret is `secret`, as its 64 bytes.
#[verifier::external_body]
fn ed25519_sign(secret: &[u8; 32], message: &[u8]) -> (signature: [u8; 64])
    ensures
        signature@ == ed25519_signature(secret@, message@),
{
    ed25519_dalek::SigningKey::from_bytes(secret).sign(message).to_bytes()
}

/// `rand::rng().fill_bytes`: 32 bytes from the thread's random generator.
#[verifier::external_body]
fn random_secret() -> (secret: [u8; 32]) {
    let mut bytes = [0u8; 32];
    rand::rng().fill_bytes(&mut bytes);
    bytes
}


/// The members of a transition's JSON object: each field name mapped to the canonical
/// text of its value.
pub open spec fn transition_map(t: StateTransition) -> Map<Seq<char>, Seq<char>> {
    map![
        "current_state_hash"@ => json_string(t.current_state_hash@),
        "parent_hash"@ => json_string(t.parent_hash@),
        "input_manifest_hash"@ => json_string(t.input_manifest_hash@),
        "wasm_logic_hash"@ => json_string(t.wasm_logic_hash@),
        "telemetry_attestation"@ => json_string(t.telemetry_attestation@),
    ]
}

/// The canonical text that is hashed for `t`: its JSON object with `current_state_hash`
/// set to the empty string.
pub open spec fn hashed_text(t: StateTransition) -> Seq<char> {
    object_text(hashed_map(t))
}

/// The transition hash of `t`: the lowercase hex SHA-256 of its hashed text's UTF-8 bytes.
pub open spec fn transition_hash(t: StateTransition) -> Seq<char> {
    hex_lower(sha256(encode_utf8(hashed_text(t))))
}

/// Whether `member` is the string member `key` with value `value`.
pub open spec fn is_string_member(member: (String, JsonValue), key: Seq<char>, value: Seq<char>) -> bool {
    &&& member.0@ == key
    &&& member.1 matches JsonValue::Str(s) && s@ == value
}

/// The JSON object of a transition: one string member per field, in declaration order,
/// under the field's name.
pub fn transition_to_json(t: &StateTransition) -> (json: JsonValue)
    ensures
        json matches JsonValue::Object(entries) && {
            &&& entries@.len() == 5
            &&& is_string_member(entries@[0], "current_state_hash"@, t.current_state_hash@)
            &&& is_string_member(entries@[1], "parent_hash"@, t.parent_hash@)
            &&& is_string_member(entries@[2], "input_manifest_hash"@, t.input_manifest_hash@)
            &&& is_string_member(entries@[3], "wasm_logic_hash"@, t.wasm_logic_hash@)
            &&& is_string_member(entries@[4], "telemetry_attestation"@, t.telemetry_attestation@)
            &&& entry_map(entries@) == transition_map(*t)
        },
{
    let mut entries: Vec<(String, JsonValue)> = Vec::new();
    entries.push((String::from_str("current_state_hash"), JsonValue::Str(t.current_state_hash.clone())));
    entries.push((String::from_str("parent_hash"), JsonValue::Str(t.parent_hash.clone())));
    entries.push((String::from_str("input_manifest_hash"), JsonValue::Str(t.input_manifest_hash.clone())));
    entries.push((String::from_str("wasm_logic_hash"), JsonValue::Str(t.wasm_logic_hash.clone())));
    entries.push((String::from_str("telemetry_attestation"), JsonValue::Str(t.telemetry_attestation.clone())));
    proof {
        reveal_strlit("current_state_hash");
        reveal_strlit("parent_hash");
        reveal_strlit("input_manifest_hash");
        reveal_strlit("wasm_logic_hash");
        reveal_strlit("telemetry_attestation");
        reveal_with_fuel(entry_map, 6);
        let e = entries@;
        assert(e.drop_last().drop_last().drop_last().drop_last().drop_last() =~= Seq::<(String, JsonValue)>::empty());
        assert(entry_map(e) =~= transition_map(*t));
    }
    JsonValue::Object(entries)
}


/// Every digit of a hex encoding is a lowercase hexadecimal digit.
pub proof fn lemma_hex_lower_digits(bytes: Seq<u8>)
    ensures
        hex_lower(bytes).len() == 2 * bytes.len(),
        forall|i: int| 0 <= i < 2 * bytes.len() ==> is_lower_hex(#[trigger] hex_lower(bytes)[i]),
{
    assert forall|i: int| 0 <= i < 2 * bytes.len() implies is_lower_hex(#[trigger] hex_lower(bytes)[i]) by {
        let b = bytes[i / 2] as int;
        let n = if i % 2 == 0 { b / 16 } else { b % 16 };
        assert(0 <= n < 16);
        assert(hex_lower(bytes)[i] == hex_digit(n));
    }
}

/// Calculates the transition hash of a state transition: the SHA-256 of the canonical JSON
/// of the transition with `current_state_hash` emptied, in lowercase hex. The value of
/// `current_state_hash` itself never enters the hash.
pub fn calculate_transition_hash(transition: &StateTransition) -> (hash: String)
    ensures
        hash@ == transition_hash(*transition),
        hash@.len() == 64,
        forall|i: int| 0 <= i < 64 ==> is_lower_hex(#[trigger] hash@[i]),
{
    let hashable = StateTransition {
        current_state_hash: String::new(),
        parent_hash: transition.parent_hash.clone(),
        input_manifest_hash: transition.input_manifest_hash.clone(),
        wasm_logic_hash: transition.wasm_logic_hash.clone(),
        telemetry_attestation: transition.telemetry_attestation.clone(),
    };
    let val = transition_to_json(&hashable);
    let canonical = canonicalize_json(&val);
    let digest = sha256_digest(canonical.as_str().as_bytes());
    let hash = hex_encode(digest.as_slice());
    proof {
        reveal_strlit("current_state_hash");
        reveal_strlit("parent_hash");
        reveal_strlit("input_manifest_hash");
        reveal_strlit("wasm_logic_hash");
        reveal_strlit("telemetry_attestation");
        assert(hashable.current_state_hash@ =~= Seq::<char>::empty());
        assert("current_state_hash"@[0] == 'c');
        assert("parent_hash"@[0] == 'p');
        assert("input_manifest_hash"@[0] == 'i');
        assert("wasm_logic_hash"@[0] == 'w');
        assert("telemetry_attestation"@[0] == 't');
        assert(transition_map(hashable) =~= transition_map(*transition).insert(
            "current_state_hash"@,
            json_string(Seq::empty()),
        ));
        lemma_hex_lower_digits(digest@);
    }
    hash
}

/// An Ed25519 signing key, held as its 32 secret bytes.
pub struct SigningKey {
    secret: [u8; 32],
}

impl View for SigningKey {
    type V = Seq<u8>;

    closed spec fn view(&self) -> Seq<u8> {
        self.secret@
    }
}

impl SigningKey {
    /// The signing key with the given secret bytes.
    pub fn from_bytes(secret: &[u8; 32]) -> (key: SigningKey)
        ensures
            key@ == secret@,
    {
        SigningKey { secret: *secret }
    }

    /// The secret bytes of this key.
    pub fn to_bytes(&self) -> (secret: [u8; 32])
        ensures
            secret@ == self@,
    {
        self.secret
    }
}

/// Generates a new Ed25519 signing key from the thread's random generator. Which of the
/// 2^256 secrets comes out is the generator's draw; every draw is a 32-byte secret.
pub fn generate_signing_key() -> (key: SigningKey)
    ensures
        key@.len() == 32,
{
    let secret = random_secret();
    SigningKey::from_bytes(&secret)
}

/// Signs a transition's hash (its lowercase hex text, as bytes) with `signing_key` and
/// returns the 64-byte Ed25519 signature in lowercase hex.
pub fn sign_transition(transition: &StateTransition, signing_key: &SigningKey) -> (signature: String)
    ensures
        signature@ == hex_lower(ed25519_signature(signing_key@, encode_utf8(transition_hash(*transition)))),
        signature@.len() == 128,
        forall|i: int| 0 <= i < 128 ==> is_lower_hex(#[trigger] signature@[i]),
{
    let hash = calculate_transition_hash(transition);
    let sig = ed25519_sign(&signing_key.secret, hash.as_str().as_bytes());
    let signature = hex_encode(&sig);
    proof {
        lemma_hex_lower_digits(sig@);
    }
    signature
}


/// The text between one string member's value and the next member's value, after the
/// closing quote: `,"key":"`.
pub open spec fn member_break(key: Seq<char>) -> Seq<char> {
    seq![','] + json_string(key) + seq![':', '"']
}

/// The text before the first hashed field's value: `{"current_state_hash":"","input_manifest_hash":"`.
pub open spec fn hashed_text_head() -> Seq<char> {
    seq!['{'] + json_string("current_state_hash"@) + seq![':'] + json_string(Seq::empty()) + seq![',']
        + json_string("input_manifest_hash"@) + seq![':', '"']
}

/// The hashed text from the value of `wasm_logic_hash` to the end.
pub open spec fn hashed_tail_wasm(t: StateTransition) -> Seq<char> {
    escaped(t.wasm_logic_hash@) + (seq!['"'] + seq!['}'])
}

/// The hashed text from the value of `telemetry_attestation` to the end.
pub open spec fn hashed_tail_telemetry(t: StateTransition) -> Seq<char> {
    escaped(t.telemetry_attestation@) + (seq!['"'] + (member_break("wasm_logic_hash"@) + hashed_tail_wasm(t)))
}

/// The hashed text from the value of `parent_hash` to the end.
pub open spec fn hashed_tail_parent(t: StateTransition) -> Seq<char> {
    escaped(t.parent_hash@) + (seq!['"'] + (member_break("telemetry_attestation"@) + hashed_tail_telemetry(t)))
}

/// The hashed text from the value of `input_manifest_hash` to the end.
pub open spec fn hashed_tail_input(t: StateTransition) -> Seq<char> {
    escaped(t.input_manifest_hash@) + (seq!['"'] + (member_break("parent_hash"@) + hashed_tail_parent(t)))
}

/// The hashed text of `t` written out: the members in key order `current_state_hash`,
/// `input_manifest_hash`, `parent_hash`, `telemetry_attestation`, `wasm_logic_hash`, each value
/// escaped.
pub open spec fn hashed_text_layout(t: StateTransition) -> Seq<char> {
    hashed_text_head() + hashed_tail_input(t)
}

/// The map that is hashed for `t`.
pub open spec fn hashed_map(t: StateTransition) -> Map<Seq<char>, Seq<char>> {
    transition_map(t).insert("current_state_hash"@, json_string(Seq::empty()))
}

proof fn lemma_hashed_keys(t: StateTransition)
    ensures
        sorted_keys(hashed_map(t).dom()) == seq![
            "current_state_hash"@,
            "input_manifest_hash"@,
            "parent_hash"@,
            "telemetry_attestation"@,
            "wasm_logic_hash"@,
        ],
{
    let c = "current_state_hash"@;
    let i = "input_manifest_hash"@;
    let p = "parent_hash"@;
    let tt = "telemetry_attestation"@;
    let w = "wasm_logic_hash"@;
    reveal_strlit("current_state_hash");
    reveal_strlit("input_manifest_hash");
    reveal_strlit("parent_hash");
    reveal_strlit("telemetry_attestation");
    reveal_strlit("wasm_logic_hash");
    assert(c[0] == 'c' && i[0] == 'i' && p[0] == 'p' && tt[0] == 't' && w[0] == 'w');
    let m = hashed_map(t);
    let keys = seq![c, i, p, tt, w];
    lemma_key_lt_by_first_ascii(c, i);
    lemma_key_lt_by_first_ascii(c, p);
    lemma_key_lt_by_first_ascii(c, tt);
    lemma_key_lt_by_first_ascii(c, w);
    lemma_key_lt_by_first_ascii(i, p);
    lemma_key_lt_by_first_ascii(i, tt);
    lemma_key_lt_by_first_ascii(i, w);
    lemma_key_lt_by_first_ascii(p, tt);
    lemma_key_lt_by_first_ascii(p, w);
    lemma_key_lt_by_first_ascii(tt, w);
    assert(strictly_sorted(keys));
    assert forall|k: Seq<char>| #[trigger] m.dom().contains(k) implies keys.contains(k) by {
        if k == c {
            assert(keys[0] == k);
        } else if k == i {
            assert(keys[1] == k);
        } else if k == p {
            assert(keys[2] == k);
        } else if k == tt {
            assert(keys[3] == k);
        } else {
            assert(keys[4] == k);
        }
    }
    assert(is_sorted_listing(keys, m.dom()));
    lemma_sorted_keys_is(keys, m.dom());
}

proof fn lemma_comma_join_five(a: Seq<char>, b: Seq<char>, c: Seq<char>, d: Seq<char>, e: Seq<char>)
    ensures
        comma_join(seq![a, b, c, d, e]) == a + seq![','] + b + seq![','] + c + seq![','] + d + seq![','] + e,
{
    let comma = seq![','];
    assert(comma_join(seq![a]) == a);
    assert(seq![a, b].drop_last() =~= seq![a]);
    assert(comma_join(seq![a, b]) == a + comma + b);
    assert(seq![a, b, c].drop_last() =~= seq![a, b]);
    assert(comma_join(seq![a, b, c]) == a + comma + b + comma + c);
    assert(seq![a, b, c, d].drop_last() =~= seq![a, b, c]);
    assert(comma_join(seq![a, b, c, d]) == a + comma + b + comma + c + comma + d);
    assert(seq![a, b, c, d, e].drop_last() =~= seq![a, b, c, d]);
}

/// The hashed text lists the members in key order of their names.
#[verifier::rlimit(50)]
pub proof fn lemma_hashed_text_layout(t: StateTransition)
    ensures
        hashed_text(t) == hashed_text_layout(t),
{
    let c = "current_state_hash"@;
    let i = "input_manifest_hash"@;
    let p = "parent_hash"@;
    let tt = "telemetry_attestation"@;
    let w = "wasm_logic_hash"@;
    let m = hashed_map(t);
    lemma_hashed_keys(t);
    let keys = seq![c, i, p, tt, w];
    reveal_strlit("current_state_hash");
    reveal_strlit("input_manifest_hash");
    reveal_strlit("parent_hash");
    reveal_strlit("telemetry_attestation");
    reveal_strlit("wasm_logic_hash");
    assert(c[0] == 'c' && i[0] == 'i' && p[0] == 'p' && tt[0] == 't' && w[0] == 'w');
    let a0 = member_text(c, json_string(Seq::empty()));
    let a1 = member_text(i, json_string(t.input_manifest_hash@));
    let a2 = member_text(p, json_string(t.parent_hash@));
    let a3 = member_text(tt, json_string(t.telemetry_attestation@));
    let a4 = member_text(w, json_string(t.wasm_logic_hash@));
    assert(m[c] == json_string(Seq::<char>::empty()));
    assert(m[i] == json_string(t.input_manifest_hash@));
    assert(m[p] == json_string(t.parent_hash@));
    assert(m[tt] == json_string(t.telemetry_attestation@));
    assert(m[w] == json_string(t.wasm_logic_hash@));
    assert(member_texts(keys, m) =~= seq![a0, a1, a2, a3, a4]);
    lemma_comma_join_five(a0, a1, a2, a3, a4);
    assert(hashed_text(t) == seq!['{'] + (a0 + seq![','] + a1 + seq![','] + a2 + seq![','] + a3 + seq![','] + a4) + seq!['}']);
    assert(hashed_text(t) =~= hashed_text_layout(t));
}


/// The transition hash does not depend on `current_state_hash`: two transitions that agree
/// on every other field have the same hash.
pub proof fn lemma_hash_ignores_current_state_hash(t1: StateTransition, t2: StateTransition)
    requires
        t1.parent_hash@ == t2.parent_hash@,
        t1.input_manifest_hash@ == t2.input_manifest_hash@,
        t1.wasm_logic_hash@ == t2.wasm_logic_hash@,
        t1.telemetry_attestation@ == t2.telemetry_attestation@,
    ensures
        hashed_text(t1) == hashed_text(t2),
        transition_hash(t1) == transition_hash(t2),
{
    assert(hashed_map(t1) =~= hashed_map(t2));
}

proof fn lemma_strip_prefix(p: Seq<char>, a: Seq<char>, b: Seq<char>)
    requires
        p + a == p + b,
    ensures
        a == b,
{
    assert(a =~= (p + a).subrange(p.len() as int, (p + a).len() as int));
    assert(b =~= (p + b).subrange(p.len() as int, (p + b).len() as int));
}

/// Two transitions are hashed over equal bytes only when their hashed fields are equal: a
/// change to any of them changes the bytes that are hashed.
pub proof fn lemma_hashed_bytes_determine_fields(t1: StateTransition, t2: StateTransition)
    requires
        encode_utf8(hashed_text(t1)) == encode_utf8(hashed_text(t2)),
    ensures
        t1.parent_hash@ == t2.parent_hash@,
        t1.input_manifest_hash@ == t2.input_manifest_hash@,
        t1.wasm_logic_hash@ == t2.wasm_logic_hash@,
        t1.telemetry_attestation@ == t2.telemetry_attestation@,
{
    encode_utf8_decode_utf8(hashed_text(t1));
    encode_utf8_decode_utf8(hashed_text(t2));
    lemma_hashed_text_layout(t1);
    lemma_hashed_text_layout(t2);
    let bp = member_break("parent_hash"@);
    let bt = member_break("telemetry_attestation"@);
    let bw = member_break("wasm_logic_hash"@);
    let end = seq!['}'];
    let w1 = hashed_tail_wasm(t1);
    let w2 = hashed_tail_wasm(t2);
    let a1 = hashed_tail_telemetry(t1);
    let a2 = hashed_tail_telemetry(t2);
    let p1 = hashed_tail_parent(t1);
    let p2 = hashed_tail_parent(t2);
    let i1 = hashed_tail_input(t1);
    let i2 = hashed_tail_input(t2);
    lemma_strip_prefix(hashed_text_head(), i1, i2);
    lemma_escaped_split(t1.input_manifest_hash@, bp + p1, t2.input_manifest_hash@, bp + p2);
    lemma_strip_prefix(bp, p1, p2);
    lemma_escaped_split(t1.parent_hash@, bt + a1, t2.parent_hash@, bt + a2);
    lemma_strip_prefix(bt, a1, a2);
    lemma_escaped_split(t1.telemetry_attestation@, bw + w1, t2.telemetry_attestation@, bw + w2);
    lemma_strip_prefix(bw, w1, w2);
    lemma_escaped_split(t1.wasm_logic_hash@, end, t2.wasm_logic_hash@, end);
}

} // verus!
