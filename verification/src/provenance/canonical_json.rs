//! Canonical JSON text as RFC 8785 (JCS) writes it: object members sorted by the UTF-16 code
//! units of their keys, strings escaped as ECMAScript does, integers in decimal, no whitespace.
use vstd::prelude::*;
use crate::provenance::unit_order::{
    units_lt, units_less, lemma_units_lt_first_difference, lemma_units_lt_prefix, lemma_units_lt_strict_total,
};
use crate::provenance::json_text::{
    char_utf16, decimal, encode_utf16, json_string, lemma_utf16_concat, lemma_utf16_injective, push_decimal,
    push_escaped, push_str, utf16_units,
};

verus! {

/// The largest magnitude of an integer that JSON numbers (IEEE doubles) hold exactly: 2^53.
pub const MAX_SAFE_MAGNITUDE: i64 = 9007199254740992;

/// An integer JSON number whose magnitude is at most 2^53, so that RFC 8785 writes it
/// exactly as its decimal numeral.
#[derive(Debug)]
pub struct SafeInteger {
    value: i64,
}

impl View for SafeInteger {
    type V = int;

    closed spec fn view(&self) -> int {
        self.value as int
    }
}

impl SafeInteger {
    #[verifier::type_invariant]
    spec fn in_range(self) -> bool {
        -MAX_SAFE_MAGNITUDE <= self.value <= MAX_SAFE_MAGNITUDE
    }

    /// The integer `value`, when its magnitude is at most 2^53.
    pub fn new(value: i64) -> (n: Option<SafeInteger>)
        ensures
            n is Some <==> -MAX_SAFE_MAGNITUDE <= value <= MAX_SAFE_MAGNITUDE,
            n matches Some(x) ==> x@ == value as int,
    {
        if -MAX_SAFE_MAGNITUDE <= value && value <= MAX_SAFE_MAGNITUDE {
            Some(SafeInteger { value })
        } else {
            None
        }
    }

    /// The integer's value.
    pub fn value(&self) -> (v: i64)
        ensures
            v as int == self@,
            -MAX_SAFE_MAGNITUDE <= v <= MAX_SAFE_MAGNITUDE,
    {
        proof {
            use_type_invariant(self);
        }
        self.value
    }
}

/// A JSON value as the canonicalizer reads it.
#[derive(Debug)]
pub enum JsonValue {
    Null,
    Bool(bool),
    /// An integer number; floating-point numbers are not held.
    Number(SafeInteger),
    Str(String),
    Array(Vec<JsonValue>),
    /// Members in input order; a repeated key keeps its last value.
    Object(Vec<(String, JsonValue)>),
}

/// The parts joined by commas.
pub open spec fn comma_join(parts: Seq<Seq<char>>) -> Seq<char>
    decreases parts.len(),
{
    if parts.len() == 0 {
        Seq::empty()
    } else if parts.len() == 1 {
        parts[0]
    } else {
        comma_join(parts.drop_last()) + seq![','] + parts.last()
    }
}

/// One object member: the key as a JSON string, a colon, the value's text.
pub open spec fn member_text(key: Seq<char>, value: Seq<char>) -> Seq<char> {
    json_string(key) + seq![':'] + value
}

/// Key order of RFC 8785: lexicographic order of the keys' UTF-16 code units.
pub open spec fn key_lt(a: Seq<char>, b: Seq<char>) -> bool {
    units_lt(encode_utf16(a), encode_utf16(b))
}

/// Each key sorts before every later one.
pub open spec fn strictly_sorted(keys: Seq<Seq<char>>) -> bool {
    forall|i: int, j: int| 0 <= i < j < keys.len() ==> key_lt(#[trigger] keys[i], #[trigger] keys[j])
}

/// `keys` lists exactly the elements of `dom`, strictly increasing in key order.
pub open spec fn is_sorted_listing(keys: Seq<Seq<char>>, dom: Set<Seq<char>>) -> bool {
    &&& strictly_sorted(keys)
    &&& forall|i: int| 0 <= i < keys.len() ==> dom.contains(#[trigger] keys[i])
    &&& forall|k: Seq<char>| #[trigger] dom.contains(k) ==> keys.contains(k)
}

/// The keys of `dom` in increasing key order.
pub open spec fn sorted_keys(dom: Set<Seq<char>>) -> Seq<Seq<char>> {
    choose|keys: Seq<Seq<char>>| is_sorted_listing(keys, dom)
}

/// The members of `m` in increasing key order.
pub open spec fn member_texts(keys: Seq<Seq<char>>, m: Map<Seq<char>, Seq<char>>) -> Seq<Seq<char>> {
    Seq::new(keys.len(), |i: int| member_text(keys[i], m[keys[i]]))
}

/// The canonical text of an object whose keys map to already canonical value texts.
pub open spec fn object_text(m: Map<Seq<char>, Seq<char>>) -> Seq<char> {
    seq!['{'] + comma_join(member_texts(sorted_keys(m.dom()), m)) + seq!['}']
}

/// The canonical text of a JSON value.
pub open spec fn canonical_text(v: JsonValue) -> Seq<char>
    decreases v,
{
    match v {
        JsonValue::Null => seq!['n', 'u', 'l', 'l'],
        JsonValue::Bool(b) => if b {
            seq!['t', 'r', 'u', 'e']
        } else {
            seq!['f', 'a', 'l', 's', 'e']
        },
        JsonValue::Number(n) => decimal(n@),
        JsonValue::Str(s) => json_string(s@),
        JsonValue::Array(items) => seq!['['] + comma_join(item_texts(items@)) + seq![']'],
        JsonValue::Object(entries) => object_text(entry_map(entries@)),
    }
}

/// The canonical texts of the items, in order.
pub open spec fn item_texts(items: Seq<JsonValue>) -> Seq<Seq<char>>
    decreases items,
{
    if items.len() == 0 {
        Seq::empty()
    } else {
        item_texts(items.drop_last()).push(canonical_text(items.last()))
    }
}

/// Each key mapped to the canonical text of its last value.
pub open spec fn entry_map(entries: Seq<(String, JsonValue)>) -> Map<Seq<char>, Seq<char>>
    decreases entries,
{
    if entries.len() == 0 {
        Map::empty()
    } else {
        entry_map(entries.drop_last()).insert(entries.last().0@, canonical_text(entries.last().1))
    }
}


/// Key order is a strict total order on key texts.
pub proof fn lemma_key_lt_strict_total(a: Seq<char>, b: Seq<char>, c: Seq<char>)
    ensures
        !key_lt(a, a),
        key_lt(a, b) && key_lt(b, c) ==> key_lt(a, c),
        key_lt(a, b) ==> !key_lt(b, a),
        a != b ==> key_lt(a, b) || key_lt(b, a),
{
    lemma_units_lt_strict_total(encode_utf16(a), encode_utf16(b), encode_utf16(c));
    lemma_units_lt_strict_total(encode_utf16(a), encode_utf16(b), encode_utf16(a));
    lemma_units_lt_strict_total(encode_utf16(b), encode_utf16(a), encode_utf16(b));
    if a != b && !key_lt(a, b) && !key_lt(b, a) {
        lemma_utf16_injective(a, b);
    }
}

/// A set has at most one sorted listing.
pub proof fn lemma_sorted_listing_unique(a: Seq<Seq<char>>, b: Seq<Seq<char>>, dom: Set<Seq<char>>)
    requires
        is_sorted_listing(a, dom),
        is_sorted_listing(b, dom),
    ensures
        a == b,
    decreases a.len(),
{
    if a.len() == 0 {
        if b.len() > 0 {
            assert(dom.contains(b[0]));
            assert(a.contains(b[0]));
        }
        assert(a =~= b);
    } else {
        if b.len() == 0 {
            assert(dom.contains(a[0]));
            assert(b.contains(a[0]));
        }
        let x = a[0];
        let y = b[0];
        assert(dom.contains(x));
        assert(dom.contains(y));
        assert(b.contains(x));
        assert(a.contains(y));
        let j = choose|j: int| 0 <= j < b.len() && b[j] == x;
        let k = choose|k: int| 0 <= k < a.len() && a[k] == y;
        lemma_key_lt_strict_total(x, y, x);
        if j > 0 {
            assert(key_lt(b[0], b[j]));
            if k > 0 {
                assert(key_lt(a[0], a[k]));
            }
        }
        assert(x == y);
        let d2 = dom.remove(x);
        let a2 = a.drop_first();
        let b2 = b.drop_first();
        lemma_listing_tail(a, dom);
        lemma_listing_tail(b, dom);
        lemma_sorted_listing_unique(a2, b2, d2);
        assert(a =~= seq![x] + a2);
        assert(b =~= seq![y] + b2);
    }
}

/// Any sorted listing of a set is the one `sorted_keys` names.
pub proof fn lemma_sorted_keys_is(keys: Seq<Seq<char>>, dom: Set<Seq<char>>)
    requires
        is_sorted_listing(keys, dom),
    ensures
        sorted_keys(dom) == keys,
{
    lemma_sorted_listing_unique(sorted_keys(dom), keys, dom);
}


/// Key order on two keys, by comparing their UTF-16 code units.
pub fn key_less(a: &String, b: &String) -> (lt: bool)
    ensures
        lt == key_lt(a@, b@),
{
    let ua = utf16_units(a.as_str());
    let ub = utf16_units(b.as_str());
    units_less(ua.as_slice(), ub.as_slice())
}

/// The views of a sequence of strings.
pub open spec fn views(v: Seq<String>) -> Seq<Seq<char>> {
    v.map_values(|s: String| s@)
}

/// Records `key` with `value` in the sorted listing `keys`/`values`, replacing an earlier value.
fn insert_member(keys: &mut Vec<String>, values: &mut Vec<String>, key: &String, value: String)
    requires
        old(keys).len() == old(values).len(),
        strictly_sorted(views(old(keys)@)),
    ensures
        final(keys).len() == final(values).len(),
        strictly_sorted(views(final(keys)@)),
        forall|dom: Set<Seq<char>>| #[trigger] is_sorted_listing(views(old(keys)@), dom)
            ==> is_sorted_listing(views(final(keys)@), dom.insert(key@)),
        forall|j: int| 0 <= j < final(keys).len() ==> (#[trigger] final(keys)@[j])@ == key@
            ==> final(values)@[j]@ == value@,
        forall|j: int| 0 <= j < final(keys).len() ==> (#[trigger] final(keys)@[j])@ != key@
            ==> exists|t: int| 0 <= t < old(keys).len() && old(keys)@[t]@ == final(keys)@[j]@ && old(values)@[t]@ == final(values)@[j]@,
{
    let ghost k0 = views(keys@);
    let mut j: usize = 0;
    while j < keys.len() && key_less(&keys[j], key)
        invariant
            j <= keys.len(),
            keys@ == old(keys)@,
            forall|t: int| 0 <= t < j ==> key_lt(#[trigger] keys@[t]@, key@),
        decreases keys.len() - j,
    {
        j = j + 1;
    }
    if j < keys.len() && keys[j] == *key {
        values.set(j, value);
        proof {
            assert(keys@ == old(keys)@);
            assert(views(keys@) == k0);
            assert(strictly_sorted(views(keys@)));
            assert forall|t: int| 0 <= t < keys.len() && (#[trigger] keys@[t])@ == key@
                implies values@[t]@ == value@ by {
                lemma_key_lt_strict_total(key@, key@, key@);
                if t < j {
                    assert(key_lt(k0[t], k0[j as int]));
                } else if t > j {
                    assert(key_lt(k0[j as int], k0[t]));
                }
            }
            assert forall|dom: Set<Seq<char>>| #[trigger] is_sorted_listing(views(old(keys)@), dom)
                implies is_sorted_listing(views(keys@), dom.insert(key@)) by {
                assert(k0[j as int] == key@);
                assert forall|kk: Seq<char>| #[trigger] dom.insert(key@).contains(kk) implies views(keys@).contains(kk) by {
                    if kk == key@ {
                        assert(views(keys@)[j as int] == kk);
                    }
                }
            }
            assert forall|t: int| 0 <= t < keys.len() && (#[trigger] keys@[t])@ != key@
                implies exists|t2: int| 0 <= t2 < old(keys).len() && old(keys)@[t2]@ == keys@[t]@ && old(values)@[t2]@ == values@[t]@ by {
                assert(t != j);
                assert(old(keys)@[t]@ == keys@[t]@);
            }
        }
    } else {
        let ghost oldv = values@;
        keys.insert(j, key.clone());
        values.insert(j, value);
        proof {
            let k1 = views(keys@);
            assert(k1 =~= k0.insert(j as int, key@));
            if j < old(keys).len() {
                lemma_key_lt_strict_total(key@, k0[j as int], key@);
                assert(key_lt(key@, k0[j as int]));
            }
            assert forall|a: int, b: int| 0 <= a < b < k1.len() implies key_lt(#[trigger] k1[a], #[trigger] k1[b]) by {
                if b < j {
                    assert(key_lt(k0[a], k0[b]));
                } else if b == j {
                    assert(key_lt(old(keys)@[a]@, key@));
                } else if a < j {
                    assert(key_lt(old(keys)@[a]@, key@));
                    if b - 1 > j {
                        assert(key_lt(k0[j as int], k0[b - 1]));
                        lemma_key_lt_strict_total(key@, k0[j as int], k0[b - 1]);
                    }
                    lemma_key_lt_strict_total(k0[a], key@, k0[b - 1]);
                } else if a == j {
                    if b - 1 > j {
                        assert(key_lt(k0[j as int], k0[b - 1]));
                        lemma_key_lt_strict_total(key@, k0[j as int], k0[b - 1]);
                    }
                } else {
                    assert(key_lt(k0[a - 1], k0[b - 1]));
                }
            }
            assert(strictly_sorted(k1));
            assert forall|dom: Set<Seq<char>>| #[trigger] is_sorted_listing(views(old(keys)@), dom)
                implies is_sorted_listing(k1, dom.insert(key@)) by {
                assert forall|a: int| 0 <= a < k1.len() implies dom.insert(key@).contains(#[trigger] k1[a]) by {
                    if a < j {
                        assert(dom.contains(k0[a]));
                    } else if a > j {
                        assert(dom.contains(k0[a - 1]));
                    }
                }
                assert forall|kk: Seq<char>| #[trigger] dom.insert(key@).contains(kk) implies k1.contains(kk) by {
                    if kk == key@ {
                        assert(k1[j as int] == kk);
                    } else {
                        assert(k0.contains(kk));
                        let t = choose|t: int| 0 <= t < k0.len() && k0[t] == kk;
                        if t < j {
                            assert(k1[t] == kk);
                        } else {
                            assert(k1[t + 1] == kk);
                        }
                    }
                }
            }
            assert forall|t: int| 0 <= t < keys.len() && (#[trigger] keys@[t])@ == key@
                implies values@[t]@ == value@ by {
                if t < j {
                    assert(key_lt(keys@[t]@, key@));
                    lemma_key_lt_strict_total(key@, key@, key@);
                } else if t > j {
                    if j < old(keys).len() {
                        if t - 1 > j {
                            assert(key_lt(k0[j as int], k0[t - 1]));
                            lemma_key_lt_strict_total(key@, k0[j as int], k0[t - 1]);
                        }
                        lemma_key_lt_strict_total(key@, key@, key@);
                    }
                }
            }
            assert forall|t: int| 0 <= t < keys.len() && (#[trigger] keys@[t])@ != key@
                implies exists|t2: int| 0 <= t2 < old(keys).len() && old(keys)@[t2]@ == keys@[t]@ && old(values)@[t2]@ == values@[t]@ by {
                if t < j {
                    assert(old(keys)@[t]@ == keys@[t]@ && oldv[t]@ == values@[t]@);
                } else {
                    assert(t != j);
                    assert(old(keys)@[t - 1]@ == keys@[t]@ && oldv[t - 1]@ == values@[t]@);
                }
            }
        }
    }
}


proof fn lemma_comma_join_push(parts: Seq<Seq<char>>, x: Seq<char>)
    ensures
        comma_join(parts.push(x)) == if parts.len() == 0 {
            x
        } else {
            comma_join(parts) + seq![','] + x
        },
{
    assert(parts.push(x).drop_last() =~= parts);
}


/// The canonical JSON text of a value (RFC 8785): objects list their members in UTF-16
/// code-unit order of the keys, each key once with its last value; arrays keep their order;
/// strings and keys are escaped as ECMAScript's `JSON.stringify` does; integers are written
/// in decimal; no whitespace is added.
pub fn canonicalize_json(val: &JsonValue) -> (text: String)
    ensures
        text@ == canonical_text(*val),
    decreases val, 1int,
{
    match val {
        JsonValue::Null => {
            let t = String::from_str("null");
            proof {
                reveal_strlit("null");
                assert(t@ =~= canonical_text(*val));
            }
            t
        },
        JsonValue::Bool(b) => {
            if *b {
                let t = String::from_str("true");
                proof {
                    reveal_strlit("true");
                    assert(t@ =~= canonical_text(*val));
                }
                t
            } else {
                let t = String::from_str("false");
                proof {
                    reveal_strlit("false");
                    assert(t@ =~= canonical_text(*val));
                }
                t
            }
        },
        JsonValue::Number(n) => {
            let v = n.value();
            let mut t = String::new();
            push_decimal(&mut t, v);
            proof {
                assert(t@ =~= canonical_text(*val));
            }
            t
        },
        JsonValue::Str(s) => {
            let mut t = String::from_str("\"");
            push_escaped(&mut t, s.as_str());
            push_str(&mut t, "\"");
            proof {
                reveal_strlit("\"");
                assert(t@ =~= canonical_text(*val));
            }
            t
        },
        JsonValue::Array(items) => {
            let mut t = String::from_str("[");
            proof {
                reveal_strlit("[");
                reveal_strlit(",");
                assert(","@ =~= seq![',']);
                assert(items@.take(0) =~= Seq::<JsonValue>::empty());
            }
            let mut i: usize = 0;
            while i < items.len()
                invariant
                    i <= items.len(),
                    *val == JsonValue::Array(*items),
                    t@ == seq!['['] + comma_join(item_texts(items@.take(i as int))),
                    ","@ == seq![','],
                decreases items.len() - i,
            {
                let ghost before = item_texts(items@.take(i as int));
                proof {
                    assert(decreases_to!(*val => (*val)->Array_0));
                    assert(decreases_to!(*items => items@));
                    assert(decreases_to!(items@ => items@[i as int]));
                    assert(decreases_to!(*val => items@[i as int]));
                }
                let item = canonicalize_json(&items[i]);
                if i > 0 {
                    push_str(&mut t, ",");
                }
                push_str(&mut t, item.as_str());
                proof {
                    assert(items@.take(i + 1).drop_last() =~= items@.take(i as int));
                    assert(item_texts(items@.take(i + 1)) == before.push(item@));
                    lemma_comma_join_push(before, item@);
                    assert(t@ =~= seq!['['] + comma_join(item_texts(items@.take(i + 1))));
                }
                i = i + 1;
            }
            push_str(&mut t, "]");
            proof {
                reveal_strlit("]");
                assert(items@.take(items.len() as int) =~= items@);
                assert(t@ =~= canonical_text(*val));
            }
            t
        },
        JsonValue::Object(entries) => canonical_object(val, entries),
    }
}


/// The canonical text of an object value whose members are `entries`.
fn canonical_object(val: &JsonValue, entries: &Vec<(String, JsonValue)>) -> (text: String)
    requires
        *val == JsonValue::Object(*entries),
    ensures
        text@ == canonical_text(*val),
    decreases val, 0int,
{
    let mut keys: Vec<String> = Vec::new();
    let mut values: Vec<String> = Vec::new();
    proof {
        assert(entries@.take(0) =~= Seq::<(String, JsonValue)>::empty());
        assert(views(keys@) =~= Seq::<Seq<char>>::empty());
    }
    let mut i: usize = 0;
    while i < entries.len()
        invariant
            i <= entries.len(),
            *val == JsonValue::Object(*entries),
            keys.len() == values.len(),
            is_sorted_listing(views(keys@), entry_map(entries@.take(i as int)).dom()),
            forall|t: int| 0 <= t < keys.len() ==> (#[trigger] values@[t])@ == entry_map(entries@.take(i as int))[keys@[t]@],
        decreases entries.len() - i,
    {
        let ghost m0 = entry_map(entries@.take(i as int));
        let ghost oldk = keys@;
        let ghost oldv = values@;
        proof {
            assert(decreases_to!(*val => (*val)->Object_0));
            assert(decreases_to!(*entries => entries@));
            assert(decreases_to!(entries@ => entries@[i as int]));
            assert(decreases_to!(entries@[i as int] => entries@[i as int].1));
            assert(decreases_to!(*val => entries@[i as int].1));
        }
        let rendered = canonicalize_json(&entries[i].1);
        insert_member(&mut keys, &mut values, &entries[i].0, rendered);
        proof {
            let k = entries@[i as int].0@;
            assert(entries@.take(i + 1).drop_last() =~= entries@.take(i as int));
            let m1 = entry_map(entries@.take(i + 1));
            assert(m1 == m0.insert(k, rendered@));
            assert(m1.dom() =~= m0.dom().insert(k));
            assert forall|t: int| 0 <= t < keys.len() implies (#[trigger] values@[t])@ == m1[keys@[t]@] by {
                if keys@[t]@ == k {
                } else {
                    let t2 = choose|t2: int| 0 <= t2 < oldk.len() && oldk[t2]@ == keys@[t]@ && oldv[t2]@ == values@[t]@;
                    assert(oldv[t2]@ == m0[oldk[t2]@]);
                }
            }
        }
        i = i + 1;
    }
    proof {
        assert(entries@.take(entries.len() as int) =~= entries@);
    }
    let ghost m = entry_map(entries@);
    let ghost all = member_texts(views(keys@), m);
    let mut t = String::from_str("{");
    proof {
        reveal_strlit("{");
        reveal_strlit(",");
        reveal_strlit("\"");
        reveal_strlit("\":");
        assert(","@ =~= seq![',']);
        assert("\""@ =~= seq!['"']);
        assert("\":"@ =~= seq!['"', ':']);
        assert(all.take(0) =~= Seq::<Seq<char>>::empty());
        assert forall|t: int| 0 <= t < keys.len() implies #[trigger] all[t] == member_text(keys@[t]@, values@[t]@) by {
            assert(views(keys@)[t] == keys@[t]@);
            assert(values@[t]@ == m[keys@[t]@]);
        }
    }
    let mut j: usize = 0;
    while j < keys.len()
        invariant
            j <= keys.len(),
            keys.len() == values.len(),
            all.len() == keys.len(),
            forall|t: int| 0 <= t < keys.len() ==> #[trigger] all[t] == member_text(keys@[t]@, values@[t]@),
            t@ == seq!['{'] + comma_join(all.take(j as int)),
            ","@ == seq![','],
            "\""@ == seq!['"'],
            "\":"@ == seq!['"', ':'],
        decreases keys.len() - j,
    {
        let ghost before = all.take(j as int);
        if j > 0 {
            push_str(&mut t, ",");
        }
        push_str(&mut t, "\"");
        push_escaped(&mut t, keys[j].as_str());
        push_str(&mut t, "\":");
        push_str(&mut t, values[j].as_str());
        proof {
            let piece = all[j as int];
            assert(all.take(j + 1) =~= before.push(piece));
            lemma_comma_join_push(before, piece);
            assert(t@ =~= seq!['{'] + comma_join(all.take(j + 1)));
        }
        j = j + 1;
    }
    push_str(&mut t, "}");
    proof {
        reveal_strlit("}");
        lemma_sorted_keys_is(views(keys@), m.dom());
        assert(all.take(keys.len() as int) =~= all);
        assert(t@ =~= canonical_text(*val));
    }
    t
}


/// Keys whose first characters are ASCII and differ are ordered by those characters.
pub proof fn lemma_key_lt_by_first_ascii(a: Seq<char>, b: Seq<char>)
    requires
        a.len() > 0,
        b.len() > 0,
        (a[0] as u32) < (b[0] as u32),
        (b[0] as u32) <= 0x7F,
    ensures
        key_lt(a, b),
{
    let x = a[0] as u32;
    let y = b[0] as u32;
    let ea = encode_utf16(a);
    let eb = encode_utf16(b);
    assert(ea[0] == x as u16);
    assert(eb[0] == y as u16);
    assert(units_lt(ea, eb));
}


/// No two members share a key.
pub open spec fn distinct_keys(entries: Seq<(String, JsonValue)>) -> bool {
    forall|i: int, j: int| 0 <= i < j < entries.len() ==> (#[trigger] entries[i]).0@ != (#[trigger] entries[j]).0@
}

/// With distinct keys, the member map holds exactly the members' keys, each with its value's text.
pub proof fn lemma_entry_map_of_distinct(entries: Seq<(String, JsonValue)>)
    requires
        distinct_keys(entries),
    ensures
        forall|k: Seq<char>| #[trigger] entry_map(entries).dom().contains(k)
            <==> exists|i: int| 0 <= i < entries.len() && (#[trigger] entries[i]).0@ == k,
        forall|i: int| 0 <= i < entries.len() ==> entry_map(entries)[(#[trigger] entries[i]).0@]
            == canonical_text(entries[i].1),
    decreases entries.len(),
{
    if entries.len() > 0 {
        let init = entries.drop_last();
        assert forall|i: int, j: int| 0 <= i < j < init.len() implies (#[trigger] init[i]).0@ != (#[trigger] init[j]).0@ by {
            assert(entries[i] == init[i] && entries[j] == init[j]);
        }
        lemma_entry_map_of_distinct(init);
        let n = entries.len() - 1;
        assert(entry_map(entries) == entry_map(init).insert(entries[n].0@, canonical_text(entries[n].1)));
        assert forall|k: Seq<char>| #[trigger] entry_map(entries).dom().contains(k)
            implies exists|i: int| 0 <= i < entries.len() && (#[trigger] entries[i]).0@ == k by {
            if k != entries[n].0@ {
                assert(entry_map(init).dom().contains(k));
                let i = choose|i: int| 0 <= i < init.len() && (#[trigger] init[i]).0@ == k;
                assert(entries[i] == init[i]);
            } else {
                assert(entries[n].0@ == k);
            }
        }
        assert forall|k: Seq<char>| (exists|i: int| 0 <= i < entries.len() && (#[trigger] entries[i]).0@ == k)
            implies #[trigger] entry_map(entries).dom().contains(k) by {
            let i = choose|i: int| 0 <= i < entries.len() && (#[trigger] entries[i]).0@ == k;
            if i < n {
                assert(init[i] == entries[i]);
            }
        }
        assert forall|i: int| 0 <= i < entries.len() implies entry_map(entries)[(#[trigger] entries[i]).0@]
            == canonical_text(entries[i].1) by {
            if i < n {
                assert(init[i] == entries[i]);
                assert(entries[i].0@ != entries[n].0@);
            }
        }
    }
}

/// The canonical text of an object does not depend on the order of its members: two objects
/// with distinct keys and the same members (key and value text) have the same canonical text.
pub proof fn lemma_member_order_irrelevant(e1: Vec<(String, JsonValue)>, e2: Vec<(String, JsonValue)>)
    requires
        distinct_keys(e1@),
        distinct_keys(e2@),
        forall|i: int| 0 <= i < e1.len() ==> exists|j: int| 0 <= j < e2.len()
            && (#[trigger] e1@[i]).0@ == (#[trigger] e2@[j]).0@
            && canonical_text(e1@[i].1) == canonical_text(e2@[j].1),
        forall|j: int| 0 <= j < e2.len() ==> exists|i: int| 0 <= i < e1.len()
            && (#[trigger] e1@[i]).0@ == (#[trigger] e2@[j]).0@,
    ensures
        canonical_text(JsonValue::Object(e1)) == canonical_text(JsonValue::Object(e2)),
{
    lemma_entry_map_of_distinct(e1@);
    lemma_entry_map_of_distinct(e2@);
    let m1 = entry_map(e1@);
    let m2 = entry_map(e2@);
    assert forall|k: Seq<char>| m1.dom().contains(k) <==> m2.dom().contains(k) by {
        if m1.dom().contains(k) {
            let i = choose|i: int| 0 <= i < e1@.len() && (#[trigger] e1@[i]).0@ == k;
            let j = choose|j: int| 0 <= j < e2.len() && (#[trigger] e1@[i]).0@ == (#[trigger] e2@[j]).0@
                && canonical_text(e1@[i].1) == canonical_text(e2@[j].1);
        }
        if m2.dom().contains(k) {
            let j = choose|j: int| 0 <= j < e2@.len() && (#[trigger] e2@[j]).0@ == k;
            let i = choose|i: int| 0 <= i < e1.len() && (#[trigger] e1@[i]).0@ == (#[trigger] e2@[j]).0@;
        }
    }
    assert forall|k: Seq<char>| #[trigger] m1.dom().contains(k) implies m1[k] == m2[k] by {
        let i = choose|i: int| 0 <= i < e1@.len() && (#[trigger] e1@[i]).0@ == k;
        let j = choose|j: int| 0 <= j < e2.len() && (#[trigger] e1@[i]).0@ == (#[trigger] e2@[j]).0@
            && canonical_text(e1@[i].1) == canonical_text(e2@[j].1);
    }
    assert(m1 =~= m2);
}


/// Without its first key, a sorted listing lists the rest of the set.
proof fn lemma_listing_tail(keys: Seq<Seq<char>>, dom: Set<Seq<char>>)
    requires
        is_sorted_listing(keys, dom),
        keys.len() > 0,
    ensures
        is_sorted_listing(keys.drop_first(), dom.remove(keys[0])),
        forall|i: int| 0 <= i < keys.drop_first().len() ==> key_lt(keys[0], #[trigger] keys.drop_first()[i]),
{
    let x = keys[0];
    let d2 = dom.remove(x);
    let t = keys.drop_first();
    lemma_key_lt_strict_total(x, x, x);
    assert forall|i: int| 0 <= i < t.len() implies key_lt(x, #[trigger] t[i]) by {
        assert(key_lt(keys[0], keys[i + 1]));
    }
    assert forall|i: int| 0 <= i < t.len() implies d2.contains(#[trigger] t[i]) by {
        assert(key_lt(keys[0], keys[i + 1]));
        assert(dom.contains(keys[i + 1]));
    }
    assert forall|k: Seq<char>| #[trigger] d2.contains(k) implies t.contains(k) by {
        assert(keys.contains(k));
        let j = choose|j: int| 0 <= j < keys.len() && keys[j] == k;
        assert(t[j - 1] == k);
    }
    assert forall|i: int, j: int| 0 <= i < j < t.len() implies key_lt(#[trigger] t[i], #[trigger] t[j]) by {
        assert(key_lt(keys[i + 1], keys[j + 1]));
    }
}

/// `k` placed into the sorted listing `keys` before the first key it sorts below.
pub open spec fn insert_in_order(keys: Seq<Seq<char>>, k: Seq<char>) -> Seq<Seq<char>>
    decreases keys.len(),
{
    if keys.len() == 0 {
        seq![k]
    } else if key_lt(k, keys[0]) {
        seq![k] + keys
    } else {
        seq![keys[0]] + insert_in_order(keys.drop_first(), k)
    }
}

proof fn lemma_insert_in_order(keys: Seq<Seq<char>>, dom: Set<Seq<char>>, k: Seq<char>)
    requires
        is_sorted_listing(keys, dom),
        !dom.contains(k),
    ensures
        is_sorted_listing(insert_in_order(keys, k), dom.insert(k)),
    decreases keys.len(),
{
    let r = insert_in_order(keys, k);
    let d = dom.insert(k);
    if keys.len() == 0 {
        assert forall|x: Seq<char>| #[trigger] d.contains(x) implies r.contains(x) by {
            if x != k {
                assert(keys.contains(x));
            }
            assert(r[0] == k);
        }
    } else if key_lt(k, keys[0]) {
        assert forall|i: int, j: int| 0 <= i < j < r.len() implies key_lt(#[trigger] r[i], #[trigger] r[j]) by {
            if i == 0 {
                if j > 1 {
                    assert(key_lt(keys[0], keys[j - 1]));
                    lemma_key_lt_strict_total(k, keys[0], keys[j - 1]);
                }
            } else {
                assert(key_lt(keys[i - 1], keys[j - 1]));
            }
        }
        assert forall|i: int| 0 <= i < r.len() implies d.contains(#[trigger] r[i]) by {
            if i > 0 {
                assert(dom.contains(keys[i - 1]));
            }
        }
        assert forall|x: Seq<char>| #[trigger] d.contains(x) implies r.contains(x) by {
            if x == k {
                assert(r[0] == k);
            } else {
                assert(keys.contains(x));
                let j = choose|j: int| 0 <= j < keys.len() && keys[j] == x;
                assert(r[j + 1] == x);
            }
        }
    } else {
        let x0 = keys[0];
        let t = keys.drop_first();
        lemma_listing_tail(keys, dom);
        assert(dom.contains(x0));
        lemma_key_lt_strict_total(x0, k, x0);
        assert(key_lt(x0, k));
        let d2 = dom.remove(x0);
        lemma_insert_in_order(t, d2, k);
        let rt = insert_in_order(t, k);
        assert(r == seq![x0] + rt);
        assert forall|i: int| 0 <= i < rt.len() implies key_lt(x0, #[trigger] rt[i]) by {
            assert(d2.insert(k).contains(rt[i]));
            if rt[i] != k {
                assert(t.contains(rt[i]));
                let j = choose|j: int| 0 <= j < t.len() && t[j] == rt[i];
                assert(key_lt(x0, t[j]));
            }
        }
        assert forall|i: int, j: int| 0 <= i < j < r.len() implies key_lt(#[trigger] r[i], #[trigger] r[j]) by {
            if i == 0 {
                assert(r[j] == rt[j - 1]);
            } else {
                assert(r[i] == rt[i - 1] && r[j] == rt[j - 1]);
            }
        }
        assert forall|i: int| 0 <= i < r.len() implies d.contains(#[trigger] r[i]) by {
            if i > 0 {
                assert(r[i] == rt[i - 1]);
                assert(d2.insert(k).contains(rt[i - 1]));
            }
        }
        assert forall|x: Seq<char>| #[trigger] d.contains(x) implies r.contains(x) by {
            if x == x0 {
                assert(r[0] == x);
            } else {
                assert(d2.insert(k).contains(x));
                assert(rt.contains(x));
                let j = choose|j: int| 0 <= j < rt.len() && rt[j] == x;
                assert(r[j + 1] == x);
            }
        }
    }
}

/// Key order is lexicographic at every position: two keys that agree up to a character
/// from the Basic Multilingual Plane where they first differ are ordered by that character,
/// whatever follows it.
pub proof fn lemma_key_lt_first_difference(p: Seq<char>, x: char, y: char, r: Seq<char>, s: Seq<char>)
    requires
        (x as u32) < (y as u32),
        (y as u32) < 0x10000,
    ensures
        key_lt(p + seq![x] + r, p + seq![y] + s),
        !key_lt(p + seq![y] + s, p + seq![x] + r),
{
    let vx = x as u32;
    let vy = y as u32;
    assert(vx < 0x10000 ==> (vx as u16) as u32 == vx) by (bit_vector);
    assert(vy < 0x10000 ==> (vy as u16) as u32 == vy) by (bit_vector);
    lemma_key_prefix_encoding(p, x, r);
    lemma_key_prefix_encoding(p, y, s);
    lemma_units_lt_first_difference(encode_utf16(p), vx as u16, vy as u16, encode_utf16(r), encode_utf16(s));
}

/// Keys compare by UTF-16 code units, not by code points: where two keys first differ, a
/// character beyond the Basic Multilingual Plane (written as a surrogate pair, from 0xD800)
/// sorts before a character from U+E000 to U+FFFF.
pub proof fn lemma_key_lt_surrogates_first(p: Seq<char>, x: char, y: char, r: Seq<char>, s: Seq<char>)
    requires
        0xE000 <= (x as u32) < 0x10000,
        (y as u32) >= 0x10000,
    ensures
        key_lt(p + seq![y] + s, p + seq![x] + r),
        !key_lt(p + seq![x] + r, p + seq![y] + s),
{
    let vx = x as u32;
    let vy = y as u32;
    assert(vx < 0x10000 ==> (vx as u16) as u32 == vx) by (bit_vector);
    assert(vy <= 0x10FFFF ==> 0xD800 + (vy - 0x10000) / 0x400 < 0xDC00) by (bit_vector);
    let hi = (0xD800 + (vy - 0x10000) / 0x400) as u16;
    let lo = (0xDC00 + (vy - 0x10000) % 0x400) as u16;
    assert(vy <= 0x10FFFF ==> ((0xD800 + (vy - 0x10000) / 0x400) as u16) < 0xDC00) by (bit_vector);
    assert(char_utf16(y) == seq![hi, lo]);
    lemma_key_prefix_encoding(p, x, r);
    lemma_utf16_concat(p + seq![y], s);
    lemma_utf16_concat(p, seq![y]);
    assert(seq![y].drop_first() =~= Seq::<char>::empty());
    assert(encode_utf16(seq![y]) =~= char_utf16(y) + encode_utf16(seq![y].drop_first()));
    assert(encode_utf16(p + seq![y] + s) =~= encode_utf16(p) + seq![hi] + (seq![lo] + encode_utf16(s)));
    lemma_units_lt_first_difference(encode_utf16(p), hi, vx as u16, seq![lo] + encode_utf16(s), encode_utf16(r));
}

/// A key sorts before every longer key that extends it.
pub proof fn lemma_key_lt_prefix(p: Seq<char>, x: char, r: Seq<char>)
    ensures
        key_lt(p, p + seq![x] + r),
        !key_lt(p + seq![x] + r, p),
{
    lemma_utf16_concat(p + seq![x], r);
    lemma_utf16_concat(p, seq![x]);
    let cx = char_utf16(x);
    assert(encode_utf16(seq![x]) =~= cx + encode_utf16(seq![x].drop_first()));
    assert(encode_utf16(seq![x].drop_first()) =~= Seq::<u16>::empty());
    assert(cx.len() >= 1);
    let tail = cx.drop_first() + encode_utf16(r);
    assert(encode_utf16(p + seq![x] + r) =~= encode_utf16(p) + seq![cx[0]] + tail);
    lemma_units_lt_prefix(encode_utf16(p), cx[0], tail);
}

/// The encoding of `p`, a character of the Basic Multilingual Plane, and `r`.
proof fn lemma_key_prefix_encoding(p: Seq<char>, x: char, r: Seq<char>)
    requires
        (x as u32) < 0x10000,
    ensures
        encode_utf16(p + seq![x] + r) == encode_utf16(p) + seq![(x as u32) as u16] + encode_utf16(r),
{
    lemma_utf16_concat(p + seq![x], r);
    lemma_utf16_concat(p, seq![x]);
    assert(seq![x].drop_first() =~= Seq::<char>::empty());
    assert(encode_utf16(seq![x]) =~= char_utf16(x) + encode_utf16(seq![x].drop_first()));
    assert(encode_utf16(seq![x]) =~= seq![(x as u32) as u16]);
}

/// The keys of every object can be listed in key order: `sorted_keys` of an object's member
/// map lists each of its keys exactly once, strictly increasing.
pub proof fn lemma_object_keys_sorted(entries: Seq<(String, JsonValue)>)
    ensures
        is_sorted_listing(sorted_keys(entry_map(entries).dom()), entry_map(entries).dom()),
    decreases entries.len(),
{
    let dom = entry_map(entries).dom();
    if entries.len() == 0 {
        assert(dom =~= Set::<Seq<char>>::empty());
        assert(is_sorted_listing(Seq::<Seq<char>>::empty(), dom));
    } else {
        let init = entries.drop_last();
        lemma_object_keys_sorted(init);
        let d0 = entry_map(init).dom();
        let l0 = sorted_keys(d0);
        let k = entries.last().0@;
        assert(dom == d0.insert(k));
        if d0.contains(k) {
            assert(dom =~= d0);
            assert(is_sorted_listing(l0, dom));
        } else {
            lemma_insert_in_order(l0, d0, k);
            assert(is_sorted_listing(insert_in_order(l0, k), dom));
        }
    }
}

} // verus!
