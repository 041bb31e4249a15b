//! Reading canonical JSON text back: the canonical text of a value tells the value.
use vstd::prelude::*;
use crate::provenance::canonical_json::{
    canonical_text, comma_join, entry_map, item_texts, lemma_object_keys_sorted, member_text,
    member_texts, sorted_keys, JsonValue,
};
use crate::provenance::json_text::{
    decimal, decimal_digit, decimal_digits, escaped, lemma_escaped_split, lemma_json_string_injective,
};

verus! {

/// A decimal digit character.
pub open spec fn is_digit(c: char) -> bool {
    48 <= (c as u32) <= 57
}

/// A numeral is made of digits only, and there is at least one.
pub proof fn lemma_digits_shape(n: nat)
    ensures
        decimal_digits(n).len() >= 1,
        forall|i: int| 0 <= i < decimal_digits(n).len() ==> is_digit(#[trigger] decimal_digits(n)[i]),
    decreases n,
{
    if n >= 10 {
        lemma_digits_shape(n / 10);
        let d = decimal_digits(n);
        assert forall|i: int| 0 <= i < d.len() implies is_digit(#[trigger] d[i]) by {
            if i < decimal_digits(n / 10).len() {
                assert(d[i] == decimal_digits(n / 10)[i]);
            }
        }
    }
}

/// Distinct naturals have distinct numerals.
pub proof fn lemma_digits_injective(a: nat, b: nat)
    requires
        decimal_digits(a) == decimal_digits(b),
    ensures
        a == b,
    decreases a,
{
    if a < 10 {
        if b >= 10 {
            lemma_digits_shape(b / 10);
        } else {
            assert(decimal_digits(a)[0] == decimal_digit(a as int));
            assert(decimal_digits(b)[0] == decimal_digit(b as int));
        }
    } else {
        lemma_digits_shape(a / 10);
        if b < 10 {
        } else {
            let da = decimal_digits(a);
            let db = decimal_digits(b);
            assert(da.last() == decimal_digit(a as int % 10));
            assert(db.last() == decimal_digit(b as int % 10));
            assert(a % 10 == b % 10);
            assert(da.drop_last() =~= decimal_digits(a / 10));
            assert(db.drop_last() =~= decimal_digits(b / 10));
            lemma_digits_injective(a / 10, b / 10);
        }
    }
}

/// A decimal numeral: a minus sign exactly for a negative number, digits everywhere else.
pub proof fn lemma_decimal_shape(n: int)
    ensures
        decimal(n).len() >= 1,
        decimal(n)[0] == '-' <==> n < 0,
        n >= 0 ==> is_digit(decimal(n)[0]),
        forall|i: int| 1 <= i < decimal(n).len() ==> is_digit(#[trigger] decimal(n)[i]),
{
    if n < 0 {
        lemma_digits_shape((-n) as nat);
        let d = decimal_digits((-n) as nat);
        assert forall|i: int| 1 <= i < decimal(n).len() implies is_digit(#[trigger] decimal(n)[i]) by {
            assert(decimal(n)[i] == d[i - 1]);
        }
    } else {
        lemma_digits_shape(n as nat);
    }
}

/// Distinct integers have distinct numerals.
pub proof fn lemma_decimal_injective(a: int, b: int)
    requires
        decimal(a) == decimal(b),
    ensures
        a == b,
{
    lemma_decimal_shape(a);
    lemma_decimal_shape(b);
    if a < 0 && b < 0 {
        assert(decimal(a).drop_first() =~= decimal_digits((-a) as nat));
        assert(decimal(b).drop_first() =~= decimal_digits((-b) as nat));
        lemma_digits_injective((-a) as nat, (-b) as nat);
    } else if a >= 0 && b >= 0 {
        lemma_digits_injective(a as nat, b as nat);
    }
}

/// What may follow a value's text inside canonical JSON: nothing, a comma, or a closing
/// bracket or brace.
pub open spec fn ends_value(r: Seq<char>) -> bool {
    r.len() == 0 || r[0] == ',' || r[0] == ']' || r[0] == '}'
}

/// A numeral followed by what may follow a value ends where the numeral ends.
proof fn lemma_decimal_prefix(a: int, b: int, r1: Seq<char>, r2: Seq<char>)
    requires
        decimal(a) + r1 == decimal(b) + r2,
        ends_value(r1),
        ends_value(r2),
    ensures
        decimal(a).len() == decimal(b).len(),
{
    let t1 = decimal(a);
    let t2 = decimal(b);
    let x = t1 + r1;
    lemma_decimal_shape(a);
    lemma_decimal_shape(b);
    if t1.len() < t2.len() {
        assert(x[t1.len() as int] == r1[0]);
        assert(x[t1.len() as int] == t2[t1.len() as int]);
        assert(is_digit(t2[t1.len() as int]));
    } else if t2.len() < t1.len() {
        assert(x[t2.len() as int] == r2[0]);
        assert(x[t2.len() as int] == t1[t2.len() as int]);
        assert(is_digit(t1[t2.len() as int]));
    }
}

/// The first character of a value's canonical text tells which kind of value it is; it is
/// never a comma or a closing bracket or brace.
pub proof fn lemma_text_first(v: JsonValue)
    ensures
        canonical_text(v).len() >= 1,
        (canonical_text(v)[0] == 'n') == (v is Null),
        (canonical_text(v)[0] == 't') == (v matches JsonValue::Bool(b) && b),
        (canonical_text(v)[0] == 'f') == (v matches JsonValue::Bool(b) && !b),
        (canonical_text(v)[0] == '"') == (v is Str),
        (canonical_text(v)[0] == '[') == (v is Array),
        (canonical_text(v)[0] == '{') == (v is Object),
        (canonical_text(v)[0] == '-' || is_digit(canonical_text(v)[0])) == (v is Number),
        canonical_text(v)[0] != ',',
        canonical_text(v)[0] != ']',
        canonical_text(v)[0] != '}',
{
    match v {
        JsonValue::Number(n) => {
            lemma_decimal_shape(n@);
        },
        _ => {},
    }
}

/// A comma-joined list, read from its front: the first part, then a comma and the rest.
pub proof fn lemma_comma_join_front(parts: Seq<Seq<char>>)
    requires
        parts.len() >= 1,
    ensures
        parts.len() == 1 ==> comma_join(parts) == parts[0],
        parts.len() > 1 ==> comma_join(parts) == parts[0] + (seq![','] + comma_join(parts.drop_first())),
    decreases parts.len(),
{
    if parts.len() == 2 {
        assert(parts.drop_last() =~= seq![parts[0]]);
        assert(parts.drop_first() =~= seq![parts[1]]);
        assert(comma_join(seq![parts[0]]) == parts[0]);
        assert(comma_join(seq![parts[1]]) == parts[1]);
        assert(comma_join(parts) =~= parts[0] + (seq![','] + comma_join(parts.drop_first())));
    } else if parts.len() > 2 {
        let init = parts.drop_last();
        lemma_comma_join_front(init);
        let tail = parts.drop_first();
        assert(init.drop_first() =~= tail.drop_last());
        assert(tail.last() == parts.last());
        assert(comma_join(tail) == comma_join(tail.drop_last()) + seq![','] + tail.last());
        assert(comma_join(parts) =~= parts[0] + (seq![','] + comma_join(tail)));
    }
}

/// The item texts of a list: one per item, each the item's canonical text.
pub proof fn lemma_item_texts_index(items: Seq<JsonValue>)
    ensures
        item_texts(items).len() == items.len(),
        forall|i: int| 0 <= i < items.len() ==> #[trigger] item_texts(items)[i] == canonical_text(items[i]),
    decreases items.len(),
{
    if items.len() > 0 {
        lemma_item_texts_index(items.drop_last());
    }
}

/// Each key of an object's member map takes its text from one of the object's entries.
pub proof fn lemma_entry_map_value(entries: Seq<(String, JsonValue)>, k: Seq<char>) -> (w: int)
    requires
        entry_map(entries).dom().contains(k),
    ensures
        0 <= w < entries.len(),
        entries[w].0@ == k,
        canonical_text(entries[w].1) == entry_map(entries)[k],
    decreases entries.len(),
{
    let last = entries.len() - 1;
    if entries[last].0@ == k {
        last
    } else {
        lemma_entry_map_value(entries.drop_last(), k)
    }
}

/// A value's canonical text followed by what may follow a value ends where the text ends.
pub proof fn lemma_value_prefix(v1: JsonValue, v2: JsonValue, r1: Seq<char>, r2: Seq<char>)
    requires
        canonical_text(v1) + r1 == canonical_text(v2) + r2,
        ends_value(r1),
        ends_value(r2),
    ensures
        canonical_text(v1) == canonical_text(v2),
        r1 == r2,
    decreases v1, 0int,
{
    let t1 = canonical_text(v1);
    let t2 = canonical_text(v2);
    let x = t1 + r1;
    lemma_text_first(v1);
    lemma_text_first(v2);
    assert(x[0] == t1[0]);
    assert(x[0] == t2[0]);
    match v1 {
        JsonValue::Null => {
            assert(v2 is Null);
        },
        JsonValue::Bool(_) => {
            assert(v2 is Bool);
        },
        JsonValue::Number(n) => {
            match v2 {
                JsonValue::Number(m) => {
                    lemma_decimal_prefix(n@, m@, r1, r2);
                },
                _ => {},
            }
        },
        JsonValue::Str(a) => {
            match v2 {
                JsonValue::Str(b) => {
                    assert(x.drop_first() =~= escaped(a@) + (seq!['"'] + r1));
                    assert(x.drop_first() =~= escaped(b@) + (seq!['"'] + r2));
                    lemma_escaped_split(a@, r1, b@, r2);
                },
                _ => {},
            }
        },
        JsonValue::Array(a) => {
            match v2 {
                JsonValue::Array(b) => {
                    let ta = item_texts(a@);
                    let tb = item_texts(b@);
                    assert(ta.skip(0) =~= ta);
                    assert(tb.skip(0) =~= tb);
                    assert(x.drop_first() =~= comma_join(ta) + (seq![']'] + r1));
                    assert(x.drop_first() =~= comma_join(tb) + (seq![']'] + r2));
                    lemma_items_prefix(a@, 0, b@, 0, r1, r2);
                },
                _ => {},
            }
        },
        JsonValue::Object(a) => {
            match v2 {
                JsonValue::Object(b) => {
                    let ma = entry_map(a@);
                    let mb = entry_map(b@);
                    let ka = sorted_keys(ma.dom());
                    let kb = sorted_keys(mb.dom());
                    lemma_object_keys_sorted(a@);
                    lemma_object_keys_sorted(b@);
                    let pa = member_texts(ka, ma);
                    let pb = member_texts(kb, mb);
                    assert(pa.skip(0) =~= pa);
                    assert(pb.skip(0) =~= pb);
                    assert(x.drop_first() =~= comma_join(pa) + (seq!['}'] + r1));
                    assert(x.drop_first() =~= comma_join(pb) + (seq!['}'] + r2));
                    lemma_members_prefix(a@, ka, 0, b@, kb, 0, r1, r2);
                },
                _ => {},
            }
        },
    }
    assert(t1.len() == t2.len());
    assert(r1 =~= x.subrange(t1.len() as int, x.len() as int));
    assert(r2 =~= (t2 + r2).subrange(t2.len() as int, x.len() as int));
    assert(t1 =~= x.subrange(0, t1.len() as int));
    assert(t2 =~= (t2 + r2).subrange(0, t2.len() as int));
}

/// The items of two lists, from `i` and from `j` on, followed by `]` and what may follow a
/// value: their texts agree one by one and the remainders agree.
proof fn lemma_items_prefix(a: Seq<JsonValue>, i: int, b: Seq<JsonValue>, j: int, r1: Seq<char>, r2: Seq<char>)
    requires
        0 <= i <= a.len(),
        0 <= j <= b.len(),
        ends_value(r1),
        ends_value(r2),
        comma_join(item_texts(a).skip(i)) + (seq![']'] + r1) == comma_join(item_texts(b).skip(j)) + (seq![']'] + r2),
    ensures
        item_texts(a).skip(i) == item_texts(b).skip(j),
        r1 == r2,
    decreases a, a.len() - i,
{
    lemma_item_texts_index(a);
    lemma_item_texts_index(b);
    let pa = item_texts(a).skip(i);
    let pb = item_texts(b).skip(j);
    let x = comma_join(pa) + (seq![']'] + r1);
    if pa.len() == 0 && pb.len() == 0 {
        assert(x =~= seq![']'] + r1);
        assert(x =~= seq![']'] + r2);
        assert(r1 =~= x.drop_first());
        assert(r2 =~= x.drop_first());
        assert(pa =~= pb);
    } else if pa.len() == 0 {
        lemma_comma_join_front(pb);
        lemma_text_first(b[j]);
        assert(pb[0] == canonical_text(b[j]));
        assert(x[0] == ']');
        assert(x[0] == pb[0][0]);
    } else if pb.len() == 0 {
        lemma_comma_join_front(pa);
        lemma_text_first(a[i]);
        assert(pa[0] == canonical_text(a[i]));
        assert(x[0] == pa[0][0]);
        assert(comma_join(pb) =~= Seq::<char>::empty());
        assert(x =~= seq![']'] + r2);
    } else {
        lemma_comma_join_front(pa);
        lemma_comma_join_front(pb);
        assert(pa[0] == canonical_text(a[i]));
        assert(pb[0] == canonical_text(b[j]));
        let ra = if pa.len() == 1 {
            seq![']'] + r1
        } else {
            seq![','] + (comma_join(pa.drop_first()) + (seq![']'] + r1))
        };
        let rb = if pb.len() == 1 {
            seq![']'] + r2
        } else {
            seq![','] + (comma_join(pb.drop_first()) + (seq![']'] + r2))
        };
        assert(x =~= pa[0] + ra);
        assert(x =~= pb[0] + rb);
        lemma_value_prefix(a[i], b[j], ra, rb);
        assert(ra[0] == rb[0]);
        if pa.len() == 1 && pb.len() == 1 {
            assert(r1 =~= ra.drop_first());
            assert(r2 =~= rb.drop_first());
            assert(pa =~= pb);
        } else if pa.len() > 1 && pb.len() > 1 {
            assert(pa.drop_first() =~= item_texts(a).skip(i + 1));
            assert(pb.drop_first() =~= item_texts(b).skip(j + 1));
            assert(ra.drop_first() =~= comma_join(item_texts(a).skip(i + 1)) + (seq![']'] + r1));
            assert(rb.drop_first() =~= comma_join(item_texts(b).skip(j + 1)) + (seq![']'] + r2));
            lemma_items_prefix(a, i + 1, b, j + 1, r1, r2);
            assert(pa =~= seq![pa[0]] + pa.drop_first());
            assert(pb =~= seq![pb[0]] + pb.drop_first());
        }
    }
}

/// The members of two objects, from key `i` and from key `j` on, followed by `}` and what may
/// follow a value: their keys agree one by one, so do the value texts, and so do the
/// remainders.
#[verifier::rlimit(50)]
proof fn lemma_members_prefix(
    a: Seq<(String, JsonValue)>,
    ka: Seq<Seq<char>>,
    i: int,
    b: Seq<(String, JsonValue)>,
    kb: Seq<Seq<char>>,
    j: int,
    r1: Seq<char>,
    r2: Seq<char>,
)
    requires
        0 <= i <= ka.len(),
        0 <= j <= kb.len(),
        forall|p: int| 0 <= p < ka.len() ==> entry_map(a).dom().contains(#[trigger] ka[p]),
        forall|p: int| 0 <= p < kb.len() ==> entry_map(b).dom().contains(#[trigger] kb[p]),
        ends_value(r1),
        ends_value(r2),
        comma_join(member_texts(ka, entry_map(a)).skip(i)) + (seq!['}'] + r1)
            == comma_join(member_texts(kb, entry_map(b)).skip(j)) + (seq!['}'] + r2),
    ensures
        ka.skip(i) == kb.skip(j),
        forall|p: int| 0 <= p < ka.len() - i ==> entry_map(a)[#[trigger] ka[i + p]] == entry_map(b)[kb[j + p]],
        r1 == r2,
    decreases a, ka.len() - i,
{
    let ma = entry_map(a);
    let mb = entry_map(b);
    let pa = member_texts(ka, ma).skip(i);
    let pb = member_texts(kb, mb).skip(j);
    let x = comma_join(pa) + (seq!['}'] + r1);
    if pa.len() == 0 && pb.len() == 0 {
        assert(x =~= seq!['}'] + r1);
        assert(x =~= seq!['}'] + r2);
        assert(r1 =~= x.drop_first());
        assert(r2 =~= x.drop_first());
        assert(ka.skip(i) =~= kb.skip(j));
    } else if pa.len() == 0 {
        lemma_comma_join_front(pb);
        assert(pb[0] == member_text(kb[j], mb[kb[j]]));
        assert(x[0] == '}');
        assert(x[0] == pb[0][0]);
    } else if pb.len() == 0 {
        lemma_comma_join_front(pa);
        assert(pa[0] == member_text(ka[i], ma[ka[i]]));
        assert(x[0] == pa[0][0]);
        assert(comma_join(pb) =~= Seq::<char>::empty());
        assert(x =~= seq!['}'] + r2);
    } else {
        lemma_comma_join_front(pa);
        lemma_comma_join_front(pb);
        let key1 = ka[i];
        let key2 = kb[j];
        let w1 = lemma_entry_map_value(a, key1);
        let w2 = lemma_entry_map_value(b, key2);
        let val1 = a[w1].1;
        let val2 = b[w2].1;
        let ra = if pa.len() == 1 {
            seq!['}'] + r1
        } else {
            seq![','] + (comma_join(pa.drop_first()) + (seq!['}'] + r1))
        };
        let rb = if pb.len() == 1 {
            seq!['}'] + r2
        } else {
            seq![','] + (comma_join(pb.drop_first()) + (seq!['}'] + r2))
        };
        assert(pa[0] == member_text(key1, ma[key1]));
        assert(pb[0] == member_text(key2, mb[key2]));
        let ta = seq![':'] + (canonical_text(val1) + ra);
        let tb = seq![':'] + (canonical_text(val2) + rb);
        assert(x =~= pa[0] + ra);
        assert(x =~= pb[0] + rb);
        assert(x.drop_first() =~= escaped(key1) + (seq!['"'] + ta));
        assert(x.drop_first() =~= escaped(key2) + (seq!['"'] + tb));
        lemma_escaped_split(key1, ta, key2, tb);
        assert(canonical_text(val1) + ra =~= ta.drop_first());
        assert(canonical_text(val2) + rb =~= tb.drop_first());
        assert(decreases_to!(a => a[w1]));
        assert(decreases_to!(a[w1] => a[w1].1));
        lemma_value_prefix(val1, val2, ra, rb);
        assert(ra[0] == rb[0]);
        if pa.len() == 1 && pb.len() == 1 {
            assert(r1 =~= ra.drop_first());
            assert(r2 =~= rb.drop_first());
            assert(ka.skip(i) =~= kb.skip(j));
        } else if pa.len() > 1 && pb.len() > 1 {
            assert(pa.drop_first() =~= member_texts(ka, ma).skip(i + 1));
            assert(pb.drop_first() =~= member_texts(kb, mb).skip(j + 1));
            assert(ra.drop_first() =~= comma_join(member_texts(ka, ma).skip(i + 1)) + (seq!['}'] + r1));
            assert(rb.drop_first() =~= comma_join(member_texts(kb, mb).skip(j + 1)) + (seq!['}'] + r2));
            lemma_members_prefix(a, ka, i + 1, b, kb, j + 1, r1, r2);
            assert(ka.skip(i) =~= seq![key1] + ka.skip(i + 1));
            assert(kb.skip(j) =~= seq![key2] + kb.skip(j + 1));
            assert forall|p: int| 0 <= p < ka.len() - i implies ma[#[trigger] ka[i + p]] == mb[kb[j + p]] by {
                if p > 0 {
                    assert(ka[(i + 1) + (p - 1)] == ka[i + p]);
                }
            }
        }
    }
}

/// The canonical text of a value tells the value: two values with the same text are of the
/// same kind; equal literals, numbers and strings; arrays whose items have the same texts in
/// the same order; objects with the same keys, each mapped to the same value text. Applied
/// again to the items and values, it tells the whole value, up to the order and repetition
/// of object members, which canonical text does not keep.
pub proof fn lemma_canonical_text_determines_value(v1: JsonValue, v2: JsonValue)
    requires
        canonical_text(v1) == canonical_text(v2),
    ensures
        match (v1, v2) {
            (JsonValue::Null, JsonValue::Null) => true,
            (JsonValue::Bool(a), JsonValue::Bool(b)) => a == b,
            (JsonValue::Number(a), JsonValue::Number(b)) => a@ == b@,
            (JsonValue::Str(a), JsonValue::Str(b)) => a@ == b@,
            (JsonValue::Array(a), JsonValue::Array(b)) => item_texts(a@) == item_texts(b@),
            (JsonValue::Object(a), JsonValue::Object(b)) => entry_map(a@) == entry_map(b@),
            _ => false,
        },
{
    let x = canonical_text(v1);
    let none = Seq::<char>::empty();
    lemma_text_first(v1);
    lemma_text_first(v2);
    match v1 {
        JsonValue::Number(n) => {
            match v2 {
                JsonValue::Number(m) => {
                    lemma_decimal_injective(n@, m@);
                },
                _ => {},
            }
        },
        JsonValue::Str(a) => {
            match v2 {
                JsonValue::Str(b) => {
                    lemma_json_string_injective(a@, b@);
                },
                _ => {},
            }
        },
        JsonValue::Array(a) => {
            match v2 {
                JsonValue::Array(b) => {
                    let ta = item_texts(a@);
                    let tb = item_texts(b@);
                    assert(ta.skip(0) =~= ta);
                    assert(tb.skip(0) =~= tb);
                    assert(x.drop_first() =~= comma_join(ta) + (seq![']'] + none));
                    assert(canonical_text(v2).drop_first() =~= comma_join(tb) + (seq![']'] + none));
                    lemma_items_prefix(a@, 0, b@, 0, none, none);
                },
                _ => {},
            }
        },
        JsonValue::Object(a) => {
            match v2 {
                JsonValue::Object(b) => {
                    let ma = entry_map(a@);
                    let mb = entry_map(b@);
                    let ka = sorted_keys(ma.dom());
                    let kb = sorted_keys(mb.dom());
                    lemma_object_keys_sorted(a@);
                    lemma_object_keys_sorted(b@);
                    let pa = member_texts(ka, ma);
                    let pb = member_texts(kb, mb);
                    assert(pa.skip(0) =~= pa);
                    assert(pb.skip(0) =~= pb);
                    assert(ka.skip(0) =~= ka);
                    assert(kb.skip(0) =~= kb);
                    assert(x.drop_first() =~= comma_join(pa) + (seq!['}'] + none));
                    assert(canonical_text(v2).drop_first() =~= comma_join(pb) + (seq!['}'] + none));
                    lemma_members_prefix(a@, ka, 0, b@, kb, 0, none, none);
                    assert(ka == kb);
                    assert forall|k: Seq<char>| ma.dom().contains(k) <==> mb.dom().contains(k) by {
                        if ma.dom().contains(k) {
                            assert(ka.contains(k));
                        }
                        if mb.dom().contains(k) {
                            assert(kb.contains(k));
                        }
                    }
                    assert forall|k: Seq<char>| #[trigger] ma.dom().contains(k) implies ma[k] == mb[k] by {
                        assert(ka.contains(k));
                        let p = choose|p: int| 0 <= p < ka.len() && ka[p] == k;
                        assert(ma[ka[0 + p]] == mb[kb[0 + p]]);
                    }
                    assert(ma =~= mb);
                },
                _ => {},
            }
        },
        _ => {},
    }
}

} // verus!
