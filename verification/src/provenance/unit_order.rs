//! The lexicographic order of UTF-16 code-unit strings, the order of JSON keys in RFC 8785.
use vstd::prelude::*;

verus! {

/// `a` sorts before `b` when both agree below position `i` and they are compared from `i` on.
pub open spec fn units_lt_from(a: Seq<u16>, b: Seq<u16>, i: int) -> bool
    decreases a.len() - i,
{
    if i < 0 || i >= a.len() {
        0 <= i < b.len()
    } else if i >= b.len() {
        false
    } else if a[i] != b[i] {
        a[i] < b[i]
    } else {
        units_lt_from(a, b, i + 1)
    }
}

/// Lexicographic order of code-unit strings.
pub open spec fn units_lt(a: Seq<u16>, b: Seq<u16>) -> bool {
    units_lt_from(a, b, 0)
}

pub proof fn lemma_units_lt_from_irreflexive(a: Seq<u16>, i: int)
    requires
        0 <= i,
    ensures
        !units_lt_from(a, a, i),
    decreases a.len() - i,
{
    if i < a.len() {
        lemma_units_lt_from_irreflexive(a, i + 1);
    }
}

pub proof fn lemma_units_lt_from_transitive(a: Seq<u16>, b: Seq<u16>, c: Seq<u16>, i: int)
    requires
        0 <= i,
        units_lt_from(a, b, i),
        units_lt_from(b, c, i),
    ensures
        units_lt_from(a, c, i),
    decreases a.len() - i,
{
    if i < a.len() && i < b.len() && i < c.len() && a[i] == b[i] && b[i] == c[i] {
        lemma_units_lt_from_transitive(a, b, c, i + 1);
    }
}

pub proof fn lemma_units_lt_from_total(a: Seq<u16>, b: Seq<u16>, i: int)
    requires
        0 <= i <= a.len(),
        i <= b.len(),
        !units_lt_from(a, b, i),
        !units_lt_from(b, a, i),
    ensures
        a.len() == b.len(),
        forall|j: int| i <= j < a.len() ==> a[j] == b[j],
    decreases a.len() - i,
{
    if i < a.len() && i < b.len() {
        lemma_units_lt_from_total(a, b, i + 1);
    }
}

/// The code-unit order is a strict total order.
pub proof fn lemma_units_lt_strict_total(a: Seq<u16>, b: Seq<u16>, c: Seq<u16>)
    ensures
        !units_lt(a, a),
        units_lt(a, b) && units_lt(b, c) ==> units_lt(a, c),
        a != b ==> units_lt(a, b) || units_lt(b, a),
{
    lemma_units_lt_from_irreflexive(a, 0);
    if units_lt(a, b) && units_lt(b, c) {
        lemma_units_lt_from_transitive(a, b, c, 0);
    }
    if !units_lt(a, b) && !units_lt(b, a) {
        lemma_units_lt_from_total(a, b, 0);
        assert(a =~= b);
    }
}

/// Where two strings agree from `i` up to `k`, comparing from `i` is comparing from `k`.
proof fn lemma_units_lt_from_skip(a: Seq<u16>, b: Seq<u16>, i: int, k: int)
    requires
        0 <= i <= k,
        k <= a.len(),
        k <= b.len(),
        forall|j: int| i <= j < k ==> a[j] == b[j],
    ensures
        units_lt_from(a, b, i) == units_lt_from(a, b, k),
    decreases k - i,
{
    if i < k {
        lemma_units_lt_from_skip(a, b, i + 1, k);
    }
}

/// The order is lexicographic at every position: after any common prefix `p`, the first
/// differing code unit decides, whatever follows it.
pub proof fn lemma_units_lt_first_difference(p: Seq<u16>, x: u16, y: u16, r: Seq<u16>, s: Seq<u16>)
    requires
        x < y,
    ensures
        units_lt(p + seq![x] + r, p + seq![y] + s),
        !units_lt(p + seq![y] + s, p + seq![x] + r),
{
    let a = p + seq![x] + r;
    let b = p + seq![y] + s;
    assert(a[p.len() as int] == x);
    assert(b[p.len() as int] == y);
    lemma_units_lt_from_skip(a, b, 0, p.len() as int);
    lemma_units_lt_from_skip(b, a, 0, p.len() as int);
}

/// A proper prefix sorts before every longer string that extends it.
pub proof fn lemma_units_lt_prefix(p: Seq<u16>, x: u16, r: Seq<u16>)
    ensures
        units_lt(p, p + seq![x] + r),
        !units_lt(p + seq![x] + r, p),
{
    let b = p + seq![x] + r;
    lemma_units_lt_from_skip(p, b, 0, p.len() as int);
    lemma_units_lt_from_skip(b, p, 0, p.len() as int);
}

/// Compares two code-unit strings in lexicographic order.
pub fn units_less(a: &[u16], b: &[u16]) -> (lt: bool)
    ensures
        lt == units_lt(a@, b@),
{
    let mut i: usize = 0;
    while i < a.len() && i < b.len()
        invariant
            i <= a.len(),
            i <= b.len(),
            units_lt(a@, b@) == units_lt_from(a@, b@, i as int),
        decreases a.len() - i,
    {
        if a[i] != b[i] {
            return a[i] < b[i];
        }
        i = i + 1;
    }
    i == a.len() && i < b.len()
}

} // verus!
