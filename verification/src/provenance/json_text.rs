//! The text pieces of RFC 8785 JSON: escaped strings, UTF-16 code units, integer numerals.
use vstd::prelude::*;

verus! {

/// The lowercase hexadecimal digit of a value below 16.
pub open spec fn hex_digit(n: int) -> char {
    if n < 10 {
        (48 + n) as char
    } else {
        (87 + n) as char
    }
}

/// The decimal digit of a value below 10.
pub open spec fn decimal_digit(n: int) -> char {
    (48 + n) as char
}

/// How JSON writes one character inside a string (RFC 8785, as ECMAScript's
/// `JSON.stringify`): `"` and `\` and the five control characters with short forms are
/// escaped by a backslash, the other control characters as `\u00xx` in lowercase hex,
/// every other character as itself.
pub open spec fn char_escape(c: char) -> Seq<char> {
    let v = c as u32;
    if c == '"' {
        seq!['\\', '"']
    } else if c == '\\' {
        seq!['\\', '\\']
    } else if v == 8 {
        seq!['\\', 'b']
    } else if v == 12 {
        seq!['\\', 'f']
    } else if v == 10 {
        seq!['\\', 'n']
    } else if v == 13 {
        seq!['\\', 'r']
    } else if v == 9 {
        seq!['\\', 't']
    } else if v < 32 {
        seq!['\\', 'u', '0', '0', hex_digit(v as int / 16), hex_digit(v as int % 16)]
    } else {
        seq![c]
    }
}

/// The characters of `s`, each as JSON writes it inside a string.
pub open spec fn escaped(s: Seq<char>) -> Seq<char>
    decreases s.len(),
{
    if s.len() == 0 {
        Seq::empty()
    } else {
        char_escape(s[0]) + escaped(s.drop_first())
    }
}

/// The JSON string literal of `s`.
pub open spec fn json_string(s: Seq<char>) -> Seq<char> {
    seq!['"'] + escaped(s) + seq!['"']
}

pub proof fn lemma_escaped_concat(a: Seq<char>, b: Seq<char>)
    ensures
        escaped(a + b) == escaped(a) + escaped(b),
    decreases a.len(),
{
    if a.len() == 0 {
        assert(a + b =~= b);
    } else {
        assert((a + b).drop_first() =~= a.drop_first() + b);
        lemma_escaped_concat(a.drop_first(), b);
    }
}

pub proof fn lemma_escaped_push(a: Seq<char>, c: char)
    ensures
        escaped(a.push(c)) == escaped(a) + char_escape(c),
{
    lemma_escaped_concat(a, seq![c]);
    assert(a.push(c) =~= a + seq![c]);
    assert(seq![c].drop_first() =~= Seq::<char>::empty());
    assert(escaped(seq![c].drop_first()) =~= Seq::<char>::empty());
    assert(escaped(seq![c]) =~= char_escape(c));
}

/// No escape begins with a double quote.
pub proof fn lemma_char_escape_first(c: char)
    ensures
        char_escape(c).len() > 0,
        char_escape(c)[0] != '"',
        char_escape(c)[0] == '\\' <==> char_escape(c).len() > 1,
{
}

/// Escapes are a prefix-free code: the first escape of a text tells its character.
pub proof fn lemma_char_escape_split(c: char, p: Seq<char>, d: char, q: Seq<char>)
    requires
        char_escape(c) + p == char_escape(d) + q,
    ensures
        c == d,
        p == q,
{
    let x = char_escape(c) + p;
    let y = char_escape(d) + q;
    let ec = char_escape(c);
    let ed = char_escape(d);
    assert(x[0] == ec[0] && y[0] == ed[0]);
    if ec.len() > 1 && ed.len() > 1 {
        assert(x[1] == ec[1] && y[1] == ed[1]);
        if ec[1] == 'u' {
            assert(x[4] == ec[4] && y[4] == ed[4]);
            assert(x[5] == ec[5] && y[5] == ed[5]);
            let v = c as u32;
            let w = d as u32;
            assert(v == (v as int / 16) * 16 + v as int % 16);
            assert(w == (w as int / 16) * 16 + w as int % 16);
            assert(v == w);
            vstd::utf8::char_u32_cast(c, v);
            vstd::utf8::char_u32_cast(d, w);
        }
    } else if ec.len() == 1 && ed.len() == 1 {
    }
    assert(c == d);
    assert(p =~= x.subrange(ec.len() as int, x.len() as int));
    assert(q =~= y.subrange(ed.len() as int, y.len() as int));
}

/// An escaped text followed by a double quote tells the text and what follows.
pub proof fn lemma_escaped_split(a: Seq<char>, r1: Seq<char>, b: Seq<char>, r2: Seq<char>)
    requires
        escaped(a) + (seq!['"'] + r1) == escaped(b) + (seq!['"'] + r2),
    ensures
        a == b,
        r1 == r2,
    decreases a.len(),
{
    let x = escaped(a) + (seq!['"'] + r1);
    if a.len() == 0 {
        if b.len() > 0 {
            lemma_char_escape_first(b[0]);
            assert(x[0] == '"');
        }
        assert(escaped(a) =~= Seq::<char>::empty());
        assert(escaped(b) =~= Seq::<char>::empty());
        assert(x =~= seq!['"'] + r1);
        assert(r1 =~= x.drop_first());
        assert(r2 =~= (seq!['"'] + r2).drop_first());
    } else {
        lemma_char_escape_first(a[0]);
        if b.len() == 0 {
            assert(escaped(b) =~= Seq::<char>::empty());
            assert(x[0] == char_escape(a[0])[0]);
        } else {
            let ta = escaped(a.drop_first()) + (seq!['"'] + r1);
            let tb = escaped(b.drop_first()) + (seq!['"'] + r2);
            assert(x =~= char_escape(a[0]) + ta);
            assert(x =~= char_escape(b[0]) + tb);
            lemma_char_escape_split(a[0], ta, b[0], tb);
            lemma_escaped_split(a.drop_first(), r1, b.drop_first(), r2);
            assert(a =~= seq![a[0]] + a.drop_first());
            assert(b =~= seq![b[0]] + b.drop_first());
        }
    }
}

/// Distinct strings have distinct JSON string literals: the literal tells its string.
pub proof fn lemma_json_string_injective(a: Seq<char>, b: Seq<char>)
    requires
        json_string(a) == json_string(b),
    ensures
        a == b,
{
    let ea = escaped(a) + (seq!['"'] + Seq::<char>::empty());
    let eb = escaped(b) + (seq!['"'] + Seq::<char>::empty());
    assert(ea =~= json_string(a).drop_first());
    assert(eb =~= json_string(b).drop_first());
    lemma_escaped_split(a, Seq::<char>::empty(), b, Seq::<char>::empty());
}

/// A character that JSON writes as itself: from U+0020 on, neither a quote nor a backslash.
pub open spec fn is_plain_char(c: char) -> bool {
    (c as u32) >= 32 && c != '"' && c != '\\'
}

/// Every character from U+0020 on other than `"` and `\` is written as itself.
pub proof fn lemma_plain_char_unescaped(c: char)
    requires
        is_plain_char(c),
    ensures
        char_escape(c) == seq![c],
{
}

/// A text without quotes, backslashes or control characters is written as it is.
pub proof fn lemma_plain_text_unescaped(s: Seq<char>)
    requires
        forall|i: int| 0 <= i < s.len() ==> is_plain_char(#[trigger] s[i]),
    ensures
        escaped(s) == s,
    decreases s.len(),
{
    if s.len() > 0 {
        lemma_plain_char_unescaped(s[0]);
        assert forall|i: int| 0 <= i < s.drop_first().len() implies is_plain_char(#[trigger] s.drop_first()[i]) by {
            assert(s.drop_first()[i] == s[i + 1]);
        }
        lemma_plain_text_unescaped(s.drop_first());
        assert(s =~= seq![s[0]] + s.drop_first());
    }
}

/// The value of a lowercase hexadecimal digit character.
pub open spec fn hex_value(d: char) -> int {
    if '0' <= d && d <= '9' {
        d as int - 48
    } else if 'a' <= d && d <= 'f' {
        d as int - 87
    } else {
        -1
    }
}

/// How control characters, quotes and backslashes are written (RFC 8785): a backslash, then
/// the short form for quote, backslash, backspace, form feed, line feed, carriage return and
/// tab, and for every other character below U+0020 `u00` and two lowercase hex digits whose
/// value is the character's.
pub proof fn lemma_special_char_escape(c: char)
    requires
        !is_plain_char(c),
    ensures
        char_escape(c)[0] == '\\',
        c == '"' ==> char_escape(c) == seq!['\\', '"'],
        c == '\\' ==> char_escape(c) == seq!['\\', '\\'],
        c as u32 == 8 ==> char_escape(c) == seq!['\\', 'b'],
        c as u32 == 9 ==> char_escape(c) == seq!['\\', 't'],
        c as u32 == 10 ==> char_escape(c) == seq!['\\', 'n'],
        c as u32 == 12 ==> char_escape(c) == seq!['\\', 'f'],
        c as u32 == 13 ==> char_escape(c) == seq!['\\', 'r'],
        (c as u32) < 32 && c as u32 != 8 && c as u32 != 9 && c as u32 != 10 && c as u32 != 12
            && c as u32 != 13 ==> {
            let e = char_escape(c);
            &&& e.len() == 6
            &&& e[1] == 'u' && e[2] == '0' && e[3] == '0'
            &&& 16 * hex_value(e[4]) + hex_value(e[5]) == c as u32
        },
{
    let v = c as u32;
    if v < 32 && v != 8 && v != 9 && v != 10 && v != 12 && v != 13 {
        let hi = v as int / 16;
        let lo = v as int % 16;
        assert(hex_value(hex_digit(hi)) == hi);
        assert(hex_value(hex_digit(lo)) == lo);
    }
}

/// The UTF-16 code units of one character.
pub open spec fn char_utf16(c: char) -> Seq<u16> {
    let v = c as u32;
    if v < 0x10000 {
        seq![v as u16]
    } else {
        seq![(0xD800 + (v - 0x10000) / 0x400) as u16, (0xDC00 + (v - 0x10000) % 0x400) as u16]
    }
}

/// The UTF-16 encoding of a text.
pub open spec fn encode_utf16(s: Seq<char>) -> Seq<u16>
    decreases s.len(),
{
    if s.len() == 0 {
        Seq::empty()
    } else {
        char_utf16(s[0]) + encode_utf16(s.drop_first())
    }
}

pub proof fn lemma_utf16_concat(a: Seq<char>, b: Seq<char>)
    ensures
        encode_utf16(a + b) == encode_utf16(a) + encode_utf16(b),
    decreases a.len(),
{
    if a.len() == 0 {
        assert(a + b =~= b);
    } else {
        assert((a + b).drop_first() =~= a.drop_first() + b);
        lemma_utf16_concat(a.drop_first(), b);
    }
}

proof fn lemma_char_utf16_split(c: char, p: Seq<u16>, d: char, q: Seq<u16>)
    requires
        char_utf16(c) + p == char_utf16(d) + q,
    ensures
        c == d,
        p == q,
{
    vstd::utf8::char_is_scalar(c);
    vstd::utf8::char_is_scalar(d);
    let v = c as u32;
    let w = d as u32;
    let x = char_utf16(c) + p;
    let y = char_utf16(d) + q;
    assert(x[0] == char_utf16(c)[0] && y[0] == char_utf16(d)[0]);
    if v >= 0x10000 && w >= 0x10000 {
        assert(x[1] == char_utf16(c)[1] && y[1] == char_utf16(d)[1]);
        let dv = (v - 0x10000) as int;
        let dw = (w - 0x10000) as int;
        assert(dv == (dv / 0x400) * 0x400 + dv % 0x400);
        assert(dw == (dw / 0x400) * 0x400 + dw % 0x400);
    }
    assert(v == w);
    vstd::utf8::char_u32_cast(c, v);
    vstd::utf8::char_u32_cast(d, w);
    let n = char_utf16(c).len() as int;
    assert(p =~= x.subrange(n, x.len() as int));
    assert(q =~= y.subrange(n, y.len() as int));
}

/// Distinct texts have distinct UTF-16 encodings.
pub proof fn lemma_utf16_injective(a: Seq<char>, b: Seq<char>)
    requires
        encode_utf16(a) == encode_utf16(b),
    ensures
        a == b,
    decreases a.len(),
{
    if a.len() > 0 && b.len() > 0 {
        lemma_char_utf16_split(a[0], encode_utf16(a.drop_first()), b[0], encode_utf16(b.drop_first()));
        lemma_utf16_injective(a.drop_first(), b.drop_first());
        assert(a =~= seq![a[0]] + a.drop_first());
        assert(b =~= seq![b[0]] + b.drop_first());
    } else if a.len() > 0 {
        assert(encode_utf16(a).len() > 0);
    } else if b.len() > 0 {
        assert(encode_utf16(b).len() > 0);
    } else {
        assert(a =~= b);
    }
}

/// The decimal numeral of a natural number.
pub open spec fn decimal_digits(n: nat) -> Seq<char>
    decreases n,
{
    if n < 10 {
        seq![decimal_digit(n as int)]
    } else {
        decimal_digits(n / 10) + seq![decimal_digit(n as int % 10)]
    }
}

/// The decimal numeral of an integer, with `-` before a negative one.
pub open spec fn decimal(n: int) -> Seq<char> {
    if n < 0 {
        seq!['-'] + decimal_digits((-n) as nat)
    } else {
        decimal_digits(n as nat)
    }
}

/// Appends a literal to `out`.
pub fn push_str(out: &mut String, s: &str)
    ensures
        final(out)@ == old(out)@ + s@,
{
    out.append(s);
}

fn push_hex_digit(out: &mut String, d: u32)
    requires
        d < 16,
    ensures
        final(out)@ == old(out)@ + seq![hex_digit(d as int)],
{
    let digits = "0123456789abcdef";
    proof {
        reveal_strlit("0123456789abcdef");
    }
    let piece = digits.substring_char(d as usize, d as usize + 1);
    proof {
        assert(piece@ =~= seq![digits@[d as int]]);
        assert(digits@[d as int] == hex_digit(d as int));
    }
    push_str(out, piece);
}

fn push_decimal_digit(out: &mut String, d: u64)
    requires
        d < 10,
    ensures
        final(out)@ == old(out)@ + seq![decimal_digit(d as int)],
{
    let digits = "0123456789";
    proof {
        reveal_strlit("0123456789");
    }
    let piece = digits.substring_char(d as usize, d as usize + 1);
    proof {
        assert(piece@ =~= seq![digits@[d as int]]);
        assert(digits@[d as int] == decimal_digit(d as int));
    }
    push_str(out, piece);
}

fn push_digits(out: &mut String, n: u64)
    ensures
        final(out)@ == old(out)@ + decimal_digits(n as nat),
    decreases n,
{
    if n >= 10 {
        push_digits(out, n / 10);
    }
    push_decimal_digit(out, n % 10);
    proof {
        if n >= 10 {
            assert(decimal_digits(n as nat) == decimal_digits((n / 10) as nat) + seq![decimal_digit(n as int % 10)]);
        } else {
            assert(decimal_digits(n as nat) == seq![decimal_digit(n as int)]);
        }
    }
}

/// Appends the decimal numeral of `n`.
pub fn push_decimal(out: &mut String, n: i64)
    requires
        n > i64::MIN,
    ensures
        final(out)@ == old(out)@ + decimal(n as int),
{
    if n < 0 {
        push_str(out, "-");
        proof {
            reveal_strlit("-");
        }
        push_digits(out, (-n) as u64);
        proof {
            assert(final(out)@ =~= old(out)@ + decimal(n as int));
        }
    } else {
        push_digits(out, n as u64);
    }
}

/// Appends `s` with every character as JSON writes it inside a string.
pub fn push_escaped(out: &mut String, s: &str)
    ensures
        final(out)@ == old(out)@ + escaped(s@),
{
    let n = s.unicode_len();
    let ghost start = out@;
    proof {
        assert(s@.take(0) =~= Seq::<char>::empty());
        reveal_strlit("\\\"");
        reveal_strlit("\\\\");
        reveal_strlit("\\b");
        reveal_strlit("\\f");
        reveal_strlit("\\n");
        reveal_strlit("\\r");
        reveal_strlit("\\t");
        reveal_strlit("\\u00");
        assert("\\\""@ =~= seq!['\\', '"']);
        assert("\\\\"@ =~= seq!['\\', '\\']);
        assert("\\b"@ =~= seq!['\\', 'b']);
        assert("\\f"@ =~= seq!['\\', 'f']);
        assert("\\n"@ =~= seq!['\\', 'n']);
        assert("\\r"@ =~= seq!['\\', 'r']);
        assert("\\t"@ =~= seq!['\\', 't']);
        assert("\\u00"@ =~= seq!['\\', 'u', '0', '0']);
    }
    let mut i: usize = 0;
    while i < n
        invariant
            n == s@.len(),
            i <= n,
            out@ == start + escaped(s@.take(i as int)),
            "\\\""@ == seq!['\\', '"'],
            "\\\\"@ == seq!['\\', '\\'],
            "\\b"@ == seq!['\\', 'b'],
            "\\f"@ == seq!['\\', 'f'],
            "\\n"@ == seq!['\\', 'n'],
            "\\r"@ == seq!['\\', 'r'],
            "\\t"@ == seq!['\\', 't'],
            "\\u00"@ == seq!['\\', 'u', '0', '0'],
        decreases n - i,
    {
        let c = s.get_char(i);
        let v = c as u32;
        let ghost before = out@;
        if c == '"' {
            push_str(out, "\\\"");
        } else if c == '\\' {
            push_str(out, "\\\\");
        } else if v == 8 {
            push_str(out, "\\b");
        } else if v == 12 {
            push_str(out, "\\f");
        } else if v == 10 {
            push_str(out, "\\n");
        } else if v == 13 {
            push_str(out, "\\r");
        } else if v == 9 {
            push_str(out, "\\t");
        } else if v < 32 {
            push_str(out, "\\u00");
            push_hex_digit(out, v / 16);
            push_hex_digit(out, v % 16);
        } else {
            let piece = s.substring_char(i, i + 1);
            proof {
                assert(piece@ =~= seq![c]);
            }
            push_str(out, piece);
        }
        proof {
            assert(out@ =~= before + char_escape(c));
            assert(s@.take(i + 1) =~= s@.take(i as int).push(c));
            lemma_escaped_push(s@.take(i as int), c);
        }
        i = i + 1;
    }
    proof {
        assert(s@.take(n as int) =~= s@);
    }
}

/// The UTF-16 code units of `s`.
pub fn utf16_units(s: &str) -> (units: Vec<u16>)
    ensures
        units@ == encode_utf16(s@),
{
    let n = s.unicode_len();
    let mut units: Vec<u16> = Vec::new();
    proof {
        assert(s@.take(0) =~= Seq::<char>::empty());
    }
    let mut i: usize = 0;
    while i < n
        invariant
            n == s@.len(),
            i <= n,
            units@ == encode_utf16(s@.take(i as int)),
        decreases n - i,
    {
        let c = s.get_char(i);
        let v = c as u32;
        proof {
            vstd::utf8::char_is_scalar(c);
        }
        if v < 0x10000 {
            units.push(v as u16);
        } else {
            units.push((0xD800 + (v - 0x10000) / 0x400) as u16);
            units.push((0xDC00 + (v - 0x10000) % 0x400) as u16);
        }
        proof {
            assert(s@.take(i + 1) =~= s@.take(i as int) + seq![c]);
            lemma_utf16_concat(s@.take(i as int), seq![c]);
            assert(seq![c].drop_first() =~= Seq::<char>::empty());
            assert(encode_utf16(seq![c].drop_first()) =~= Seq::<u16>::empty());
            assert(encode_utf16(seq![c]) =~= char_utf16(c));
            assert(units@ =~= encode_utf16(s@.take(i as int)) + char_utf16(c));
        }
        i = i + 1;
    }
    proof {
        assert(s@.take(n as int) =~= s@);
    }
    units
}

} // verus!
