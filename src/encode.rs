//! Encoding one key and value into a connection string.
use crate::text::{
    chars_of, is_control, is_ctrl, is_whitespace, is_ws, lower_of, lowercase, push_char, push_chars,
};
use vstd::prelude::*;

verus! {

/// A character that cannot stand in an unquoted value.
pub open spec fn needs_quoting(c: char) -> bool {
    c == '"' || c == '\'' || c == '=' || c == ';' || is_ws(c) || is_ctrl(c)
}

/// A value that may be written without quotes under ADO.NET rules:
/// `^[^"'=;\s\p{Cc}]*$`.
pub open spec fn is_plain(v: Seq<char>) -> bool {
    forall|i: int| 0 <= i < v.len() ==> !needs_quoting(#[trigger] v[i])
}

/// `t` is a sequence of characters other than `}` and of `}}` pairs.
pub open spec fn brace_body(t: Seq<char>) -> bool
    decreases t.len(),
{
    if t.len() == 0 {
        true
    } else if t[0] != '}' {
        brace_body(t.drop_first())
    } else if t.len() >= 2 && t[1] == '}' {
        brace_body(t.subrange(2, t.len() as int))
    } else {
        false
    }
}

/// A value already quoted under ODBC rules: `^\{([^}]|\}\})*\}$`.
pub open spec fn is_braced(v: Seq<char>) -> bool {
    &&& v.len() >= 2
    &&& v[0] == '{'
    &&& v.last() == '}'
    &&& brace_body(v.subrange(1, v.len() - 1))
}

/// `s` with each `q` written twice.
pub open spec fn doubled(s: Seq<char>, q: char) -> Seq<char>
    decreases s.len(),
{
    if s.len() == 0 {
        Seq::empty()
    } else {
        doubled(s.drop_last(), q) + if s.last() == q {
            seq![q, q]
        } else {
            seq![s.last()]
        }
    }
}

pub open spec fn driver_word() -> Seq<char> {
    seq!['d', 'r', 'i', 'v', 'e', 'r']
}

/// Whether an ODBC value must be put in braces, `folded` being the value
/// lower-cased.
pub open spec fn needs_braces(v: Seq<char>, folded: Seq<char>) -> bool {
    &&& v.len() > 0
    &&& (v[0] == '{' || v.contains(';') || folded == driver_word())
    &&& !is_braced(v)
}

pub open spec fn odbc_value(v: Seq<char>) -> Seq<char> {
    if needs_braces(v, lower_of(v)) {
        seq!['{'] + doubled(v, '}') + seq!['}']
    } else {
        v
    }
}

pub open spec fn ado_value(v: Seq<char>) -> Seq<char> {
    if is_plain(v) {
        v
    } else if v.contains('"') && !v.contains('\'') {
        seq!['\''] + v + seq!['\'']
    } else {
        seq!['"'] + doubled(v, '"') + seq!['"']
    }
}

/// The `;` written before a pair: none at the start or after a `;`.
pub open spec fn separator(out: Seq<char>) -> Seq<char> {
    if out.len() > 0 && out.last() != ';' {
        seq![';']
    } else {
        Seq::empty()
    }
}

/// The text of one pair.
pub open spec fn encode_pair(k: Seq<char>, v: Seq<char>, odbc: bool) -> Seq<char> {
    if odbc {
        k + seq!['='] + odbc_value(v)
    } else {
        doubled(k, '=') + seq!['='] + ado_value(v)
    }
}

/// What appending the pair `k`, `v` to `out` gives.
pub open spec fn appended(out: Seq<char>, k: Seq<char>, v: Seq<char>, odbc: bool) -> Seq<char> {
    out + separator(out) + encode_pair(k, v, odbc)
}

proof fn lemma_doubled_step(s: Seq<char>, i: int, q: char)
    requires
        0 <= i < s.len(),
    ensures
        doubled(s.subrange(0, i + 1), q) == doubled(s.subrange(0, i), q) + if s[i] == q {
            seq![q, q]
        } else {
            seq![s[i]]
        },
{
    assert(s.subrange(0, i + 1).drop_last() =~= s.subrange(0, i));
}

fn push_doubled(out: &mut String, v: &Vec<char>, q: char)
    ensures
        final(out)@ == old(out)@ + doubled(v@, q),
{
    let ghost start = out@;
    let mut i: usize = 0;
    assert(doubled(v@.subrange(0, 0), q) =~= Seq::empty());
    assert(out@ =~= start + doubled(v@.subrange(0, 0), q));
    while i < v.len()
        invariant
            i <= v@.len(),
            out@ == start + doubled(v@.subrange(0, i as int), q),
        decreases v@.len() - i,
    {
        proof {
            lemma_doubled_step(v@, i as int, q);
        }
        if v[i] == q {
            push_char(out, q);
        }
        push_char(out, v[i]);
        i = i + 1;
        assert(out@ =~= start + doubled(v@.subrange(0, i as int), q));
    }
    assert(v@.subrange(0, v@.len() as int) =~= v@);
}

fn contains_char(v: &Vec<char>, c: char) -> (r: bool)
    ensures
        r == v@.contains(c),
{
    let mut i: usize = 0;
    while i < v.len()
        invariant
            i <= v@.len(),
            forall|j: int| 0 <= j < i ==> v@[j] != c,
        decreases v@.len() - i,
    {
        if v[i] == c {
            assert(v@[i as int] == c);
            return true;
        }
        i = i + 1;
    }
    false
}

/// Whether `s` may be written without quotes under ADO.NET rules.
pub fn quote_value_match(s: &str) -> (r: bool)
    ensures
        r == is_plain(s@),
{
    let v = chars_of(s);
    let mut i: usize = 0;
    while i < v.len()
        invariant
            v@ == s@,
            i <= v@.len(),
            forall|j: int| 0 <= j < i ==> !needs_quoting(#[trigger] v@[j]),
        decreases v@.len() - i,
    {
        let c = v[i];
        if c == '"' || c == '\'' || c == '=' || c == ';' || is_whitespace(c) || is_control(c) {
            assert(needs_quoting(v@[i as int]));
            return false;
        }
        i = i + 1;
    }
    true
}

/// Whether `s` is already quoted under ODBC rules.
pub fn quote_odbc_value_match(s: &str) -> (r: bool)
    ensures
        r == is_braced(s@),
{
    let v = chars_of(s);
    let n = v.len();
    if n < 2 || v[0] != '{' || v[n - 1] != '}' {
        return false;
    }
    let ghost body = v@.subrange(1, n - 1);
    let mut j: usize = 1;
    assert(body.subrange(0, body.len() as int) =~= body);
    while j < n - 1
        invariant
            v@ == s@,
            n == v@.len(),
            n >= 2,
            body == v@.subrange(1, n - 1),
            1 <= j <= n - 1,
            brace_body(body) == brace_body(body.subrange(j - 1, body.len() as int)),
        decreases n - j,
    {
        let ghost t = body.subrange(j - 1, body.len() as int);
        if v[j] != '}' {
            assert(t.drop_first() =~= body.subrange(j as int, body.len() as int));
            j = j + 1;
        } else if j + 1 < n - 1 && v[j + 1] == '}' {
            assert(t.subrange(2, t.len() as int) =~= body.subrange(j + 1, body.len() as int));
            j = j + 2;
        } else {
            return false;
        }
    }
    true
}

/// Whether an ODBC value must be put in braces, `folded` being the value
/// lower-cased.
pub fn odbc_needs_braces(value: &str, folded: &str) -> (r: bool)
    ensures
        r == needs_braces(value@, folded@),
{
    let v = chars_of(value);
    let f = chars_of(folded);
    if v.len() == 0 {
        return false;
    }
    let driver = f.len() == 6 && f[0] == 'd' && f[1] == 'r' && f[2] == 'i' && f[3] == 'v' && f[4]
        == 'e' && f[5] == 'r';
    assert(driver == (f@ == driver_word())) by {
        if f@.len() == 6 && f@[0] == 'd' && f@[1] == 'r' && f@[2] == 'i' && f@[3] == 'v' && f@[4]
            == 'e' && f@[5] == 'r' {
            assert(f@ =~= driver_word());
        }
    }
    (v[0] == '{' || contains_char(&v, ';') || driver) && !quote_odbc_value_match(value)
}

fn push_separator(out: &mut String)
    ensures
        final(out)@ == old(out)@ + separator(old(out)@),
{
    let so_far = chars_of(out.as_str());
    if so_far.len() > 0 && so_far[so_far.len() - 1] != ';' {
        push_char(out, ';');
    } else {
        assert(out@ =~= out@ + separator(out@));
    }
}

fn push_odbc_value(out: &mut String, value: &str)
    ensures
        final(out)@ == old(out)@ + odbc_value(value@),
{
    let v = chars_of(value);
    let folded = lowercase(value);
    if odbc_needs_braces(value, folded.as_str()) {
        let ghost start = out@;
        push_char(out, '{');
        push_doubled(out, &v, '}');
        push_char(out, '}');
        assert(out@ =~= start + odbc_value(value@));
    } else {
        push_chars(out, &v);
    }
}

fn push_ado_value(out: &mut String, value: &str)
    ensures
        final(out)@ == old(out)@ + ado_value(value@),
{
    let v = chars_of(value);
    let ghost start = out@;
    if quote_value_match(value) {
        push_chars(out, &v);
    } else if contains_char(&v, '"') && !contains_char(&v, '\'') {
        push_char(out, '\'');
        push_chars(out, &v);
        push_char(out, '\'');
        assert(out@ =~= start + ado_value(value@));
    } else {
        push_char(out, '"');
        push_doubled(out, &v, '"');
        push_char(out, '"');
        assert(out@ =~= start + ado_value(value@));
    }
}

/// Appends the pair `key`, `value` to the connection string `out`, with a `;`
/// before it unless `out` is empty or already ends with one, quoting the key
/// and the value as the dialect asks.
pub fn append_key_value(out: &mut String, key: &str, value: &str, use_odbc_rules: bool)
    ensures
        final(out)@ == appended(old(out)@, key@, value@, use_odbc_rules),
{
    let ghost start = out@;
    push_separator(out);
    let k = chars_of(key);
    if use_odbc_rules {
        push_chars(out, &k);
    } else {
        push_doubled(out, &k, '=');
    }
    push_char(out, '=');
    if use_odbc_rules {
        push_odbc_value(out, value);
    } else {
        push_ado_value(out, value);
    }
    assert(out@ =~= appended(start, key@, value@, use_odbc_rules));
}

} // verus!
