//! Laws that relate the encoder and the scanner.
use crate::encode::{ado_value, appended, doubled, encode_pair, is_plain, needs_quoting, separator};
use crate::scanner::{finish, initial, key_of, run, scan, step, Flow, ScanView, State};
use crate::text::{is_ctrl, is_ws, lower_of, trim, trim_end, trim_start};
use vstd::prelude::*;

verus! {

/// A key that the scanner reads back as written under ADO.NET rules: not
/// empty, not beginning with `;`, `=` or whitespace, not ending with
/// whitespace, and with no control character that is not whitespace.
pub open spec fn plain_key(k: Seq<char>) -> bool {
    &&& k.len() > 0
    &&& k[0] != ';'
    &&& k[0] != '='
    &&& !is_ws(k[0])
    &&& !is_ws(k.last())
    &&& forall|i: int| 0 <= i < k.len() ==> !(is_ctrl(#[trigger] k[i]) && !is_ws(k[i]))
}

proof fn lemma_doubled_concat(a: Seq<char>, b: Seq<char>, q: char)
    ensures
        doubled(a + b, q) == doubled(a, q) + doubled(b, q),
    decreases b.len(),
{
    if b.len() == 0 {
        assert(a + b =~= a);
        assert(doubled(a, q) + doubled(b, q) =~= doubled(a, q));
    } else {
        let b2 = b.drop_last();
        lemma_doubled_concat(a, b2, q);
        assert((a + b).drop_last() =~= a + b2);
        assert((a + b).last() == b.last());
        assert(doubled(a + b, q) =~= doubled(a, q) + doubled(b, q));
    }
}

proof fn lemma_doubled_one(c: char, q: char)
    ensures
        doubled(seq![c], q) == if c == q {
            seq![q, q]
        } else {
            seq![c]
        },
{
    let one = seq![c];
    assert(one.len() == 1);
    assert(one.drop_last() =~= Seq::<char>::empty());
    assert(one.last() == c);
    assert(doubled(Seq::<char>::empty(), q) == Seq::<char>::empty());
    let piece = if c == q {
        seq![q, q]
    } else {
        seq![c]
    };
    assert(doubled(one, q) == doubled(one.drop_last(), q) + piece);
    assert(Seq::<char>::empty() + piece =~= piece);
}

proof fn lemma_doubled_absent(v: Seq<char>, q: char)
    requires
        !v.contains(q),
    ensures
        doubled(v, q) == v,
    decreases v.len(),
{
    if v.len() > 0 {
        assert(!v.drop_last().contains(q)) by {
            if v.drop_last().contains(q) {
                let i = choose|i: int| 0 <= i < v.drop_last().len() && v.drop_last()[i] == q;
                assert(v[i] == q);
            }
        }
        lemma_doubled_absent(v.drop_last(), q);
        assert(v.last() != q);
        assert(v.drop_last() + seq![v.last()] =~= v);
    }
}

/// Splits `doubled(k)` after its first `j` characters' share.
proof fn lemma_doubled_split(k: Seq<char>, j: int, q: char)
    requires
        0 <= j < k.len(),
    ensures
        doubled(k, q) == doubled(k.subrange(0, j), q) + (if k[j] == q {
            seq![q, q]
        } else {
            seq![k[j]]
        }) + doubled(k.subrange(j + 1, k.len() as int), q),
{
    let a = k.subrange(0, j);
    let b = k.subrange(j + 1, k.len() as int);
    assert(k =~= a + seq![k[j]] + b);
    lemma_doubled_concat(a + seq![k[j]], b, q);
    lemma_doubled_concat(a, seq![k[j]], q);
    lemma_doubled_one(k[j], q);
}

pub open spec fn key_scan(b: Seq<char>) -> ScanView {
    ScanView { state: State::Key, buf: b, key: Seq::empty(), value: Seq::empty() }
}

/// Scanning the escaped key from its `j`-th character on ends in `Key` with
/// the whole key buffered.
proof fn lemma_key_run(s: Seq<char>, k: Seq<char>, j: int)
    requires
        plain_key(k),
        1 <= j <= k.len(),
        s.len() > doubled(k, '=').len(),
        s.subrange(0, doubled(k, '=').len() as int) == doubled(k, '='),
    ensures
        run(s, doubled(k.subrange(0, j), '=').len() as int, key_scan(k.subrange(0, j)), false)
            == run(s, doubled(k, '=').len() as int, key_scan(k), false),
    decreases k.len() - j,
{
    if j == k.len() {
        assert(k.subrange(0, j) =~= k);
    } else {
        let d = doubled(k, '=');
        let a = k.subrange(0, j);
        let c = k[j];
        let p = doubled(a, '=').len() as int;
        lemma_doubled_split(k, j, '=');
        lemma_doubled_split(k.subrange(0, j + 1), j, '=');
        assert(k.subrange(0, j + 1).subrange(0, j) =~= a);
        assert(k.subrange(0, j + 1).subrange(j + 1, j + 1) =~= Seq::<char>::empty());
        assert(k.subrange(0, j + 1)[j] == c);
        assert(s[p] == d[p]);
        if c == '=' {
            assert(s[p + 1] == d[p + 1]);
            assert(a.push('=') =~= k.subrange(0, j + 1));
            let mid = ScanView { state: State::KeyEqual, buf: a, key: Seq::empty(), value: Seq::empty() };
            assert(step(key_scan(a), s[p], p as usize, false) == (mid, Flow::Next));
            assert(run(s, p, key_scan(a), false) == run(s, p + 1, mid, false));
            assert(step(mid, s[p + 1], (p + 1) as usize, false) == (
                key_scan(k.subrange(0, j + 1)),
                Flow::Next,
            ));
            assert(run(s, p + 1, mid, false) == run(s, p + 2, key_scan(k.subrange(0, j + 1)), false));
        } else {
            assert(a.push(c) =~= k.subrange(0, j + 1));
            assert(!(is_ctrl(k[j]) && !is_ws(k[j])));
            assert(step(key_scan(a), s[p], p as usize, false) == (
                key_scan(k.subrange(0, j + 1)),
                Flow::Next,
            ));
        }
        lemma_key_run(s, k, j + 1);
    }
}

pub open spec fn value_scan(state: State, b: Seq<char>, key: Seq<char>) -> ScanView {
    ScanView { state, buf: b, key, value: Seq::empty() }
}

/// Scanning the escaped value inside quotes from its `j`-th character on
/// buffers the whole value.
proof fn lemma_quoted_run(
    s: Seq<char>,
    base: int,
    v: Seq<char>,
    j: int,
    q: char,
    open: State,
    close: State,
    key: Seq<char>,
)
    requires
        (q == '"' && open == State::DoubleQuoteValue && close == State::DoubleQuoteValueQuote) || (q
            == '\'' && open == State::SingleQuoteValue && close == State::SingleQuoteValueQuote),
        0 <= j <= v.len(),
        !v.contains('\0'),
        0 <= base,
        s.len() >= base + doubled(v, q).len(),
        s.subrange(base, base + doubled(v, q).len()) == doubled(v, q),
    ensures
        run(s, base + doubled(v.subrange(0, j), q).len(), value_scan(open, v.subrange(0, j), key), false)
            == run(s, base + doubled(v, q).len(), value_scan(open, v, key), false),
    decreases v.len() - j,
{
    if j == v.len() {
        assert(v.subrange(0, j) =~= v);
    } else {
        let d = doubled(v, q);
        let a = v.subrange(0, j);
        let c = v[j];
        let p = base + doubled(a, q).len();
        lemma_doubled_split(v, j, q);
        lemma_doubled_split(v.subrange(0, j + 1), j, q);
        assert(v.subrange(0, j + 1).subrange(0, j) =~= a);
        assert(v.subrange(0, j + 1).subrange(j + 1, j + 1) =~= Seq::<char>::empty());
        assert(v.subrange(0, j + 1)[j] == c);
        assert(a.push(c) =~= v.subrange(0, j + 1));
        assert(s[p] == d[p - base]);
        if c == q {
            assert(s[p + 1] == d[p + 1 - base]);
            let mid = value_scan(close, a, key);
            assert(step(value_scan(open, a, key), s[p], p as usize, false) == (mid, Flow::Next));
            assert(run(s, p, value_scan(open, a, key), false) == run(s, p + 1, mid, false));
            assert(step(mid, s[p + 1], (p + 1) as usize, false) == (
                value_scan(open, v.subrange(0, j + 1), key),
                Flow::Next,
            ));
            assert(run(s, p + 1, mid, false) == run(
                s,
                p + 2,
                value_scan(open, v.subrange(0, j + 1), key),
                false,
            ));
        } else {
            assert(c != '\0') by {
                if c == '\0' {
                    assert(v.contains('\0'));
                }
            }
            assert(step(value_scan(open, a, key), s[p], p as usize, false) == (
                value_scan(open, v.subrange(0, j + 1), key),
                Flow::Next,
            ));
        }
        lemma_quoted_run(s, base, v, j + 1, q, open, close, key);
    }
}

/// Scanning an unquoted plain value from its `j`-th character on buffers the
/// whole value.
proof fn lemma_unquoted_run(s: Seq<char>, base: int, v: Seq<char>, j: int, key: Seq<char>)
    requires
        is_plain(v),
        0 <= j <= v.len(),
        0 <= base,
        s.len() >= base + v.len(),
        s.subrange(base, base + v.len()) == v,
    ensures
        run(s, base + j, value_scan(State::UnquotedValue, v.subrange(0, j), key), false) == run(
            s,
            base + v.len(),
            value_scan(State::UnquotedValue, v, key),
            false,
        ),
    decreases v.len() - j,
{
    if j == v.len() {
        assert(v.subrange(0, j) =~= v);
    } else {
        let c = v[j];
        assert(s[base + j] == c);
        assert(!needs_quoting(c));
        assert(v.subrange(0, j).push(c) =~= v.subrange(0, j + 1));
        assert(step(
            value_scan(State::UnquotedValue, v.subrange(0, j), key),
            s[base + j],
            (base + j) as usize,
            false,
        ) == (value_scan(State::UnquotedValue, v.subrange(0, j + 1), key), Flow::Next));
        lemma_unquoted_run(s, base, v, j + 1, key);
    }
}

pub open spec fn key_done(k: Seq<char>) -> ScanView {
    ScanView { state: State::KeyEqual, buf: k, key: Seq::empty(), value: Seq::empty() }
}

/// From just after the `=` that ends the key, scanning the escaped value
/// gives the pair back.
proof fn lemma_value_run(s: Seq<char>, q: int, k: Seq<char>, v: Seq<char>)
    requires
        k.len() > 0,
        key_of(k) == lower_of(k),
        lower_of(k).len() > 0,
        !v.contains('\0'),
        1 <= q <= s.len(),
        s.subrange(q, s.len() as int) == ado_value(v),
    ensures
        run(s, q, key_done(k), false) == Ok::<(Seq<char>, Seq<char>, int), usize>(
            (lower_of(k), v, s.len() as int),
        ),
{
    let key = lower_of(k);
    let val = ado_value(v);
    assert(s.len() == q + val.len());
    if v.len() == 0 {
        assert(is_plain(v));
        assert(val.len() == 0);
        assert(v =~= Seq::<char>::empty());
    } else if is_plain(v) {
        let c = v[0];
        assert(s[q] == val[0]);
        assert(!needs_quoting(c));
        assert(v.subrange(0, 1) =~= seq![c]);
        assert(Seq::<char>::empty().push(c) =~= seq![c]);
        assert(step(key_done(k), s[q], q as usize, false) == (
            value_scan(State::UnquotedValue, v.subrange(0, 1), key),
            Flow::Next,
        ));
        lemma_unquoted_run(s, q, v, 1, key);
        assert(!needs_quoting(v.last()));
        assert(!is_ws(v[0]));
        assert(trim_end(v) == v);
        assert(trim_start(v) == v);
        assert(trim(v) == v);
    } else if v.contains('"') && !v.contains('\'') {
        assert(val == seq!['\''] + v + seq!['\'']);
        assert(s[q] == val[0]);
        assert(val[0] == '\'');
        let open = value_scan(State::SingleQuoteValue, Seq::empty(), key);
        assert(step(key_done(k), s[q], q as usize, false) == (open, Flow::Next));
        lemma_doubled_absent(v, '\'');
        assert(v.subrange(0, 0) =~= Seq::<char>::empty());
        assert(doubled(Seq::<char>::empty(), '\'') == Seq::<char>::empty());
        assert forall|i: int| 0 <= i < v.len() implies s[q + 1 + i] == v[i] by {
            assert(s[q + 1 + i] == s.subrange(q, s.len() as int)[1 + i]);
            assert(val[1 + i] == v[i]);
        }
        assert(s.subrange(q + 1, q + 1 + v.len()) =~= v);
        lemma_quoted_run(
            s,
            q + 1,
            v,
            0,
            '\'',
            State::SingleQuoteValue,
            State::SingleQuoteValueQuote,
            key,
        );
        let last = q + 1 + v.len() as int;
        assert(s[last] == val[v.len() + 1 as int]);
        assert(step(value_scan(State::SingleQuoteValue, v, key), s[last], last as usize, false)
            == (value_scan(State::SingleQuoteValueQuote, v, key), Flow::Next));
        assert(run(s, last, value_scan(State::SingleQuoteValue, v, key), false) == run(
            s,
            last + 1,
            value_scan(State::SingleQuoteValueQuote, v, key),
            false,
        ));
    } else {
        let d = doubled(v, '"');
        assert(val == seq!['"'] + d + seq!['"']);
        assert(s[q] == val[0]);
        assert(val[0] == '"');
        let open = value_scan(State::DoubleQuoteValue, Seq::empty(), key);
        assert(step(key_done(k), s[q], q as usize, false) == (open, Flow::Next));
        assert(v.subrange(0, 0) =~= Seq::<char>::empty());
        assert(doubled(Seq::<char>::empty(), '"') == Seq::<char>::empty());
        assert forall|i: int| 0 <= i < d.len() implies s[q + 1 + i] == d[i] by {
            assert(s[q + 1 + i] == s.subrange(q, s.len() as int)[1 + i]);
            assert(val[1 + i] == d[i]);
        }
        assert(s.subrange(q + 1, q + 1 + d.len()) =~= d);
        lemma_quoted_run(
            s,
            q + 1,
            v,
            0,
            '"',
            State::DoubleQuoteValue,
            State::DoubleQuoteValueQuote,
            key,
        );
        let last = q + 1 + d.len() as int;
        assert(s[last] == val[d.len() + 1 as int]);
        assert(step(value_scan(State::DoubleQuoteValue, v, key), s[last], last as usize, false)
            == (value_scan(State::DoubleQuoteValueQuote, v, key), Flow::Next));
        assert(run(s, last, value_scan(State::DoubleQuoteValue, v, key), false) == run(
            s,
            last + 1,
            value_scan(State::DoubleQuoteValueQuote, v, key),
            false,
        ));
    }
}

/// Under ADO.NET rules, scanning the text that the encoder writes for a key
/// and a value gives back the key, lower-cased, and the value exactly, with
/// the whole text consumed: quoting and escaping undo themselves. This holds
/// for every key that `plain_key` accepts (lower-casing keeps it non-empty)
/// and every value free of NUL characters.
pub proof fn lemma_ado_round_trip(k: Seq<char>, v: Seq<char>)
    requires
        plain_key(k),
        lower_of(k).len() > 0,
        !v.contains('\0'),
    ensures
        scan(encode_pair(k, v, false), 0, false) == Ok::<
            Option<(Seq<char>, Seq<char>, int)>,
            usize,
        >(Some((lower_of(k), v, encode_pair(k, v, false).len() as int))),
{
    let s = encode_pair(k, v, false);
    let d = doubled(k, '=');
    let val = ado_value(v);
    assert(s == d + seq!['='] + val);
    let k0 = k[0];
    lemma_doubled_split(k, 0, '=');
    assert(k.subrange(0, 0) =~= Seq::<char>::empty());
    assert(doubled(Seq::<char>::empty(), '=') == Seq::<char>::empty());
    assert(d[0] == k0);
    assert(s[0] == k0);
    assert(!is_ctrl(k0)) by {
        assert(!(is_ctrl(k[0]) && !is_ws(k[0])));
    }
    assert(k.subrange(0, 1) =~= seq![k0]);
    assert(Seq::<char>::empty().push(k0) =~= seq![k0]);
    assert(step(initial(), s[0], 0, false) == (key_scan(k.subrange(0, 1)), Flow::Next));
    lemma_doubled_one(k0, '=');
    assert(doubled(k.subrange(0, 1), '=').len() == 1);
    assert(s.subrange(0, d.len() as int) =~= d);
    lemma_key_run(s, k, 1);
    let p = d.len() as int;
    assert(s[p] == '=');
    assert(step(key_scan(k), s[p], p as usize, false) == (key_done(k), Flow::Next));
    assert(run(s, p, key_scan(k), false) == run(s, p + 1, key_done(k), false));
    assert(trim_end(k) == k);
    assert(s.subrange(p + 1, s.len() as int) =~= val);
    lemma_value_run(s, p + 1, k, v);
}

/// Appending a pair writes the same text whether or not the connection
/// string already ends with the `;` that separates pairs; and under ADO.NET
/// rules a value that needs no quoting is written as it is.
pub proof fn lemma_append_separator(out: Seq<char>, k: Seq<char>, v: Seq<char>, odbc: bool)
    ensures
        out.len() > 0 && out.last() != ';' ==> appended(out, k, v, odbc) == appended(
            out.push(';'),
            k,
            v,
            odbc,
        ),
        is_plain(v) ==> appended(out, k, v, false) == out + separator(out) + doubled(k, '=')
            + seq!['='] + v,
{
    if out.len() > 0 && out.last() != ';' {
        assert(out.push(';').last() == ';');
        assert(separator(out.push(';')) =~= Seq::<char>::empty());
        assert(appended(out, k, v, odbc) =~= appended(out.push(';'), k, v, odbc));
    }
    if is_plain(v) {
        assert(appended(out, k, v, false) =~= out + separator(out) + doubled(k, '=') + seq!['=']
            + v);
    }
}

} // verus!
