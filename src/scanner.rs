//! The key/value scanner: a state machine fed one character at a time.
//!
//! Each state has a handler that says what one character does to the scanner.
//! Where a state hands the same character on to the next state without
//! consuming it, its handler calls the next state's handler.
use crate::error::Error;
use crate::text::{
    is_control, is_ctrl, is_whitespace, is_ws, lower_of, lowercase, string_of, trim,
    trim_chars, trim_end, trim_end_chars,
};
use vstd::prelude::*;

verus! {

/// Where the scanner stands within one `key=value` pair.
#[derive(Clone, Copy, Debug, PartialEq, Eq, Structural)]
pub enum State {
    NothingYet,
    Key,
    KeyEqual,
    KeyEnd,
    UnquotedValue,
    DoubleQuoteValue,
    DoubleQuoteValueQuote,
    SingleQuoteValue,
    SingleQuoteValueQuote,
    BraceQuoteValue,
    BraceQuoteValueQuote,
    QuotedValueEnd,
    NullTermination,
}

/// What the scanner does after one character.
#[derive(Clone, Copy, Debug, PartialEq, Eq, Structural)]
pub enum Flow {
    /// Go on with the next character.
    Next,
    /// The pair ends at this character, which is consumed.
    Stop,
    /// A syntax error at this character index.
    Fail(usize),
}

/// The scanner's contents as mathematical values.
pub struct ScanView {
    pub state: State,
    pub buf: Seq<char>,
    pub key: Seq<char>,
    pub value: Seq<char>,
}

impl ScanView {
    pub open spec fn goto(self, state: State) -> ScanView {
        ScanView { state, buf: self.buf, key: self.key, value: self.value }
    }

    pub open spec fn push(self, state: State, c: char) -> ScanView {
        ScanView { state, buf: self.buf.push(c), key: self.key, value: self.value }
    }
}

pub open spec fn initial() -> ScanView {
    ScanView {
        state: State::NothingYet,
        buf: Seq::empty(),
        key: Seq::empty(),
        value: Seq::empty(),
    }
}

pub open spec fn on_nothing_yet(sc: ScanView, c: char, i: usize, odbc: bool) -> (ScanView, Flow) {
    if c == ';' || is_ws(c) {
        (sc, Flow::Next)
    } else if c == '\0' {
        (sc.goto(State::NullTermination), Flow::Next)
    } else if is_ctrl(c) {
        (sc, Flow::Fail(i))
    } else if c == '=' {
        on_key_equal(sc.goto(State::KeyEqual), c, i, odbc)
    } else {
        (sc.push(State::Key, c), Flow::Next)
    }
}

pub open spec fn on_key(sc: ScanView, c: char, i: usize) -> (ScanView, Flow) {
    if c == '=' {
        (sc.goto(State::KeyEqual), Flow::Next)
    } else if !is_ws(c) && is_ctrl(c) {
        (sc, Flow::Fail(i))
    } else {
        (sc.push(State::Key, c), Flow::Next)
    }
}

/// The key as it is stored: its trailing whitespace trimmed, then lower-cased.
pub open spec fn key_of(buf: Seq<char>) -> Seq<char> {
    lower_of(trim_end(buf))
}

pub open spec fn on_key_equal(sc: ScanView, c: char, i: usize, odbc: bool) -> (ScanView, Flow) {
    if !odbc && c == '=' {
        (sc.push(State::Key, c), Flow::Next)
    } else if key_of(sc.buf).len() == 0 {
        (sc, Flow::Fail(i))
    } else {
        on_key_end(
            ScanView {
                state: State::KeyEnd,
                buf: Seq::empty(),
                key: key_of(sc.buf),
                value: sc.value,
            },
            c,
            i,
            odbc,
        )
    }
}

pub open spec fn on_key_end(sc: ScanView, c: char, i: usize, odbc: bool) -> (ScanView, Flow) {
    if is_ws(c) {
        (sc, Flow::Next)
    } else if odbc && c == '{' {
        (sc.push(State::BraceQuoteValue, c), Flow::Next)
    } else if !odbc && c == '\'' {
        (sc.goto(State::SingleQuoteValue), Flow::Next)
    } else if !odbc && c == '"' {
        (sc.goto(State::DoubleQuoteValue), Flow::Next)
    } else if c == ';' || c == '\0' {
        (sc, Flow::Stop)
    } else if is_ctrl(c) {
        (sc, Flow::Fail(i))
    } else {
        (sc.push(State::UnquotedValue, c), Flow::Next)
    }
}

pub open spec fn on_unquoted_value(sc: ScanView, c: char) -> (ScanView, Flow) {
    if !is_ws(c) && (is_ctrl(c) || c == ';') {
        (sc, Flow::Stop)
    } else {
        (sc.push(State::UnquotedValue, c), Flow::Next)
    }
}

/// Inside a value quoted by `q`; `closing` is the state after a `q`.
pub open spec fn on_quoted_value(sc: ScanView, c: char, i: usize, q: char, closing: State) -> (
    ScanView,
    Flow,
) {
    if c == q {
        (sc.goto(closing), Flow::Next)
    } else if c == '\0' {
        (sc, Flow::Fail(i))
    } else {
        (sc.push(sc.state, c), Flow::Next)
    }
}

/// Just after a `q` inside a quoted value: a second `q` is a literal one and
/// the value goes on in `reopen`; anything else closes the value.
pub open spec fn on_quoted_value_quote(
    sc: ScanView,
    c: char,
    i: usize,
    q: char,
    reopen: State,
) -> (ScanView, Flow) {
    if c == q {
        (sc.push(reopen, c), Flow::Next)
    } else {
        on_quoted_value_end(
            ScanView { state: State::QuotedValueEnd, buf: sc.buf, key: sc.key, value: sc.buf },
            c,
            i,
        )
    }
}

/// Inside a brace-quoted value; the braces stay in the buffer.
pub open spec fn on_brace_quote_value(sc: ScanView, c: char, i: usize) -> (ScanView, Flow) {
    if c == '}' {
        (sc.push(State::BraceQuoteValueQuote, c), Flow::Next)
    } else if c == '\0' {
        (sc, Flow::Fail(i))
    } else {
        (sc.push(State::BraceQuoteValue, c), Flow::Next)
    }
}

pub open spec fn on_quoted_value_end(sc: ScanView, c: char, i: usize) -> (ScanView, Flow) {
    if is_ws(c) {
        (sc, Flow::Next)
    } else if c == ';' {
        (sc, Flow::Stop)
    } else if c == '\0' {
        (sc.goto(State::NullTermination), Flow::Next)
    } else {
        (sc, Flow::Fail(i))
    }
}

pub open spec fn on_null_termination(sc: ScanView, c: char, i: usize) -> (ScanView, Flow) {
    if c == '\0' || is_ws(c) {
        (sc, Flow::Next)
    } else {
        (sc, Flow::Fail(i))
    }
}

/// What the character `c`, at index `i`, does to the scanner.
pub open spec fn step(sc: ScanView, c: char, i: usize, odbc: bool) -> (ScanView, Flow) {
    match sc.state {
        State::NothingYet => on_nothing_yet(sc, c, i, odbc),
        State::Key => on_key(sc, c, i),
        State::KeyEqual => on_key_equal(sc, c, i, odbc),
        State::KeyEnd => on_key_end(sc, c, i, odbc),
        State::UnquotedValue => on_unquoted_value(sc, c),
        State::DoubleQuoteValue => on_quoted_value(sc, c, i, '"', State::DoubleQuoteValueQuote),
        State::DoubleQuoteValueQuote => on_quoted_value_quote(
            sc,
            c,
            i,
            '"',
            State::DoubleQuoteValue,
        ),
        State::SingleQuoteValue => on_quoted_value(sc, c, i, '\'', State::SingleQuoteValueQuote),
        State::SingleQuoteValueQuote => on_quoted_value_quote(
            sc,
            c,
            i,
            '\'',
            State::SingleQuoteValue,
        ),
        State::BraceQuoteValue => on_brace_quote_value(sc, c, i),
        State::BraceQuoteValueQuote => on_quoted_value_quote(
            sc,
            c,
            i,
            '}',
            State::BraceQuoteValue,
        ),
        State::QuotedValueEnd => on_quoted_value_end(sc, c, i),
        State::NullTermination => on_null_termination(sc, c, i),
    }
}

/// The pair that the scanner holds when the pair ends, `i` being the index of
/// the last character consumed; or the index of a syntax error.
pub open spec fn finish(sc: ScanView, i: usize, odbc: bool) -> Result<
    (Seq<char>, Seq<char>),
    usize,
> {
    match sc.state {
        State::Key | State::DoubleQuoteValue | State::SingleQuoteValue | State::BraceQuoteValue => Err(
            i,
        ),
        State::KeyEqual => if sc.buf.len() == 0 {
            Err(i)
        } else {
            Ok((key_of(sc.buf), sc.value))
        },
        State::UnquotedValue => {
            let v = trim(sc.buf);
            if !odbc && v.len() > 0 && (v.last() == '\'' || v.last() == '"') {
                Err(i)
            } else {
                Ok((sc.key, v))
            }
        },
        State::DoubleQuoteValueQuote
        | State::SingleQuoteValueQuote
        | State::BraceQuoteValueQuote
        | State::QuotedValueEnd => Ok((sc.key, sc.buf)),
        State::NothingYet | State::KeyEnd | State::NullTermination => Ok((sc.key, sc.value)),
    }
}

/// Feeds `s` from index `i` on to the scanner `sc`: the key, the value and the
/// index after the pair, or the index of a syntax error.
pub open spec fn run(s: Seq<char>, i: int, sc: ScanView, odbc: bool) -> Result<
    (Seq<char>, Seq<char>, int),
    usize,
>
    decreases s.len() - i,
{
    if i >= s.len() {
        match finish(sc, (s.len() - 1) as usize, odbc) {
            Ok((k, v)) => Ok((k, v, s.len() as int)),
            Err(e) => Err(e),
        }
    } else {
        let (next, flow) = step(sc, s[i], i as usize, odbc);
        match flow {
            Flow::Next => run(s, i + 1, next, odbc),
            Flow::Stop => match finish(next, i as usize, odbc) {
                Ok((k, v)) => Ok((k, v, i + 1)),
                Err(e) => Err(e),
            },
            Flow::Fail(e) => Err(e),
        }
    }
}

/// The pair that starts at index `start` of `s`, with the index after it;
/// `None` where no character is left.
pub open spec fn scan(s: Seq<char>, start: int, odbc: bool) -> Result<
    Option<(Seq<char>, Seq<char>, int)>,
    usize,
> {
    if start >= s.len() {
        Ok(None)
    } else {
        match run(s, start, initial(), odbc) {
            Ok(p) => Ok(Some(p)),
            Err(e) => Err(e),
        }
    }
}

/// The scanner of one `key=value` pair.
pub struct Scanner {
    state: State,
    buf: Vec<char>,
    key: String,
    value: String,
}

impl View for Scanner {
    type V = ScanView;

    closed spec fn view(&self) -> ScanView {
        ScanView { state: self.state, buf: self.buf@, key: self.key@, value: self.value@ }
    }
}

/// The scanner ended in `after` with `flow` as `expected` says; after a
/// syntax error its contents no longer matter.
pub open spec fn follows(after: ScanView, flow: Flow, expected: (ScanView, Flow)) -> bool {
    &&& flow == expected.1
    &&& !(flow is Fail) ==> after == expected.0
}

impl Scanner {
    pub fn new() -> (r: Scanner)
        ensures
            r@ == initial(),
    {
        Scanner { state: State::NothingYet, buf: Vec::new(), key: String::new(), value: String::new() }
    }

    fn push(&mut self, state: State, c: char)
        ensures
            final(self)@ == old(self)@.push(state, c),
    {
        self.state = state;
        self.buf.push(c);
    }

    fn on_nothing_yet(&mut self, c: char, i: usize, odbc: bool) -> (r: Flow)
        ensures
            follows(final(self)@, r, on_nothing_yet(old(self)@, c, i, odbc)),
    {
        if c == ';' || is_whitespace(c) {
            Flow::Next
        } else if c == '\0' {
            self.state = State::NullTermination;
            Flow::Next
        } else if is_control(c) {
            Flow::Fail(i)
        } else if c == '=' {
            self.state = State::KeyEqual;
            self.on_key_equal(c, i, odbc)
        } else {
            self.push(State::Key, c);
            Flow::Next
        }
    }

    fn on_key(&mut self, c: char, i: usize) -> (r: Flow)
        ensures
            follows(final(self)@, r, on_key(old(self)@, c, i)),
    {
        if c == '=' {
            self.state = State::KeyEqual;
            Flow::Next
        } else if !is_whitespace(c) && is_control(c) {
            Flow::Fail(i)
        } else {
            self.push(State::Key, c);
            Flow::Next
        }
    }

    fn on_key_equal(&mut self, c: char, i: usize, odbc: bool) -> (r: Flow)
        ensures
            follows(final(self)@, r, on_key_equal(old(self)@, c, i, odbc)),
    {
        if !odbc && c == '=' {
            self.push(State::Key, c);
            Flow::Next
        } else {
            let trimmed = string_of(&trim_end_chars(&self.buf));
            let key = lowercase(trimmed.as_str());
            if key.as_str().is_empty() {
                Flow::Fail(i)
            } else {
                self.key = key;
                self.buf = Vec::new();
                self.state = State::KeyEnd;
                self.on_key_end(c, i, odbc)
            }
        }
    }

    fn on_key_end(&mut self, c: char, i: usize, odbc: bool) -> (r: Flow)
        ensures
            follows(final(self)@, r, on_key_end(old(self)@, c, i, odbc)),
    {
        if is_whitespace(c) {
            Flow::Next
        } else if odbc && c == '{' {
            self.push(State::BraceQuoteValue, c);
            Flow::Next
        } else if !odbc && c == '\'' {
            self.state = State::SingleQuoteValue;
            Flow::Next
        } else if !odbc && c == '"' {
            self.state = State::DoubleQuoteValue;
            Flow::Next
        } else if c == ';' || c == '\0' {
            Flow::Stop
        } else if is_control(c) {
            Flow::Fail(i)
        } else {
            self.push(State::UnquotedValue, c);
            Flow::Next
        }
    }

    fn on_unquoted_value(&mut self, c: char) -> (r: Flow)
        ensures
            follows(final(self)@, r, on_unquoted_value(old(self)@, c)),
    {
        if !is_whitespace(c) && (is_control(c) || c == ';') {
            Flow::Stop
        } else {
            self.push(State::UnquotedValue, c);
            Flow::Next
        }
    }

    fn on_quoted_value(&mut self, c: char, i: usize, q: char, closing: State) -> (r: Flow)
        ensures
            follows(final(self)@, r, on_quoted_value(old(self)@, c, i, q, closing)),
    {
        if c == q {
            self.state = closing;
            Flow::Next
        } else if c == '\0' {
            Flow::Fail(i)
        } else {
            let state = self.state;
            self.push(state, c);
            Flow::Next
        }
    }

    fn on_quoted_value_quote(&mut self, c: char, i: usize, q: char, reopen: State) -> (r: Flow)
        ensures
            follows(final(self)@, r, on_quoted_value_quote(old(self)@, c, i, q, reopen)),
    {
        if c == q {
            self.push(reopen, c);
            Flow::Next
        } else {
            self.value = string_of(&self.buf);
            self.state = State::QuotedValueEnd;
            self.on_quoted_value_end(c, i)
        }
    }

    fn on_brace_quote_value(&mut self, c: char, i: usize) -> (r: Flow)
        ensures
            follows(final(self)@, r, on_brace_quote_value(old(self)@, c, i)),
    {
        if c == '}' {
            self.push(State::BraceQuoteValueQuote, c);
            Flow::Next
        } else if c == '\0' {
            Flow::Fail(i)
        } else {
            self.push(State::BraceQuoteValue, c);
            Flow::Next
        }
    }

    fn on_quoted_value_end(&mut self, c: char, i: usize) -> (r: Flow)
        ensures
            follows(final(self)@, r, on_quoted_value_end(old(self)@, c, i)),
    {
        if is_whitespace(c) {
            Flow::Next
        } else if c == ';' {
            Flow::Stop
        } else if c == '\0' {
            self.state = State::NullTermination;
            Flow::Next
        } else {
            Flow::Fail(i)
        }
    }

    fn on_null_termination(&mut self, c: char, i: usize) -> (r: Flow)
        ensures
            follows(final(self)@, r, on_null_termination(old(self)@, c, i)),
    {
        if c == '\0' || is_whitespace(c) {
            Flow::Next
        } else {
            Flow::Fail(i)
        }
    }

    /// Feeds the character `c`, found at index `i`, to the scanner.
    pub fn step(&mut self, c: char, i: usize, use_odbc_rules: bool) -> (r: Flow)
        ensures
            follows(final(self)@, r, step(old(self)@, c, i, use_odbc_rules)),
    {
        let odbc = use_odbc_rules;
        match self.state {
            State::NothingYet => self.on_nothing_yet(c, i, odbc),
            State::Key => self.on_key(c, i),
            State::KeyEqual => self.on_key_equal(c, i, odbc),
            State::KeyEnd => self.on_key_end(c, i, odbc),
            State::UnquotedValue => self.on_unquoted_value(c),
            State::DoubleQuoteValue => self.on_quoted_value(
                c,
                i,
                '"',
                State::DoubleQuoteValueQuote,
            ),
            State::DoubleQuoteValueQuote => self.on_quoted_value_quote(
                c,
                i,
                '"',
                State::DoubleQuoteValue,
            ),
            State::SingleQuoteValue => self.on_quoted_value(
                c,
                i,
                '\'',
                State::SingleQuoteValueQuote,
            ),
            State::SingleQuoteValueQuote => self.on_quoted_value_quote(
                c,
                i,
                '\'',
                State::SingleQuoteValue,
            ),
            State::BraceQuoteValue => self.on_brace_quote_value(c, i),
            State::BraceQuoteValueQuote => self.on_quoted_value_quote(
                c,
                i,
                '}',
                State::BraceQuoteValue,
            ),
            State::QuotedValueEnd => self.on_quoted_value_end(c, i),
            State::NullTermination => self.on_null_termination(c, i),
        }
    }

    /// Ends the pair, `i` being the index of the last character consumed.
    pub fn finish(self, i: usize, use_odbc_rules: bool) -> (r: Result<(String, String), Error>)
        ensures
            match finish(self@, i, use_odbc_rules) {
                Ok((k, v)) => r matches Ok((rk, rv)) && rk@ == k && rv@ == v,
                Err(e) => r matches Err(Error::SyntaxError(j)) && j == e,
            },
    {
        match self.state {
            State::Key | State::DoubleQuoteValue | State::SingleQuoteValue | State::BraceQuoteValue => {
                Err(Error::SyntaxError(i))
            },
            State::KeyEqual => {
                if self.buf.len() == 0 {
                    Err(Error::SyntaxError(i))
                } else {
                    let trimmed = string_of(&trim_end_chars(&self.buf));
                    Ok((lowercase(trimmed.as_str()), self.value))
                }
            },
            State::UnquotedValue => {
                let v = trim_chars(&self.buf);
                if !use_odbc_rules && v.len() > 0 && (v[v.len() - 1] == '\'' || v[v.len() - 1]
                    == '"') {
                    Err(Error::SyntaxError(i))
                } else {
                    Ok((self.key, string_of(&v)))
                }
            },
            State::DoubleQuoteValueQuote
            | State::SingleQuoteValueQuote
            | State::BraceQuoteValueQuote
            | State::QuotedValueEnd => Ok((self.key, string_of(&self.buf))),
            State::NothingYet | State::KeyEnd | State::NullTermination => Ok((self.key, self.value)),
        }
    }
}

/// `r` is what `expected` describes, `after` being the index after the pair.
pub open spec fn scanned(
    r: Result<Option<(String, String)>, Error>,
    expected: Result<Option<(Seq<char>, Seq<char>, int)>, usize>,
    after: int,
) -> bool {
    match expected {
        Ok(None) => r matches Ok(None),
        Ok(Some((k, v, n))) => r matches Ok(Some((rk, rv))) && rk@ == k && rv@ == v && after == n,
        Err(e) => r matches Err(Error::SyntaxError(j)) && j == e,
    }
}

/// Scans the pair that starts at `*pos` in `chars` and moves `*pos` past it.
/// Returns `None` where no character is left; a pair whose key is empty
/// means that only separators, whitespace or NUL characters were left.
pub fn parse_key_value(chars: &Vec<char>, pos: &mut usize, use_odbc_rules: bool) -> (r: Result<
    Option<(String, String)>,
    Error,
>)
    requires
        *old(pos) <= chars@.len(),
    ensures
        scanned(r, scan(chars@, *old(pos) as int, use_odbc_rules), *final(pos) as int),
        r matches Ok(Some(_)) ==> *old(pos) < *final(pos) <= chars@.len(),
        r matches Ok(None) ==> *final(pos) == *old(pos),
{
    let start = *pos;
    if start >= chars.len() {
        return Ok(None);
    }
    let mut sc = Scanner::new();
    let mut i: usize = start;
    while i < chars.len()
        invariant
            start == *old(pos),
            start <= i <= chars@.len(),
            start < chars@.len(),
            run(chars@, start as int, initial(), use_odbc_rules) == run(
                chars@,
                i as int,
                sc@,
                use_odbc_rules,
            ),
        decreases chars@.len() - i,
    {
        let ghost before = sc@;
        let c = chars[i];
        let flow = sc.step(c, i, use_odbc_rules);
        assert(step(before, chars@[i as int], i, use_odbc_rules).1 == flow);
        match flow {
            Flow::Next => {
                i = i + 1;
            },
            Flow::Stop => {
                assert(run(chars@, i as int, before, use_odbc_rules) == match finish(
                    sc@,
                    i,
                    use_odbc_rules,
                ) {
                    Ok((k, v)) => Ok((k, v, i + 1)),
                    Err(e) => Err(e),
                });
                *pos = i + 1;
                return match sc.finish(i, use_odbc_rules) {
                    Ok(p) => Ok(Some(p)),
                    Err(e) => Err(e),
                };
            },
            Flow::Fail(e) => {
                assert(run(chars@, i as int, before, use_odbc_rules) == Err::<
                    (Seq<char>, Seq<char>, int),
                    usize,
                >(e));
                return Err(Error::SyntaxError(e));
            },
        }
    }
    *pos = chars.len();
    match sc.finish(chars.len() - 1, use_odbc_rules) {
        Ok(p) => Ok(Some(p)),
        Err(e) => Err(e),
    }
}

} // verus!
