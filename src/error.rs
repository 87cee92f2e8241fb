//! The errors that parsing and the typed accessors report.
use crate::text::{chars_of, push_char, push_chars};
use vstd::prelude::*;

verus! {

/// A connection string parsing error.
#[derive(Clone, Debug)]
pub enum Error {
    /// A key that the synonym table lacks, or that is empty, begins with
    /// whitespace or `;`, or holds a NUL character.
    KeyNotSupported(String),
    /// A value that is not one of the recognised boolean words.
    NotAValidBool(String),
    /// The scanner stopped at the character with this index.
    SyntaxError(usize),
}

/// An [`Error`] with its text seen as characters.
pub enum ErrorView {
    KeyNotSupported(Seq<char>),
    NotAValidBool(Seq<char>),
    SyntaxError(usize),
}

impl View for Error {
    type V = ErrorView;

    open spec fn view(&self) -> ErrorView {
        match self {
            Error::KeyNotSupported(s) => ErrorView::KeyNotSupported(s@),
            Error::NotAValidBool(s) => ErrorView::NotAValidBool(s@),
            Error::SyntaxError(i) => ErrorView::SyntaxError(*i),
        }
    }
}

pub open spec fn digits() -> Seq<char> {
    seq!['0', '1', '2', '3', '4', '5', '6', '7', '8', '9']
}

/// `n` written in decimal.
pub open spec fn decimal(n: nat) -> Seq<char>
    decreases n,
{
    if n < 10 {
        seq![digits()[n as int]]
    } else {
        decimal(n / 10).push(digits()[(n % 10) as int])
    }
}

/// The message that describes an error.
pub open spec fn message_of(e: ErrorView) -> Seq<char> {
    match e {
        ErrorView::KeyNotSupported(s) => "connection string key `"@ + s + "` not supported"@,
        ErrorView::NotAValidBool(s) => "`"@ + s + "` is not a valid boolean value"@,
        ErrorView::SyntaxError(i) => "parsing of connection string failed at `"@ + decimal(
            i as nat,
        ) + "`"@,
    }
}

/// The short description of an error's kind.
pub open spec fn description_of(e: ErrorView) -> Seq<char> {
    match e {
        ErrorView::KeyNotSupported(_) => "connection string key not supported"@,
        ErrorView::NotAValidBool(_) => "not a valid boolean value"@,
        ErrorView::SyntaxError(_) => "parsing of connection string failed"@,
    }
}

fn digit(d: usize) -> (r: char)
    requires
        d < 10,
    ensures
        r == digits()[d as int],
{
    let ds = ['0', '1', '2', '3', '4', '5', '6', '7', '8', '9'];
    assert(ds@ =~= digits());
    ds[d]
}

fn push_decimal(out: &mut String, n: usize)
    ensures
        final(out)@ == old(out)@ + decimal(n as nat),
    decreases n,
{
    if n >= 10 {
        push_decimal(out, n / 10);
    }
    push_char(out, digit(n % 10));
    assert(out@ =~= old(out)@ + decimal(n as nat));
}

fn push_text(out: &mut String, s: &str)
    ensures
        final(out)@ == old(out)@ + s@,
{
    push_chars(out, &chars_of(s));
}

impl Error {
    /// The message that describes this error.
    pub fn message(&self) -> (r: String)
        ensures
            r@ == message_of(self@),
    {
        let mut out = String::new();
        match self {
            Error::KeyNotSupported(s) => {
                push_text(&mut out, "connection string key `");
                push_text(&mut out, s.as_str());
                push_text(&mut out, "` not supported");
            },
            Error::NotAValidBool(s) => {
                push_text(&mut out, "`");
                push_text(&mut out, s.as_str());
                push_text(&mut out, "` is not a valid boolean value");
            },
            Error::SyntaxError(i) => {
                push_text(&mut out, "parsing of connection string failed at `");
                push_decimal(&mut out, *i);
                push_text(&mut out, "`");
            },
        }
        assert(out@ =~= message_of(self@));
        out
    }

    /// The short description of this error's kind.
    pub fn description(&self) -> (r: &'static str)
        ensures
            r@ == description_of(self@),
    {
        match self {
            Error::KeyNotSupported(_) => "connection string key not supported",
            Error::NotAValidBool(_) => "not a valid boolean value",
            Error::SyntaxError(_) => "parsing of connection string failed",
        }
    }
}

} // verus!
