//! Typed views of parsed connection strings, with the documented synonyms
//! of each key and the boolean words.
use crate::error::{Error, ErrorView};
use crate::keymap::KeyMap;
use crate::parse::{parse, parse_spec};
use crate::text::{chars_of, lower_of, lowercase, same_chars};
use vstd::prelude::*;

verus! {

/// The value stored under `k`.
pub open spec fn lookup(m: Map<Seq<char>, Seq<char>>, k: Seq<char>) -> Option<Seq<char>> {
    if m.contains_key(k) {
        Some(m[k])
    } else {
        None
    }
}

/// `a` where it holds a value, else `b`.
pub open spec fn or(a: Option<Seq<char>>, b: Option<Seq<char>>) -> Option<Seq<char>> {
    match a {
        Some(_) => a,
        None => b,
    }
}

pub open spec fn text_view(r: Option<&str>) -> Option<Seq<char>> {
    match r {
        Some(s) => Some(s@),
        None => None,
    }
}

pub open spec fn bool_view(r: Result<bool, Error>) -> Result<bool, ErrorView> {
    match r {
        Ok(b) => Ok(b),
        Err(e) => Err(e@),
    }
}

/// The boolean that the lower-cased word `folded` names: `true`, `yes` (and
/// `sspi` where `sspi` is allowed) or `false`, `no`; else an error that holds
/// the word as it was written, `raw`.
pub open spec fn bool_word(folded: Seq<char>, raw: Seq<char>, sspi: bool) -> Result<
    bool,
    ErrorView,
> {
    if folded == "true"@ || folded == "yes"@ || (sspi && folded == "sspi"@) {
        Ok(true)
    } else if folded == "false"@ || folded == "no"@ {
        Ok(false)
    } else {
        Err(ErrorView::NotAValidBool(raw))
    }
}

/// The boolean that a value names, `false` where there is none.
pub open spec fn flag(v: Option<Seq<char>>, sspi: bool) -> Result<bool, ErrorView> {
    match v {
        Some(s) => bool_word(lower_of(s), s, sspi),
        None => Ok(false),
    }
}

/// Reads a boolean word that has already been lower-cased into `folded`;
/// `raw` is the word as it was written.
pub fn classify_bool(folded: &str, raw: &str, allow_sspi: bool) -> (r: Result<bool, Error>)
    ensures
        bool_view(r) == bool_word(folded@, raw@, allow_sspi),
{
    let f = chars_of(folded);
    if same_chars(&f, "true") || same_chars(&f, "yes") || (allow_sspi && same_chars(&f, "sspi")) {
        Ok(true)
    } else if same_chars(&f, "false") || same_chars(&f, "no") {
        Ok(false)
    } else {
        Err(Error::NotAValidBool(raw.to_owned()))
    }
}

/// Reads a boolean word, in any case: `true`, `yes`, `false` or `no`.
pub fn parse_bool(s: &str) -> (r: Result<bool, Error>)
    ensures
        bool_view(r) == bool_word(lower_of(s@), s@, false),
{
    let folded = lowercase(s);
    classify_bool(folded.as_str(), s, false)
}

fn read_flag(v: Option<&str>, allow_sspi: bool) -> (r: Result<bool, Error>)
    ensures
        bool_view(r) == flag(text_view(v), allow_sspi),
{
    match v {
        Some(s) => {
            let folded = lowercase(s);
            classify_bool(folded.as_str(), s, allow_sspi)
        },
        None => Ok(false),
    }
}

/// An Entity Framework connection string.
pub struct EFConnStr(KeyMap);

impl View for EFConnStr {
    type V = Map<Seq<char>, Seq<char>>;

    closed spec fn view(&self) -> Map<Seq<char>, Seq<char>> {
        self.0@
    }
}

impl EFConnStr {
    pub closed spec fn wf(&self) -> bool {
        self.0.wf()
    }

    /// Parses `conn_str` under ADO.NET rules.
    pub fn parse(conn_str: &str) -> (r: Result<EFConnStr, Error>)
        ensures
            match parse_spec(conn_str@, false, None) {
                Ok(m) => r matches Ok(c) && c.wf() && c@ == m,
                Err(e) => r matches Err(re) && re@ == e,
            },
    {
        match parse(conn_str, false, None) {
            Ok(m) => Ok(EFConnStr(m)),
            Err(e) => Err(e),
        }
    }

    pub fn metadata(&self) -> (r: Option<&str>)
        requires
            self.wf(),
        ensures
            text_view(r) == lookup(self@, "metadata"@),
    {
        self.0.get("metadata")
    }

    pub fn name(&self) -> (r: Option<&str>)
        requires
            self.wf(),
        ensures
            text_view(r) == lookup(self@, "name"@),
    {
        self.0.get("name")
    }

    pub fn provider(&self) -> (r: Option<&str>)
        requires
            self.wf(),
        ensures
            text_view(r) == lookup(self@, "provider"@),
    {
        self.0.get("provider")
    }

    pub fn provider_connection_string(&self) -> (r: Option<&str>)
        requires
            self.wf(),
        ensures
            text_view(r) == lookup(self@, "provider connection string"@),
    {
        self.0.get("provider connection string")
    }
}

impl std::str::FromStr for EFConnStr {
    type Err = Error;

    fn from_str(conn_str: &str) -> Result<EFConnStr, Error> {
        EFConnStr::parse(conn_str)
    }
}

/// A SQL Server connection string.
pub struct MsSqlConnStr(KeyMap);

impl View for MsSqlConnStr {
    type V = Map<Seq<char>, Seq<char>>;

    closed spec fn view(&self) -> Map<Seq<char>, Seq<char>> {
        self.0@
    }
}

impl MsSqlConnStr {
    pub closed spec fn wf(&self) -> bool {
        self.0.wf()
    }

    /// Parses `conn_str` under ADO.NET rules.
    pub fn parse(conn_str: &str) -> (r: Result<MsSqlConnStr, Error>)
        ensures
            match parse_spec(conn_str@, false, None) {
                Ok(m) => r matches Ok(c) && c.wf() && c@ == m,
                Err(e) => r matches Err(re) && re@ == e,
            },
    {
        match parse(conn_str, false, None) {
            Ok(m) => Ok(MsSqlConnStr(m)),
            Err(e) => Err(e),
        }
    }

    /// The value of `application name`, or of its synonym `app`.
    pub fn application_name(&self) -> (r: Option<&str>)
        requires
            self.wf(),
        ensures
            text_view(r) == or(lookup(self@, "application name"@), lookup(self@, "app"@)),
    {
        match self.0.get("application name") {
            Some(v) => Some(v),
            None => self.0.get("app"),
        }
    }

    /// The value of `data source`, or of its synonyms `addr`, `address`,
    /// `network address` and `server`, in this order.
    pub fn data_source(&self) -> (r: Option<&str>)
        requires
            self.wf(),
        ensures
            text_view(r) == or(
                lookup(self@, "data source"@),
                or(
                    lookup(self@, "addr"@),
                    or(
                        lookup(self@, "address"@),
                        or(lookup(self@, "network address"@), lookup(self@, "server"@)),
                    ),
                ),
            ),
    {
        match self.0.get("data source") {
            Some(v) => Some(v),
            None => match self.0.get("addr") {
                Some(v) => Some(v),
                None => match self.0.get("address") {
                    Some(v) => Some(v),
                    None => match self.0.get("network address") {
                        Some(v) => Some(v),
                        None => self.0.get("server"),
                    },
                },
            },
        }
    }

    /// The value of `initial catalog`, or of its synonym `database`.
    pub fn initial_catalog(&self) -> (r: Option<&str>)
        requires
            self.wf(),
        ensures
            text_view(r) == or(lookup(self@, "initial catalog"@), lookup(self@, "database"@)),
    {
        match self.0.get("initial catalog") {
            Some(v) => Some(v),
            None => self.0.get("database"),
        }
    }

    /// The boolean of `integrated security`, or of its synonym
    /// `trusted_connection`, where `sspi` also means `true`; `false` where
    /// neither is present.
    pub fn integrated_security(&self) -> (r: Result<bool, Error>)
        requires
            self.wf(),
        ensures
            bool_view(r) == flag(
                or(lookup(self@, "integrated security"@), lookup(self@, "trusted_connection"@)),
                true,
            ),
    {
        let v = match self.0.get("integrated security") {
            Some(v) => Some(v),
            None => self.0.get("trusted_connection"),
        };
        read_flag(v, true)
    }

    /// The boolean of `multipleactiveresultsets`; `false` where it is absent.
    pub fn multiple_active_result_sets(&self) -> (r: Result<bool, Error>)
        requires
            self.wf(),
        ensures
            bool_view(r) == flag(lookup(self@, "multipleactiveresultsets"@), false),
    {
        read_flag(self.0.get("multipleactiveresultsets"), false)
    }

    /// The value of `password`, or of its synonym `pwd`.
    pub fn password(&self) -> (r: Option<&str>)
        requires
            self.wf(),
        ensures
            text_view(r) == or(lookup(self@, "password"@), lookup(self@, "pwd"@)),
    {
        match self.0.get("password") {
            Some(v) => Some(v),
            None => self.0.get("pwd"),
        }
    }

    /// The boolean of `trustservercertificate`; `false` where it is absent.
    pub fn trust_server_certificate(&self) -> (r: Result<bool, Error>)
        requires
            self.wf(),
        ensures
            bool_view(r) == flag(lookup(self@, "trustservercertificate"@), false),
    {
        read_flag(self.0.get("trustservercertificate"), false)
    }

    /// The value of `user id`, or of its synonyms `uid` and `user`, in this
    /// order.
    pub fn user_id(&self) -> (r: Option<&str>)
        requires
            self.wf(),
        ensures
            text_view(r) == or(
                lookup(self@, "user id"@),
                or(lookup(self@, "uid"@), lookup(self@, "user"@)),
            ),
    {
        match self.0.get("user id") {
            Some(v) => Some(v),
            None => match self.0.get("uid") {
                Some(v) => Some(v),
                None => self.0.get("user"),
            },
        }
    }
}

impl std::str::FromStr for MsSqlConnStr {
    type Err = Error;

    fn from_str(conn_str: &str) -> Result<MsSqlConnStr, Error> {
        MsSqlConnStr::parse(conn_str)
    }
}

} // verus!
