//! Folding the scanned pairs of a connection string into a map.
use crate::error::{Error, ErrorView};
use crate::keymap::KeyMap;
use crate::scanner::{parse_key_value, scan};
use crate::text::{chars_of, is_whitespace, is_ws};
use vstd::prelude::*;

verus! {

/// A key that the map accepts: not empty, not beginning with whitespace or
/// `;`, and free of NUL characters.
pub open spec fn key_allowed(k: Seq<char>) -> bool {
    &&& k.len() > 0
    &&& !is_ws(k[0])
    &&& k[0] != ';'
    &&& !k.contains('\0')
}

/// The key under which `k` is stored: its entry in the synonym table where
/// one is given.
pub open spec fn canonical_key(k: Seq<char>, synonyms: Option<Map<Seq<char>, Seq<char>>>) -> Result<
    Seq<char>,
    ErrorView,
> {
    match synonyms {
        None => Ok(k),
        Some(table) => if table.contains_key(k) {
            Ok(table[k])
        } else {
            Err(ErrorView::KeyNotSupported(k))
        },
    }
}

/// The map of the pairs of `s` from index `pos` on, added to `acc`; a key
/// already present keeps its value.
pub open spec fn parse_from(
    s: Seq<char>,
    odbc: bool,
    synonyms: Option<Map<Seq<char>, Seq<char>>>,
    pos: int,
    acc: Map<Seq<char>, Seq<char>>,
) -> Result<Map<Seq<char>, Seq<char>>, ErrorView>
    decreases s.len() - pos,
{
    match scan(s, pos, odbc) {
        Err(e) => Err(ErrorView::SyntaxError(e)),
        Ok(None) => Ok(acc),
        Ok(Some((k, v, next))) => if k.len() == 0 {
            Ok(acc)
        } else {
            match canonical_key(k, synonyms) {
                Err(e) => Err(e),
                Ok(key) => if !key_allowed(key) {
                    Err(ErrorView::KeyNotSupported(key))
                } else if next <= pos || next > s.len() {
                    Ok(acc)
                } else {
                    parse_from(
                        s,
                        odbc,
                        synonyms,
                        next,
                        if acc.contains_key(key) {
                            acc
                        } else {
                            acc.insert(key, v)
                        },
                    )
                },
            }
        },
    }
}

/// The map that the connection string `s` describes.
pub open spec fn parse_spec(
    s: Seq<char>,
    odbc: bool,
    synonyms: Option<Map<Seq<char>, Seq<char>>>,
) -> Result<Map<Seq<char>, Seq<char>>, ErrorView> {
    parse_from(s, odbc, synonyms, 0, Map::empty())
}

pub open spec fn table_view(synonyms: Option<&KeyMap>) -> Option<Map<Seq<char>, Seq<char>>> {
    match synonyms {
        Some(t) => Some(t@),
        None => None,
    }
}

/// `r` is what `expected` describes.
pub open spec fn parsed(
    r: Result<KeyMap, Error>,
    expected: Result<Map<Seq<char>, Seq<char>>, ErrorView>,
) -> bool {
    match expected {
        Ok(m) => r matches Ok(rm) && rm.wf() && rm@ == m,
        Err(e) => r matches Err(re) && re@ == e,
    }
}

fn key_is_allowed(key: &String) -> (r: bool)
    ensures
        r == key_allowed(key@),
{
    let k = chars_of(key.as_str());
    if k.len() == 0 || is_whitespace(k[0]) || k[0] == ';' {
        return false;
    }
    let mut i: usize = 0;
    while i < k.len()
        invariant
            k@ == key@,
            i <= k@.len(),
            forall|j: int| 0 <= j < i ==> k@[j] != '\0',
        decreases k@.len() - i,
    {
        if k[i] == '\0' {
            assert(k@[i as int] == '\0');
            return false;
        }
        i = i + 1;
    }
    true
}

/// Parses a connection string into a map from lower-cased keys to values.
/// With a synonym table, each key is replaced by its entry, and a key that
/// the table lacks is refused.
pub fn parse(conn_str: &str, use_odbc_rules: bool, synonyms: Option<&KeyMap>) -> (r: Result<
    KeyMap,
    Error,
>)
    requires
        synonyms matches Some(t) ==> t.wf(),
    ensures
        parsed(r, parse_spec(conn_str@, use_odbc_rules, table_view(synonyms))),
{
    let chars = chars_of(conn_str);
    let ghost s = conn_str@;
    let ghost table = table_view(synonyms);
    let mut pos: usize = 0;
    let mut map = KeyMap::new();
    loop
        invariant
            chars@ == s,
            s == conn_str@,
            table == table_view(synonyms),
            synonyms matches Some(t) ==> t.wf(),
            pos <= chars@.len(),
            map.wf(),
            parse_spec(s, use_odbc_rules, table) == parse_from(
                s,
                use_odbc_rules,
                table,
                pos as int,
                map@,
            ),
        decreases chars@.len() - pos,
    {
        match parse_key_value(&chars, &mut pos, use_odbc_rules) {
            Err(e) => {
                return Err(e);
            },
            Ok(None) => {
                return Ok(map);
            },
            Ok(Some((key, value))) => {
                if key.as_str().is_empty() {
                    return Ok(map);
                }
                let key = match synonyms {
                    Some(t) => match t.get(key.as_str()) {
                        Some(k) => k.to_owned(),
                        None => {
                            return Err(Error::KeyNotSupported(key));
                        },
                    },
                    None => key,
                };
                if !key_is_allowed(&key) {
                    return Err(Error::KeyNotSupported(key));
                }
                map.insert(key, value);
            },
        }
    }
}

} // verus!
