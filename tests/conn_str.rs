use conn_str::{
    append_key_value, classify_bool, parse, parse_bool, parse_key_value, quote_odbc_value_match,
    quote_value_match, odbc_needs_braces, EFConnStr, Error, Flow, KeyMap,
    MsSqlConnStr, Scanner,
};
use std::str::FromStr;

fn pair(s: &str, odbc: bool) -> Option<(String, String)> {
    let chars: Vec<char> = s.chars().collect();
    let mut pos = 0usize;
    parse_key_value(&chars, &mut pos, odbc).unwrap()
}

#[test]
fn append_key_value_works() {
    let mut out = String::new();
    append_key_value(&mut out, "a", "test=2", false);
    assert_eq!(&out, "a=\"test=2\"");
}

#[test]
fn sql_conn_builder_str_from_str_works() {
    let s = r#"Data Source=.;Initial Catalog=MasterDb;Integrated Security=False;User ID=me;Password="special=321";MultipleActiveResultSets=True;Application Name=RustApp"#;
    let b = MsSqlConnStr::from_str(s).unwrap();

    assert_eq!("special=321", b.password().unwrap());
    assert_eq!("me", b.user_id().unwrap());
}

#[test]
fn plain_value_round_trips() {
    let mut out = String::new();
    append_key_value(&mut out, "Server", "abc.def", false);
    assert_eq!(out, "Server=abc.def");
    assert_eq!(pair(&out, false), Some(("server".to_string(), "abc.def".to_string())));
}

#[test]
fn value_with_equals_is_quoted_and_round_trips() {
    let mut out = String::new();
    append_key_value(&mut out, "a", "test=2", false);
    assert_eq!(out, "a=\"test=2\"");
    let m = parse(&out, false, None).unwrap();
    assert_eq!(m.get("a"), Some("test=2"));
}

#[test]
fn value_with_both_quotes_round_trips() {
    let mut out = String::new();
    append_key_value(&mut out, "k", "it's \"x\"", false);
    assert_eq!(out, "k=\"it's \"\"x\"\"\"");
    assert_eq!(pair(&out, false), Some(("k".to_string(), "it's \"x\"".to_string())));
}

#[test]
fn value_with_double_quote_only_is_single_quoted() {
    let mut out = String::new();
    append_key_value(&mut out, "k", "say \"hi\"", false);
    assert_eq!(out, "k='say \"hi\"'");
    assert_eq!(pair(&out, false), Some(("k".to_string(), "say \"hi\"".to_string())));
}

#[test]
fn key_with_equals_is_doubled_and_round_trips() {
    let mut out = String::new();
    append_key_value(&mut out, "a=b", "1", false);
    assert_eq!(out, "a==b=1");
    assert_eq!(pair(&out, false), Some(("a=b".to_string(), "1".to_string())));
}

#[test]
fn separator_present_or_not_gives_same_text() {
    let mut a = String::from("x=1");
    let mut b = String::from("x=1;");
    append_key_value(&mut a, "y", "plain", false);
    append_key_value(&mut b, "y", "plain", false);
    assert_eq!(a, "x=1;y=plain");
    assert_eq!(a, b);
}

#[test]
fn embedded_equals_in_key() {
    let m = parse("a==b=1", false, None).unwrap();
    assert_eq!(m.get("a=b"), Some("1"));
    assert_eq!(m.len(), 1);
}

#[test]
fn odbc_brace_value_keeps_braces() {
    let m = parse("driver={SQL Server}", true, None).unwrap();
    let v = m.get("driver").unwrap();
    assert_eq!(v, "{SQL Server}");
    assert_eq!(&v[1..v.len() - 1], "SQL Server");
}

#[test]
fn odbc_doubled_closing_brace_stays_in_value() {
    let m = parse("pwd={a}}b};x=1", true, None).unwrap();
    assert_eq!(m.get("pwd"), Some("{a}}b}"));
    assert_eq!(m.get("x"), Some("1"));
}

#[test]
fn duplicate_keys_first_wins() {
    let m = parse("a=1;a=2", false, None).unwrap();
    assert_eq!(m.get("a"), Some("1"));
    assert_eq!(m.len(), 1);
}

#[test]
fn synonym_table_gives_canonical_key() {
    let mut table = KeyMap::new();
    table.insert("server".to_string(), "data source".to_string());
    let m = parse("server=.\\X", false, Some(&table)).unwrap();
    assert_eq!(m.get("data source"), Some(".\\X"));
    assert_eq!(m.get("server"), None);
}

#[test]
fn key_missing_from_synonym_table_is_refused() {
    let mut table = KeyMap::new();
    table.insert("server".to_string(), "data source".to_string());
    match parse("uid=me", false, Some(&table)) {
        Err(Error::KeyNotSupported(k)) => assert_eq!(k, "uid"),
        _ => panic!("expected KeyNotSupported"),
    }
}

#[test]
fn synonym_with_leading_space_is_refused() {
    let mut table = KeyMap::new();
    table.insert("a".to_string(), " a".to_string());
    match parse("a=1", false, Some(&table)) {
        Err(Error::KeyNotSupported(k)) => assert_eq!(k, " a"),
        _ => panic!("expected KeyNotSupported"),
    }
}

#[test]
fn unterminated_single_quote_is_a_syntax_error() {
    let s = "a='unterminated";
    match parse(s, false, None) {
        Err(Error::SyntaxError(i)) => assert_eq!(i, s.len() - 1),
        _ => panic!("expected SyntaxError"),
    }
}

#[test]
fn stray_quote_at_end_of_unquoted_value() {
    match parse("a=b'", false, None) {
        Err(Error::SyntaxError(i)) => assert_eq!(i, 3),
        _ => panic!("expected SyntaxError"),
    }
}

#[test]
fn control_character_before_key() {
    match parse("\u{1}a=1", false, None) {
        Err(Error::SyntaxError(i)) => assert_eq!(i, 0),
        _ => panic!("expected SyntaxError"),
    }
}

#[test]
fn empty_key_is_a_syntax_error() {
    match parse("=1", true, None) {
        Err(Error::SyntaxError(i)) => assert_eq!(i, 0),
        _ => panic!("expected SyntaxError"),
    }
}

#[test]
fn nul_ends_the_string() {
    let m = parse("a=1;\0\0 ", false, None).unwrap();
    assert_eq!(m.get("a"), Some("1"));
    match parse("a='1'\0x", false, None) {
        Err(Error::SyntaxError(i)) => assert_eq!(i, 6),
        _ => panic!("expected SyntaxError"),
    }
}

#[test]
fn keys_are_lower_cased_and_values_trimmed() {
    let m = parse("  Data Source =  .\\SQL  ;;", false, None).unwrap();
    assert_eq!(m.get("data source"), Some(".\\SQL"));
    assert_eq!(m.len(), 1);
}

#[test]
fn key_without_value() {
    let m = parse("a=;b=", false, None).unwrap();
    assert_eq!(m.get("a"), Some(""));
    assert_eq!(m.get("b"), Some(""));
}

#[test]
fn empty_string_parses_to_empty_map() {
    let m = parse("", false, None).unwrap();
    assert_eq!(m.len(), 0);
    assert_eq!(pair("", false), None);
}

#[test]
fn given_example_sequence() {
    let mut s = String::new();
    append_key_value(&mut s, "database", "MasterDb", false);
    append_key_value(&mut s, "server", ".\\SQL2017", false);
    append_key_value(&mut s, "user id", "me", false);
    append_key_value(&mut s, "password", "pass=1", false);
    assert_eq!("database=MasterDb;server=.\\SQL2017;user id=me;password=\"pass=1\"", &s);
}

#[test]
fn odbc_encoding_quotes_with_braces() {
    let mut s = String::new();
    append_key_value(&mut s, "pwd", "a;b}", true);
    assert_eq!(s, "pwd={a;b}}}");
    let mut s = String::new();
    append_key_value(&mut s, "x", "Driver", true);
    assert_eq!(s, "x={Driver}");
    let mut s = String::new();
    append_key_value(&mut s, "driver", "{SQL Server}", true);
    assert_eq!(s, "driver={SQL Server}");
    let mut s = String::new();
    append_key_value(&mut s, "a=b", "plain", true);
    assert_eq!(s, "a=b=plain");
}

#[test]
fn odbc_brace_decision() {
    assert!(odbc_needs_braces("Driver", "driver"));
    assert!(!odbc_needs_braces("Driver", "other"));
    assert!(odbc_needs_braces("{x", "{x"));
    assert!(!odbc_needs_braces("", ""));
}

#[test]
fn brace_quote_pattern() {
    assert!(quote_odbc_value_match("{}"));
    assert!(quote_odbc_value_match("{a}}b}"));
    assert!(!quote_odbc_value_match("{a}b}"));
    assert!(!quote_odbc_value_match("{"));
    assert!(!quote_odbc_value_match("a}"));
}

#[test]
fn plain_value_pattern() {
    assert!(quote_value_match("abc.\\x"));
    assert!(quote_value_match(""));
    assert!(!quote_value_match("a b"));
    assert!(!quote_value_match("a;b"));
    assert!(!quote_value_match("a'b"));
    assert!(!quote_value_match("a\u{7f}"));
}

#[test]
fn boolean_words() {
    assert_eq!(parse_bool("TRUE").unwrap(), true);
    assert_eq!(parse_bool("No").unwrap(), false);
    match parse_bool("sspi") {
        Err(Error::NotAValidBool(s)) => assert_eq!(s, "sspi"),
        _ => panic!("expected NotAValidBool"),
    }
    assert_eq!(classify_bool("sspi", "SSPI", true).unwrap(), true);
    match classify_bool("maybe", "Maybe", false) {
        Err(Error::NotAValidBool(s)) => assert_eq!(s, "Maybe"),
        _ => panic!("expected NotAValidBool"),
    }
}

#[test]
fn keys_with_non_ascii_letters_are_lower_cased() {
    let m = parse("ÄÑ B=x", false, None).unwrap();
    assert_eq!(m.get("äñ b"), Some("x"));
}

#[test]
fn error_messages() {
    assert_eq!(
        Error::SyntaxError(120).message(),
        "parsing of connection string failed at `120`"
    );
    assert_eq!(Error::SyntaxError(0).message(), "parsing of connection string failed at `0`");
    assert_eq!(
        Error::KeyNotSupported("k".to_string()).message(),
        "connection string key `k` not supported"
    );
    assert_eq!(
        Error::NotAValidBool("x".to_string()).message(),
        "`x` is not a valid boolean value"
    );
    assert_eq!(Error::SyntaxError(3).description(), "parsing of connection string failed");
    assert_eq!(
        Error::NotAValidBool("x".to_string()).description(),
        "not a valid boolean value"
    );
}

#[test]
fn ms_sql_typed_values() {
    let c = MsSqlConnStr::from_str(
        "addr=srv;database=Db1;Trusted_Connection=SSPI;uid=u;pwd='p=1';App=x;TrustServerCertificate=yes",
    )
    .unwrap();
    assert_eq!(c.data_source(), Some("srv"));
    assert_eq!(c.initial_catalog(), Some("Db1"));
    assert_eq!(c.integrated_security().unwrap(), true);
    assert_eq!(c.user_id(), Some("u"));
    assert_eq!(c.password(), Some("p=1"));
    assert_eq!(c.application_name(), Some("x"));
    assert_eq!(c.trust_server_certificate().unwrap(), true);
    assert_eq!(c.multiple_active_result_sets().unwrap(), false);
}

#[test]
fn ms_sql_bad_boolean() {
    let c = MsSqlConnStr::from_str("MultipleActiveResultSets=perhaps").unwrap();
    match c.multiple_active_result_sets() {
        Err(Error::NotAValidBool(s)) => assert_eq!(s, "perhaps"),
        _ => panic!("expected NotAValidBool"),
    }
}

#[test]
fn ms_sql_integrated_security_absent_is_false() {
    let c = MsSqlConnStr::from_str("server=.").unwrap();
    assert_eq!(c.integrated_security().unwrap(), false);
    assert_eq!(c.data_source(), Some("."));
}

#[test]
fn entity_framework_values() {
    let b = EFConnStr::from_str(
        r#"provider=System.Data.SqlClient;provider connection string="server=.\Sql2017;database=Db1""#,
    )
    .unwrap();
    assert_eq!("System.Data.SqlClient", b.provider().unwrap());
    assert_eq!("server=.\\Sql2017;database=Db1", b.provider_connection_string().unwrap());
    assert_eq!(b.metadata(), None);
    assert_eq!(b.name(), None);
}

#[test]
fn scanner_steps_one_character_at_a_time() {
    let mut sc = Scanner::new();
    assert_eq!(sc.step('A', 0, false), Flow::Next);
    assert_eq!(sc.step('=', 1, false), Flow::Next);
    assert_eq!(sc.step('v', 2, false), Flow::Next);
    assert_eq!(sc.step(';', 3, false), Flow::Stop);
    let (k, v) = sc.finish(3, false).unwrap();
    assert_eq!(k, "a");
    assert_eq!(v, "v");
}
