use hash_mapify::attr::{parse_attribute_args, AttrArg, AttrError, AttrErrorKind};
use hash_mapify::cached::cache_key_statement;
use hash_mapify::constant::constant_string_impl;
use hash_mapify::projection::into_hash_map;
use hash_mapify::token::tokenize;
use hash_mapify::wrap::{cached_fn_impl, log_duration_impl, split_fn, WrapError};

fn toks(text: &str) -> Vec<hash_mapify::token::Token> {
    tokenize(text).expect("input lexes")
}

fn known(names: &[&str]) -> Vec<String> {
    names.iter().map(|s| s.to_string()).collect()
}

fn attr_err(kind: AttrErrorKind, position: usize) -> AttrError {
    AttrError { kind, position }
}

#[test]
fn attribute_args_named_and_bare() {
    let args = parse_attribute_args(&toks("a = 1 + 2, b, c = \"x\""), &known(&["a", "b", "c"])).unwrap();
    assert_eq!(
        args,
        vec![
            AttrArg { name: "a".to_string(), value: Some("1 + 2".to_string()) },
            AttrArg { name: "b".to_string(), value: None },
            AttrArg { name: "c".to_string(), value: Some("\"x\"".to_string()) },
        ]
    );
    assert_eq!(parse_attribute_args(&toks(""), &known(&["a"])).unwrap(), vec![]);
}

#[test]
fn attribute_args_errors() {
    let k = known(&["a", "b"]);
    assert_eq!(parse_attribute_args(&toks("z = 1"), &k).unwrap_err(), attr_err(AttrErrorKind::UnknownName, 0));
    assert_eq!(parse_attribute_args(&toks("a, a"), &k).unwrap_err(), attr_err(AttrErrorKind::DuplicateName, 2));
    assert_eq!(parse_attribute_args(&toks("a =, b"), &k).unwrap_err(), attr_err(AttrErrorKind::ExpectedValue, 2));
    assert_eq!(parse_attribute_args(&toks("1"), &k).unwrap_err(), attr_err(AttrErrorKind::ExpectedName, 0));
    assert_eq!(parse_attribute_args(&toks("a b"), &k).unwrap_err(), attr_err(AttrErrorKind::ExpectedSeparator, 1));
}

#[test]
fn cache_key_from_keygen_string() {
    let s = cache_key_statement(&toks(r#"keygen = "format!(\"{first_name} {last_name}\")""#), &"test_cache".to_string()).unwrap();
    assert_eq!(s, "let __cache_key = format!(\"{first_name} {last_name}\");");
}

#[test]
fn cache_key_defaults_to_name() {
    let s = cache_key_statement(&toks(""), &"test_cache".to_string()).unwrap();
    assert_eq!(s, "let __cache_key = \"test_cache\";");
}

#[test]
fn cache_key_from_plain_expression() {
    let s = cache_key_statement(&toks("keygen = name.clone()"), &"f".to_string()).unwrap();
    assert_eq!(s, "let __cache_key = name . clone ();");
}

#[test]
fn cache_key_errors() {
    let f = "f".to_string();
    assert_eq!(cache_key_statement(&toks("keygen"), &f).unwrap_err(), attr_err(AttrErrorKind::ExpectedValue, 1));
    assert_eq!(cache_key_statement(&toks("other = 1"), &f).unwrap_err(), attr_err(AttrErrorKind::UnknownName, 0));
    assert_eq!(cache_key_statement(&toks("keygen = \"1 +\""), &f).unwrap_err(), attr_err(AttrErrorKind::InvalidExpression, 2));
}

#[test]
fn split_function_parts() {
    let p = split_fn(&toks("pub fn answer() -> u8 { 42 }")).unwrap();
    assert_eq!(p.head, "pub fn answer () -> u8");
    assert_eq!(p.body, "{ 42 }");
    assert_eq!(p.name, "answer");
    assert!(split_fn(&toks("struct S;")).is_none());
}

#[test]
fn timed_function() {
    let out = log_duration_impl(&toks("fn f() -> u8 { 1 }")).unwrap();
    assert_eq!(
        out,
        "fn f () -> u8 { let __start = std::time::Instant::now(); let __result = { 1 }; \
         println!(\"{} took {}μs\", stringify!(f), __start.elapsed().as_micros()); return __result; }"
    );
    assert!(log_duration_impl(&toks("const X: u8 = 1;")).is_none());
}

#[test]
fn cached_function() {
    let out = cached_fn_impl(&toks(""), &toks("fn g() -> String { s() }")).unwrap();
    assert!(out.starts_with("fn g () -> String { let __cache_key = \"g\"; match cacache::read_sync("));
    assert!(out.contains("let output = { s () };"));
    assert_eq!(
        cached_fn_impl(&toks(""), &toks("struct S;")).unwrap_err(),
        WrapError::NotAFunction
    );
    assert_eq!(
        cached_fn_impl(&toks("bad"), &toks("struct S;")).unwrap_err(),
        WrapError::Attr(attr_err(AttrErrorKind::UnknownName, 0))
    );
}

#[test]
fn constant_string_declares_itself() {
    assert_eq!(
        constant_string_impl(&toks("\"SOME_CONSTANT_STRING_VALUE\"")).unwrap(),
        "pub const SOME_CONSTANT_STRING_VALUE: &str = \"SOME_CONSTANT_STRING_VALUE\";"
    );
    assert!(constant_string_impl(&toks("\"not an ident\"")).is_none());
    assert!(constant_string_impl(&toks("\"fn\"")).is_none());
    assert!(constant_string_impl(&toks("NAME")).is_none());
}

#[test]
fn struct_projects_to_string_map() {
    let out = into_hash_map(&toks(
        "pub struct User { username: String, pub first_name: String, #[doc = \"x\"] last_name: std::string::String, }",
    ))
    .unwrap();
    assert_eq!(
        out,
        "impl From<User> for std::collections::HashMap<String, String> { fn from(value: User) -> Self { \
         let mut hash_map = std::collections::HashMap::<String, String>::new(); \
         hash_map.insert(stringify!(username).to_string(), String::from(value.username)); \
         hash_map.insert(stringify!(first_name).to_string(), String::from(value.first_name)); \
         hash_map.insert(stringify!(last_name).to_string(), String::from(value.last_name)); hash_map } }"
    );
}

#[test]
fn projection_of_other_items() {
    let unit = into_hash_map(&toks("struct Unit;")).unwrap();
    assert!(unit.ends_with("::new(); hash_map } }"));
    assert!(into_hash_map(&toks("struct Pair(u8, u8);")).is_none());
    assert!(into_hash_map(&toks("enum E { A, B }")).is_none());
    assert!(into_hash_map(&toks("fn f() {}")).is_none());
}
