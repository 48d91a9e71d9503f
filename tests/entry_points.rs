use hash_mapify::entry::{cached_fn, constant_string, hash_mapify, log_duration};
use hash_mapify::parser::ErrorKind;

#[test]
fn hash_mapify_on_text() {
    let out = hash_mapify("u8, a = 1,").unwrap().unwrap();
    assert_eq!(
        out,
        "{ let mut hash_map = std::collections::HashMap::<String, u8>::new(); \
         hash_map.insert(String::from(\"a\"), 1); hash_map }"
    );
    assert_eq!(hash_mapify("").unwrap().unwrap_err().kind, ErrorKind::MissingTypeSpecifier);
    assert!(hash_mapify("u8, a = \"open").is_none());
}

#[test]
fn log_duration_on_text() {
    let out = log_duration("", "fn f() -> u16 { 7 }").unwrap();
    assert!(out.contains("stringify!(f)"));
    assert!(out.contains("let __result = { 7 };"));
    assert!(log_duration("", "let x = 1;").is_none());
}

#[test]
fn cached_fn_on_text() {
    let out = cached_fn(
        r#"keygen = "format!(\"{first_name} {last_name}\")""#,
        "fn test_cache(first_name: String, last_name: String) -> String { format!(\"{first_name} {last_name}\") }",
    )
    .unwrap()
    .unwrap();
    assert!(out.starts_with(
        "fn test_cache (first_name : String , last_name : String) -> String { let __cache_key = format!(\"{first_name} {last_name}\");"
    ));
    assert!(cached_fn("(", "fn f() {}").is_none());
}

#[test]
fn constant_string_on_text() {
    assert_eq!(constant_string("\"ABC\"").unwrap(), "pub const ABC: &str = \"ABC\";");
    assert!(constant_string("\"a b\"").is_none());
}
