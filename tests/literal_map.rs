use hash_mapify::codegen::hash_mapify_impl;
use hash_mapify::parser::{ErrorKind, ParseError, ParsedMap, ParsedMapEntry, ValueExpr};
use hash_mapify::token::{tokenize, Token};
use std::collections::HashMap;

fn parse(text: &str) -> Result<ParsedMap, ParseError> {
    ParsedMap::parse(&tokenize(text).expect("input lexes"))
}

fn expand(text: &str) -> Result<String, ParseError> {
    hash_mapify_impl(&tokenize(text).expect("input lexes"))
}

fn kind_of(text: &str) -> (ErrorKind, usize) {
    let e = parse(text).unwrap_err();
    (e.kind, e.position)
}

fn entry(key: &str, value: ValueExpr) -> ParsedMapEntry {
    ParsedMapEntry(key.to_string(), value)
}

fn constant(s: &str) -> ValueExpr {
    ValueExpr::Constant(s.to_string())
}

fn reference(s: &str) -> ValueExpr {
    ValueExpr::Reference(s.to_string())
}

/// Runs the inserts the generated code performs, resolving references in `env`.
fn evaluate(m: &ParsedMap, env: &HashMap<String, String>) -> HashMap<String, String> {
    let mut out = HashMap::new();
    for ParsedMapEntry(k, v) in &m.entries {
        let value = match v {
            ValueExpr::Reference(name) => env[name].clone(),
            ValueExpr::Constant(text) => text.clone(),
        };
        out.insert(k.clone(), value);
    }
    out
}

#[test]
fn end_to_end_str_map() {
    let input = r#"&str, "first_key" = "first_value", "second_variable" = some_variable, some_key = "value for variable key","#;
    let m = parse(input).unwrap();
    assert_eq!(m.value_type, "& str");
    assert_eq!(
        m.entries,
        vec![
            entry("first_key", constant("\"first_value\"")),
            entry("second_variable", reference("some_variable")),
            entry("some_key", constant("\"value for variable key\"")),
        ]
    );
    let mut env = HashMap::new();
    env.insert("some_variable".to_string(), "\"x\"".to_string());
    let built = evaluate(&m, &env);
    let mut expected = HashMap::new();
    expected.insert("first_key".to_string(), "\"first_value\"".to_string());
    expected.insert("second_variable".to_string(), "\"x\"".to_string());
    expected.insert("some_key".to_string(), "\"value for variable key\"".to_string());
    assert_eq!(built, expected);
    assert_eq!(
        expand(input).unwrap(),
        "{ let mut hash_map = std::collections::HashMap::<String, & str>::new(); \
         hash_map.insert(String::from(\"first_key\"), \"first_value\"); \
         hash_map.insert(String::from(\"second_variable\"), some_variable); \
         hash_map.insert(String::from(\"some_key\"), \"value for variable key\"); hash_map }"
    );
}

#[test]
fn number_map() {
    let out = expand(r#"usize, "first_key" = 1, "second_variable" = 2, some_key = 3,"#).unwrap();
    assert_eq!(
        out,
        "{ let mut hash_map = std::collections::HashMap::<String, usize>::new(); \
         hash_map.insert(String::from(\"first_key\"), 1); \
         hash_map.insert(String::from(\"second_variable\"), 2); \
         hash_map.insert(String::from(\"some_key\"), 3); hash_map }"
    );
}

#[test]
fn key_identifier_is_its_name() {
    let m = parse(r#"&str, foo = "bar""#).unwrap();
    assert_eq!(m.entries, vec![entry("foo", constant("\"bar\""))]);
}

#[test]
fn value_identifier_is_a_reference() {
    let m = parse(r#"&str, "k" = foo"#).unwrap();
    assert_eq!(m.entries, vec![entry("k", reference("foo"))]);
    let mut env = HashMap::new();
    env.insert("foo".to_string(), "bar".to_string());
    assert_eq!(evaluate(&m, &env)["k"], "bar");
}

#[test]
fn type_only_with_comma_has_no_entries() {
    let m = parse("usize,").unwrap();
    assert_eq!(m.value_type, "usize");
    assert!(m.entries.is_empty());
    assert_eq!(
        expand("usize,").unwrap(),
        "{ let mut hash_map = std::collections::HashMap::<String, usize>::new(); hash_map }"
    );
}

#[test]
fn type_without_comma_needs_separator() {
    assert_eq!(kind_of("usize"), (ErrorKind::ExpectedSeparator, 1));
}

#[test]
fn empty_input_is_missing_type() {
    assert_eq!(kind_of(""), (ErrorKind::MissingTypeSpecifier, 0));
}

#[test]
fn numeric_key_is_invalid() {
    assert_eq!(kind_of("usize, 1 = 2"), (ErrorKind::InvalidKey, 2));
}

#[test]
fn reserved_word_key_is_invalid() {
    assert_eq!(kind_of("usize, true = 2"), (ErrorKind::InvalidKey, 2));
}

#[test]
fn missing_value_is_unexpected_end() {
    assert_eq!(kind_of(r#"usize, "k" ="#), (ErrorKind::UnexpectedEnd, 4));
}

#[test]
fn missing_assign_is_unexpected_end() {
    assert_eq!(kind_of(r#"usize, "k""#), (ErrorKind::UnexpectedEnd, 3));
}

#[test]
fn wrong_token_for_assign() {
    assert_eq!(kind_of("usize, k 1"), (ErrorKind::ExpectedSeparator, 3));
}

#[test]
fn entries_need_commas_between() {
    assert_eq!(kind_of("usize, a = 1 b = 2"), (ErrorKind::ExpectedSeparator, 5));
}

#[test]
fn punctuation_value_is_invalid() {
    assert_eq!(kind_of("usize, k = +"), (ErrorKind::InvalidValue, 4));
}

#[test]
fn non_type_start_is_expected_type() {
    assert_eq!(kind_of(", k = 1"), (ErrorKind::ExpectedType, 0));
    assert_eq!(kind_of("1, k = 1"), (ErrorKind::ExpectedType, 0));
}

#[test]
fn generic_type_keeps_its_comma() {
    let m = parse("HashMap<String, u8>, a = b").unwrap();
    assert_eq!(m.value_type, "HashMap < String , u8 >");
    assert_eq!(m.entries, vec![entry("a", reference("b"))]);
}

#[test]
fn lifetime_type_is_rejoined() {
    let m = parse("&'static str, a = \"x\"").unwrap();
    assert_eq!(m.value_type, "&'static str");
}

#[test]
fn function_type_arrow() {
    let m = parse("Box<dyn Fn(u8) -> u8>, f = g").unwrap();
    assert_eq!(m.entries, vec![entry("f", reference("g"))]);
}

#[test]
fn literal_values() {
    let m = parse("i64, a = -5, b = true, c = 'c', d = 2.5").unwrap();
    assert_eq!(
        m.entries,
        vec![
            entry("a", constant("-5")),
            entry("b", constant("true")),
            entry("c", constant("'c'")),
            entry("d", constant("2.5")),
        ]
    );
}

#[test]
fn escaped_key_is_unescaped_then_quoted() {
    let m = parse(r#"u8, "a\"b" = 1"#).unwrap();
    assert_eq!(m.entries[0].0, "a\"b");
    assert_eq!(m.entries[0].to_tokens(), "String::from(\"a\\\"b\"), 1");
}

#[test]
fn duplicate_keys_last_write_wins() {
    let m = parse("u8, a = 1, b = 2, a = 3").unwrap();
    assert_eq!(m.entries.len(), 3);
    let built = evaluate(&m, &HashMap::new());
    assert_eq!(built.len(), 2);
    assert_eq!(built["a"], "3");
    assert_eq!(built["b"], "2");
}

#[test]
fn permuted_entries_build_the_same_map() {
    let a = evaluate(&parse("u8, a = 1, b = 2, c = 3").unwrap(), &HashMap::new());
    let b = evaluate(&parse("u8, c = 3, a = 1, b = 2").unwrap(), &HashMap::new());
    assert_eq!(a, b);
    assert_ne!(expand("u8, a = 1, b = 2, c = 3").unwrap(), expand("u8, c = 3, a = 1, b = 2").unwrap());
}

#[test]
fn expansion_is_deterministic() {
    let input = r#"&str, k = v, "x" = "y","#;
    assert_eq!(expand(input).unwrap(), expand(input).unwrap());
}

#[test]
fn tokenize_splits_and_rejects() {
    let ts = tokenize("a, \"b\" = (c)").unwrap();
    assert_eq!(
        ts,
        vec![
            Token::Ident("a".to_string()),
            Token::Punct(',', false),
            Token::Literal("\"b\"".to_string()),
            Token::Punct('=', false),
            Token::Group("(c)".to_string()),
        ]
    );
    assert!(tokenize("\"open").is_none());
}
