//! Entry points on source text: each lexes its input and runs the expansion
//! on the tokens. A text that does not lex gives `None`.
use vstd::prelude::*;
use crate::token::tokenize;
use crate::outside::lexed;
use crate::parser::ParseError;
use crate::codegen::{hash_mapify_impl, expansion, expansion_agrees};
use crate::wrap::{log_duration_impl, cached_fn_impl, fn_parts, timed_code, cached_code, WrapError};
use crate::cached::cache_key_spec;
use crate::attr::AttrError;
use crate::constant::{constant_string_impl, constant_spec};

verus! {

/// Expands a map literal written as text.
pub fn hash_mapify(input: &str) -> (r: Option<Result<String, ParseError>>)
    ensures
        match lexed(input@) {
            Some(ts) => r matches Some(x) && expansion_agrees(x, expansion(ts)),
            None => r is None,
        },
{
    match tokenize(input) {
        Some(ts) => Some(hash_mapify_impl(&ts)),
        None => None,
    }
}

/// Adds timing to a function written as text; the arguments are not used.
pub fn log_duration(args: &str, item: &str) -> (r: Option<String>)
    ensures
        match lexed(item@) {
            Some(ts) => match fn_parts(ts) {
                Some((h, b, n)) => r matches Some(c) && c@ == timed_code(h, b, n),
                None => r is None,
            },
            None => r is None,
        },
{
    match tokenize(item) {
        Some(ts) => log_duration_impl(&ts),
        None => None,
    }
}

/// Adds on-disk caching to a function written as text, with the caching
/// attribute's arguments as text.
pub fn cached_fn(args: &str, item: &str) -> (r: Option<Result<String, WrapError>>)
    ensures
        match (lexed(args@), lexed(item@)) {
            (Some(a), Some(ts)) => r matches Some(x) && match fn_parts(ts) {
                None => match cache_key_spec(a, Seq::empty()) {
                    Ok(_) => x == Err::<String, WrapError>(WrapError::NotAFunction),
                    Err((k, p)) => x == Err::<String, WrapError>(WrapError::Attr(AttrError { kind: k, position: p as usize })),
                },
                Some((h, b, n)) => match cache_key_spec(a, n) {
                    Ok(key) => x matches Ok(c) && c@ == cached_code(h, b, key),
                    Err((k, p)) => x == Err::<String, WrapError>(WrapError::Attr(AttrError { kind: k, position: p as usize })),
                },
            },
            _ => r is None,
        },
{
    let a = match tokenize(args) {
        Some(a) => a,
        None => return None,
    };
    match tokenize(item) {
        Some(ts) => Some(cached_fn_impl(&a, &ts)),
        None => None,
    }
}

/// Declares a string constant named by its value, from the literal as text.
pub fn constant_string(item: &str) -> (r: Option<String>)
    ensures
        match lexed(item@) {
            Some(ts) => match constant_spec(ts) {
                Some(c) => r matches Some(x) && x@ == c,
                None => r is None,
            },
            None => r is None,
        },
{
    match tokenize(item) {
        Some(ts) => constant_string_impl(&ts),
        None => None,
    }
}

} // verus!
