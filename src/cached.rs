//! The option handling of the caching attribute: which expression becomes
//! the cache key of a wrapped function.
use vstd::prelude::*;
use crate::token::Token;
use crate::attr::{ArgModel, AttrError, AttrErrorKind, args_from, parse_attribute_args, texts};
use crate::outside::{quoted, string_literal, str_literal_value, parses_as_expr, string_value, is_expr};

verus! {

/// The statement that binds the cache key to `key`.
pub open spec fn key_statement(key: Seq<char>) -> Seq<char> {
    "let __cache_key = "@ + key + ";"@
}

/// The key expression of a `keygen` value: the contents of a string literal
/// where the value is one (`None` where they are no expression), else the
/// value as written.
pub open spec fn key_expr(v: Seq<char>) -> Option<Seq<char>> {
    match str_literal_value(v) {
        Some(inner) => if parses_as_expr(inner) { Some(inner) } else { None },
        None => Some(v),
    }
}

/// The key statement for the attribute arguments `ts` on a function named
/// `fn_name`: the `keygen` expression where one is given, else the name.
pub open spec fn cache_key_spec(ts: Seq<Token>, fn_name: Seq<char>) -> Result<Seq<char>, (AttrErrorKind, int)> {
    match args_from(ts, 0, seq!["keygen"@], Seq::empty()) {
        Err(x) => Err(x),
        Ok(args) => if args.len() == 0 {
            Ok(key_statement(quoted(fn_name)))
        } else {
            match args[0].value {
                None => Err((AttrErrorKind::ExpectedValue, 1)),
                Some(v) => match key_expr(v) {
                    Some(e) => Ok(key_statement(e)),
                    None => Err((AttrErrorKind::InvalidExpression, 2)),
                },
            }
        },
    }
}

/// The statement that computes the cache key of a wrapped function, from the
/// caching attribute's arguments (only `keygen` is an option).
pub fn cache_key_statement(ts: &Vec<Token>, fn_name: &String) -> (r: Result<String, AttrError>)
    ensures
        match cache_key_spec(ts@, fn_name@) {
            Ok(s) => r matches Ok(x) && x@ == s,
            Err((k, p)) => r matches Err(e) && e.kind == k && e.position == p,
        },
{
    let known = vec![String::from_str("keygen")];
    proof {
        assert(texts(known@) =~= seq!["keygen"@]);
    }
    let args = match parse_attribute_args(ts, &known) {
        Ok(a) => a,
        Err(e) => return Err(e),
    };
    let key = if args.len() == 0 {
        string_literal(fn_name.as_str())
    } else {
        match &args[0].value {
            None => return Err(AttrError { kind: AttrErrorKind::ExpectedValue, position: 1 }),
            Some(v) => match string_value(v.as_str()) {
                Some(inner) => if is_expr(inner.as_str()) {
                    inner
                } else {
                    return Err(AttrError { kind: AttrErrorKind::InvalidExpression, position: 2 });
                },
                None => v.clone(),
            },
        }
    };
    let mut out = String::from_str("let __cache_key = ");
    out.append(key.as_str());
    out.append(";");
    Ok(out)
}

} // verus!
