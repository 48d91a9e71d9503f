//! Declaring a string constant named by its own value.
use vstd::prelude::*;
use crate::token::{Token, is_reserved, reserved, tokenize};
use crate::outside::{lexed, str_literal_value, string_value};

verus! {

/// Whether `name` lexes to one identifier that is no reserved word.
pub open spec fn is_identifier(name: Seq<char>) -> bool {
    match lexed(name) {
        Some(ts) => ts.len() == 1 && (ts[0] matches Token::Ident(n) && !is_reserved(n@)),
        None => false,
    }
}

/// The declaration for the input tokens: one string literal whose value is an
/// identifier.
pub open spec fn constant_spec(ts: Seq<Token>) -> Option<Seq<char>> {
    if ts.len() != 1 {
        None
    } else {
        match ts[0] {
            Token::Literal(text) => match str_literal_value(text@) {
                Some(v) => if is_identifier(v) {
                    Some("pub const "@ + v + ": &str = "@ + text@ + ";"@)
                } else {
                    None
                },
                None => None,
            },
            _ => None,
        }
    }
}

fn identifier(name: &String) -> (r: bool)
    ensures
        r == is_identifier(name@),
{
    match tokenize(name.as_str()) {
        Some(ts) => ts.len() == 1 && match &ts[0] {
            Token::Ident(n) => !reserved(n.as_str()),
            _ => false,
        },
        None => false,
    }
}

/// Declares `pub const NAME: &str = "NAME";` for the string literal
/// `"NAME"`; `None` where the input is not one string literal whose value is
/// an identifier.
pub fn constant_string_impl(ts: &Vec<Token>) -> (r: Option<String>)
    ensures
        match constant_spec(ts@) {
            Some(c) => r matches Some(x) && x@ == c,
            None => r is None,
        },
{
    if ts.len() != 1 {
        return None;
    }
    let text = match &ts[0] {
        Token::Literal(t) => t,
        _ => return None,
    };
    let v = match string_value(text.as_str()) {
        Some(v) => v,
        None => return None,
    };
    if !identifier(&v) {
        return None;
    }
    let mut out = String::from_str("pub const ");
    out.append(v.as_str());
    out.append(": &str = ");
    out.append(text.as_str());
    out.append(";");
    Some(out)
}

} // verus!
