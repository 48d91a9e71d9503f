//! The calls into proc-macro2 and syn that the grammar relies on.
use vstd::prelude::*;
use crate::token::Token;
use proc_macro2::TokenTree;

verus! {

/// The tokens that the Rust lexer makes of a source text, or `None` where the
/// text does not lex.
pub uninterp spec fn lexed(s: Seq<char>) -> Option<Seq<Token>>;

/// The value of a Rust string literal written as `text`, or `None` where
/// `text` is not one string literal.
pub uninterp spec fn str_literal_value(text: Seq<char>) -> Option<Seq<char>>;

/// Whether `text` is one Rust type.
pub uninterp spec fn parses_as_type(text: Seq<char>) -> bool;

/// Whether `text` is one Rust expression.
pub uninterp spec fn parses_as_expr(text: Seq<char>) -> bool;

/// Whether `text` is one Rust function item.
pub uninterp spec fn parses_as_fn_item(text: Seq<char>) -> bool;

/// Whether `text` is one struct, enum or union item.
pub uninterp spec fn parses_as_derive_input(text: Seq<char>) -> bool;

/// The source text of the Rust string literal whose value is `s`.
pub uninterp spec fn quoted(s: Seq<char>) -> Seq<char>;

/// The view of an optional sequence of tokens.
pub open spec fn opt_tokens(r: Option<Vec<Token>>) -> Option<Seq<Token>> {
    match r {
        Some(v) => Some(v@),
        None => None,
    }
}

/// The view of an optional string.
pub open spec fn opt_text(r: Option<String>) -> Option<Seq<char>> {
    match r {
        Some(v) => Some(v@),
        None => None,
    }
}

/// Relies on `proc_macro2::TokenStream::from_str` to lex `s`; each top-level
/// token tree becomes one `Token` carrying its printed text.
#[verifier::external_body]
pub(crate) fn lex(s: &str) -> (r: Option<Vec<Token>>)
    ensures
        opt_tokens(r) == lexed(s@),
{
    let ts: proc_macro2::TokenStream = s.parse().ok()?;
    Some(ts.into_iter().map(|t| match t {
        TokenTree::Ident(i) => Token::Ident(i.to_string()),
        TokenTree::Punct(p) => Token::Punct(p.as_char(), p.spacing() == proc_macro2::Spacing::Joint),
        TokenTree::Literal(l) => Token::Literal(l.to_string()),
        TokenTree::Group(g) => Token::Group(g.to_string()),
    }).collect())
}

/// Relies on `syn::parse_str::<syn::LitStr>` and `LitStr::value`: the
/// unescaped value of a string literal.
#[verifier::external_body]
pub(crate) fn string_value(text: &str) -> (r: Option<String>)
    ensures
        opt_text(r) == str_literal_value(text@),
{
    syn::parse_str::<syn::LitStr>(text).ok().map(|l| l.value())
}

/// Relies on `syn::parse_str::<syn::Type>`: whether the text is one type.
#[verifier::external_body]
pub(crate) fn is_type(text: &str) -> (r: bool)
    ensures
        r == parses_as_type(text@),
{
    syn::parse_str::<syn::Type>(text).is_ok()
}

/// Relies on `syn::parse_str::<syn::Expr>`: whether the text is one
/// expression.
#[verifier::external_body]
pub(crate) fn is_expr(text: &str) -> (r: bool)
    ensures
        r == parses_as_expr(text@),
{
    syn::parse_str::<syn::Expr>(text).is_ok()
}

/// Relies on `syn::parse_str::<syn::ItemFn>`: whether the text is one
/// function item.
#[verifier::external_body]
pub(crate) fn is_fn_item(text: &str) -> (r: bool)
    ensures
        r == parses_as_fn_item(text@),
{
    syn::parse_str::<syn::ItemFn>(text).is_ok()
}

/// Relies on `syn::parse_str::<syn::DeriveInput>`: whether the text is one
/// struct, enum or union item.
#[verifier::external_body]
pub(crate) fn is_derive_input(text: &str) -> (r: bool)
    ensures
        r == parses_as_derive_input(text@),
{
    syn::parse_str::<syn::DeriveInput>(text).is_ok()
}

/// Relies on `proc_macro2::Literal::string`: the escaped source text of a
/// string literal holding `s`.
#[verifier::external_body]
pub(crate) fn string_literal(s: &str) -> (r: String)
    ensures
        r@ == quoted(s@),
{
    proc_macro2::Literal::string(s).to_string()
}

/// Relies on `char::to_string`: a string of that one character.
#[verifier::external_body]
pub(crate) fn char_string(c: char) -> (r: String)
    ensures
        r@ == seq![c],
{
    c.to_string()
}

} // verus!
