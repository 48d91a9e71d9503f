//! Lexical units of a macro invocation and their classification.
use vstd::prelude::*;
use crate::outside::{lex, lexed, opt_tokens};

verus! {

/// One top-level token tree of the input.
#[derive(Clone, Debug, PartialEq, Eq)]
pub enum Token {
    /// An identifier or keyword, as written.
    Ident(String),
    /// A punctuation character, and whether it is joined to the next one.
    Punct(char, bool),
    /// A literal (string, number, character, ...), as written.
    Literal(String),
    /// A delimited group, as written.
    Group(String),
}

/// Words that the grammar does not take as identifiers: the underscore and
/// Rust's keywords, reserved words included.
pub open spec fn is_reserved(s: Seq<char>) -> bool {
    s == "_"@ || s == "abstract"@ || s == "as"@ || s == "async"@ || s == "await"@
        || s == "become"@ || s == "box"@ || s == "break"@ || s == "const"@
        || s == "continue"@ || s == "crate"@ || s == "do"@ || s == "dyn"@ || s == "else"@
        || s == "enum"@ || s == "extern"@ || s == "false"@ || s == "final"@ || s == "fn"@
        || s == "for"@ || s == "if"@ || s == "impl"@ || s == "in"@ || s == "let"@
        || s == "loop"@ || s == "macro"@ || s == "match"@ || s == "mod"@ || s == "move"@
        || s == "mut"@ || s == "override"@ || s == "priv"@ || s == "pub"@ || s == "ref"@
        || s == "return"@ || s == "Self"@ || s == "self"@ || s == "static"@
        || s == "struct"@ || s == "super"@ || s == "trait"@ || s == "true"@ || s == "try"@
        || s == "type"@ || s == "typeof"@ || s == "unsafe"@ || s == "unsized"@
        || s == "use"@ || s == "virtual"@ || s == "where"@ || s == "while"@ || s == "yield"@
}

/// `true` or `false`.
pub open spec fn is_bool_word(s: Seq<char>) -> bool {
    s == "true"@ || s == "false"@
}

/// Whether two texts hold the same characters.
pub fn same_text(a: &str, b: &str) -> (r: bool)
    ensures
        r == (a@ == b@),
{
    let n = a.unicode_len();
    if n != b.unicode_len() {
        return false;
    }
    let mut i: usize = 0;
    while i < n
        invariant
            n == a@.len(),
            n == b@.len(),
            0 <= i <= n,
            forall|j: int| 0 <= j < i ==> a@[j] == b@[j],
        decreases n - i,
    {
        if a.get_char(i) != b.get_char(i) {
            return false;
        }
        i = i + 1;
    }
    assert(a@ =~= b@);
    true
}

/// Whether `s` is one of the reserved words.
pub fn reserved(s: &str) -> (r: bool)
    ensures
        r == is_reserved(s@),
{
    same_text(s, "_") || same_text(s, "abstract") || same_text(s, "as")
        || same_text(s, "async") || same_text(s, "await") || same_text(s, "become")
        || same_text(s, "box") || same_text(s, "break") || same_text(s, "const")
        || same_text(s, "continue") || same_text(s, "crate") || same_text(s, "do")
        || same_text(s, "dyn") || same_text(s, "else") || same_text(s, "enum")
        || same_text(s, "extern") || same_text(s, "false") || same_text(s, "final")
        || same_text(s, "fn") || same_text(s, "for") || same_text(s, "if")
        || same_text(s, "impl") || same_text(s, "in") || same_text(s, "let")
        || same_text(s, "loop") || same_text(s, "macro") || same_text(s, "match")
        || same_text(s, "mod") || same_text(s, "move") || same_text(s, "mut")
        || same_text(s, "override") || same_text(s, "priv") || same_text(s, "pub")
        || same_text(s, "ref") || same_text(s, "return") || same_text(s, "Self")
        || same_text(s, "self") || same_text(s, "static") || same_text(s, "struct")
        || same_text(s, "super") || same_text(s, "trait") || same_text(s, "true")
        || same_text(s, "try") || same_text(s, "type") || same_text(s, "typeof")
        || same_text(s, "unsafe") || same_text(s, "unsized") || same_text(s, "use")
        || same_text(s, "virtual") || same_text(s, "where") || same_text(s, "while")
        || same_text(s, "yield")
}

/// Whether `s` is `true` or `false`.
pub fn bool_word(s: &str) -> (r: bool)
    ensures
        r == is_bool_word(s@),
{
    same_text(s, "true") || same_text(s, "false")
}

/// Splits source text into top-level tokens, or `None` where it does not lex.
pub fn tokenize(text: &str) -> (r: Option<Vec<Token>>)
    ensures
        opt_tokens(r) == lexed(text@),
{
    lex(text)
}

} // verus!
