//! The literal-map grammar:
//!
//! ```text
//! literal    := type_spec ',' entry_list?
//! entry_list := entry (',' entry)* ','?
//! entry      := key '=' value
//! ```
//!
//! A key is an identifier (taken by name) or a string literal (taken by
//! value); a value is an identifier (a reference to a binding) or a literal.
use vstd::prelude::*;
use crate::token::{Token, is_reserved, is_bool_word, reserved, bool_word, same_text};
use crate::outside::{str_literal_value, parses_as_type, opt_text, string_value, is_type, char_string};

verus! {

/// What a value position holds.
#[derive(Clone, Debug, PartialEq, Eq)]
pub enum ValueExpr {
    /// A binding, evaluated where the map is built.
    Reference(String),
    /// A literal, reproduced as written.
    Constant(String),
}

/// The model of a value: the binding's name or the literal's text.
pub enum ValueModel {
    Reference(Seq<char>),
    Constant(Seq<char>),
}

impl View for ValueExpr {
    type V = ValueModel;

    open spec fn view(&self) -> ValueModel {
        match self {
            ValueExpr::Reference(s) => ValueModel::Reference(s@),
            ValueExpr::Constant(s) => ValueModel::Constant(s@),
        }
    }
}

/// One `key = value` entry: the key text and the value.
#[derive(Clone, Debug, PartialEq, Eq)]
pub struct ParsedMapEntry(pub String, pub ValueExpr);

/// The model of an entry.
pub struct EntryModel {
    pub key: Seq<char>,
    pub value: ValueModel,
}

impl View for ParsedMapEntry {
    type V = EntryModel;

    open spec fn view(&self) -> EntryModel {
        EntryModel { key: self.0@, value: self.1@ }
    }
}

/// A parsed literal: the source text of the value type and the entries in
/// source order.
#[derive(Clone, Debug, PartialEq, Eq)]
pub struct ParsedMap {
    pub value_type: String,
    pub entries: Vec<ParsedMapEntry>,
}

/// The model of a parsed literal.
pub struct ParsedModel {
    pub value_type: Seq<char>,
    pub entries: Seq<EntryModel>,
}

/// The models of a sequence of entries.
pub open spec fn entries_view(es: Seq<ParsedMapEntry>) -> Seq<EntryModel> {
    es.map_values(|e: ParsedMapEntry| e@)
}

impl View for ParsedMap {
    type V = ParsedModel;

    open spec fn view(&self) -> ParsedModel {
        ParsedModel { value_type: self.value_type@, entries: entries_view(self.entries@) }
    }
}

/// The kinds of parse failure.
#[derive(Clone, Copy, Debug, PartialEq, Eq, Structural)]
pub enum ErrorKind {
    /// The input is empty.
    MissingTypeSpecifier,
    /// The input does not start with a type.
    ExpectedType,
    /// A `,` or `=` was expected and something else, or nothing, stood there.
    ExpectedSeparator,
    /// A key is neither an identifier nor a string literal.
    InvalidKey,
    /// A value is neither an identifier nor a literal.
    InvalidValue,
    /// The input ends inside an entry.
    UnexpectedEnd,
}

/// A parse failure: its kind and the index of the token where it occurred
/// (the token count where the input ended).
#[derive(Clone, Copy, Debug, PartialEq, Eq, Structural)]
pub struct ParseError {
    pub kind: ErrorKind,
    pub position: usize,
}

/// The source text of one token.
pub open spec fn token_text(t: Token) -> Seq<char> {
    match t {
        Token::Ident(s) => s@,
        Token::Punct(c, _) => seq![c],
        Token::Literal(s) => s@,
        Token::Group(s) => s@,
    }
}

/// The source text of a run of tokens: a space between two tokens unless the
/// first is punctuation joined to the next.
pub open spec fn tokens_text(ts: Seq<Token>) -> Seq<char>
    decreases ts.len(),
{
    if ts.len() == 0 {
        Seq::empty()
    } else if ts.len() == 1 {
        token_text(ts[0])
    } else {
        let prev = ts[ts.len() - 2];
        let sep = if prev matches Token::Punct(_, true) { Seq::empty() } else { " "@ };
        tokens_text(ts.drop_last()) + sep + token_text(ts.last())
    }
}

/// Whether a token is the punctuation character `c`.
pub open spec fn is_punct(t: Token, c: char) -> bool {
    t matches Token::Punct(d, _) && d == c
}

/// Whether the `>` at `i` closes an angle bracket rather than ending `->`.
pub open spec fn closes_angle(ts: Seq<Token>, i: int) -> bool {
    is_punct(ts[i], '>') && !(i > 0 && ts[i - 1] matches Token::Punct('-', true))
}

/// Index of the first `,` from `i` on that no angle bracket encloses, given
/// `depth` brackets open; the length where there is none.
pub open spec fn type_end(ts: Seq<Token>, i: int, depth: nat) -> int
    decreases ts.len() - i,
{
    if i < 0 || i >= ts.len() {
        ts.len() as int
    } else if is_punct(ts[i], ',') && depth == 0 {
        i
    } else if is_punct(ts[i], '<') {
        type_end(ts, i + 1, depth + 1)
    } else if closes_angle(ts, i) && depth > 0 {
        type_end(ts, i + 1, (depth - 1) as nat)
    } else {
        type_end(ts, i + 1, depth)
    }
}

/// The key text of a token in key position.
pub open spec fn key_of(t: Token) -> Option<Seq<char>> {
    match t {
        Token::Ident(s) => if is_reserved(s@) { None } else { Some(s@) },
        Token::Literal(s) => str_literal_value(s@),
        _ => None,
    }
}

/// Whether a text starts with a decimal digit, as numeric literals do.
pub open spec fn starts_with_digit(s: Seq<char>) -> bool {
    s.len() > 0 && '0' <= s[0] <= '9'
}

/// The value at `i` and the number of tokens it takes.
pub open spec fn value_at(ts: Seq<Token>, i: int) -> Option<(ValueModel, nat)> {
    if i < 0 || i >= ts.len() {
        None
    } else {
        match ts[i] {
            Token::Ident(s) => if !is_reserved(s@) {
                Some((ValueModel::Reference(s@), 1))
            } else if is_bool_word(s@) {
                Some((ValueModel::Constant(s@), 1))
            } else {
                None
            },
            Token::Literal(s) => Some((ValueModel::Constant(s@), 1)),
            Token::Punct('-', _) => if i + 1 < ts.len() {
                match ts[i + 1] {
                    Token::Literal(s) => if starts_with_digit(s@) {
                        Some((ValueModel::Constant("-"@ + s@), 2))
                    } else {
                        None
                    },
                    _ => None,
                }
            } else {
                None
            },
            _ => None,
        }
    }
}

/// The entry that starts at `i` and the index just past it.
pub open spec fn entry_at(ts: Seq<Token>, i: int) -> Result<(EntryModel, int), (ErrorKind, int)> {
    match key_of(ts[i]) {
        None => Err((ErrorKind::InvalidKey, i)),
        Some(k) => if i + 1 >= ts.len() {
            Err((ErrorKind::UnexpectedEnd, i + 1))
        } else if !is_punct(ts[i + 1], '=') {
            Err((ErrorKind::ExpectedSeparator, i + 1))
        } else if i + 2 >= ts.len() {
            Err((ErrorKind::UnexpectedEnd, i + 2))
        } else {
            match value_at(ts, i + 2) {
                None => Err((ErrorKind::InvalidValue, i + 2)),
                Some((v, w)) => Ok((EntryModel { key: k, value: v }, i + 2 + w)),
            }
        },
    }
}

/// The entries of the list that starts at `i`.
pub open spec fn entries_from(ts: Seq<Token>, i: int) -> Result<Seq<EntryModel>, (ErrorKind, int)>
    decreases ts.len() - i,
{
    if i < 0 || i >= ts.len() {
        Ok(Seq::empty())
    } else {
        match entry_at(ts, i) {
            Err(x) => Err(x),
            Ok((e, j)) => if j <= i || j >= ts.len() {
                Ok(seq![e])
            } else if is_punct(ts[j], ',') {
                match entries_from(ts, j + 1) {
                    Ok(rest) => Ok(seq![e] + rest),
                    Err(x) => Err(x),
                }
            } else {
                Err((ErrorKind::ExpectedSeparator, j))
            },
        }
    }
}

/// What a token stream parses to.
pub open spec fn parse_spec(ts: Seq<Token>) -> Result<ParsedModel, (ErrorKind, int)> {
    if ts.len() == 0 {
        Err((ErrorKind::MissingTypeSpecifier, 0))
    } else {
        let e = type_end(ts, 0, 0);
        let ty = tokens_text(ts.subrange(0, e));
        if e == 0 || !parses_as_type(ty) {
            Err((ErrorKind::ExpectedType, 0))
        } else if e >= ts.len() {
            Err((ErrorKind::ExpectedSeparator, e))
        } else {
            match entries_from(ts, e + 1) {
                Ok(es) => Ok(ParsedModel { value_type: ty, entries: es }),
                Err(x) => Err(x),
            }
        }
    }
}

/// Whether an exec result agrees with a spec result.
pub open spec fn parse_agrees(r: Result<ParsedMap, ParseError>, s: Result<ParsedModel, (ErrorKind, int)>) -> bool {
    match s {
        Ok(m) => r matches Ok(p) && p@ == m,
        Err((k, pos)) => r matches Err(e) && e.kind == k && e.position == pos,
    }
}

/// The key text of a token in key position: an identifier's name, or a
/// string literal's value.
pub fn parse_key(t: &Token) -> (r: Option<String>)
    ensures
        opt_text(r) == key_of(*t),
{
    match t {
        Token::Ident(s) => if reserved(s.as_str()) { None } else { Some(s.clone()) },
        Token::Literal(s) => string_value(s.as_str()),
        _ => None,
    }
}

fn first_is_digit(s: &String) -> (r: bool)
    ensures
        r == starts_with_digit(s@),
{
    let n = s.as_str().unicode_len();
    if n == 0 {
        false
    } else {
        let c = s.as_str().get_char(0);
        '0' <= c && c <= '9'
    }
}

/// The value at `i` (an identifier becomes a reference, a literal a
/// constant) and the number of tokens it takes.
pub fn parse_value(ts: &Vec<Token>, i: usize) -> (r: Option<(ValueExpr, usize)>)
    ensures
        match value_at(ts@, i as int) {
            Some((v, w)) => r matches Some((x, n)) && x@ == v && n == w,
            None => r is None,
        },
{
    if i >= ts.len() {
        return None;
    }
    match &ts[i] {
        Token::Ident(s) => if !reserved(s.as_str()) {
            Some((ValueExpr::Reference(s.clone()), 1))
        } else if bool_word(s.as_str()) {
            Some((ValueExpr::Constant(s.clone()), 1))
        } else {
            None
        },
        Token::Literal(s) => Some((ValueExpr::Constant(s.clone()), 1)),
        Token::Punct(c, _) => if *c == '-' && i + 1 < ts.len() {
            match &ts[i + 1] {
                Token::Literal(s) => if first_is_digit(s) {
                    let mut t = String::from_str("-");
                    t.append(s.as_str());
                    Some((ValueExpr::Constant(t), 2))
                } else {
                    None
                },
                _ => None,
            }
        } else {
            None
        },
        _ => None,
    }
}

/// Whether a token is the punctuation character `c`.
pub fn punct_is(t: &Token, c: char) -> (r: bool)
    ensures
        r == is_punct(*t, c),
{
    match t {
        Token::Punct(d, _) => *d == c,
        _ => false,
    }
}

/// The entry that starts at `i` and the index just past it.
pub fn parse_entry(ts: &Vec<Token>, i: usize) -> (r: Result<(ParsedMapEntry, usize), ParseError>)
    requires
        i < ts.len(),
    ensures
        match entry_at(ts@, i as int) {
            Ok((e, j)) => r matches Ok((x, n)) && x@ == e && n == j && i < n <= ts.len(),
            Err((k, p)) => r matches Err(x) && x.kind == k && x.position == p,
        },
{
    let key = match parse_key(&ts[i]) {
        Some(k) => k,
        None => return Err(ParseError { kind: ErrorKind::InvalidKey, position: i }),
    };
    if i + 1 >= ts.len() {
        return Err(ParseError { kind: ErrorKind::UnexpectedEnd, position: i + 1 });
    }
    if !punct_is(&ts[i + 1], '=') {
        return Err(ParseError { kind: ErrorKind::ExpectedSeparator, position: i + 1 });
    }
    if i + 2 >= ts.len() {
        return Err(ParseError { kind: ErrorKind::UnexpectedEnd, position: i + 2 });
    }
    match parse_value(ts, i + 2) {
        Some((v, w)) => Ok((ParsedMapEntry(key, v), i + 2 + w)),
        None => Err(ParseError { kind: ErrorKind::InvalidValue, position: i + 2 }),
    }
}

/// Index of the first `,` from `start` on that no angle bracket encloses, or
/// the length.
pub fn find_type_end(ts: &Vec<Token>, start: usize) -> (r: usize)
    requires
        start <= ts.len(),
    ensures
        r as int == type_end(ts@, start as int, 0),
        start <= r <= ts.len(),
{
    let mut i: usize = start;
    let mut depth: usize = 0;
    while i < ts.len()
        invariant
            type_end(ts@, start as int, 0) == type_end(ts@, i as int, depth as nat),
            start <= i <= ts.len(),
            depth <= i - start,
        decreases ts.len() - i,
    {
        if punct_is(&ts[i], ',') && depth == 0 {
            return i;
        } else if punct_is(&ts[i], '<') {
            depth = depth + 1;
        } else if punct_is(&ts[i], '>') && depth > 0 {
            let arrow = i > 0 && match &ts[i - 1] {
                Token::Punct(c, joint) => *c == '-' && *joint,
                _ => false,
            };
            if !arrow {
                depth = depth - 1;
            }
        }
        i = i + 1;
    }
    i
}

fn token_string(t: &Token) -> (r: String)
    ensures
        r@ == token_text(*t),
{
    match t {
        Token::Ident(s) => s.clone(),
        Token::Punct(c, _) => char_string(*c),
        Token::Literal(s) => s.clone(),
        Token::Group(s) => s.clone(),
    }
}

/// The source text of the tokens from `from` up to `to`.
pub fn join_tokens(ts: &Vec<Token>, from: usize, to: usize) -> (r: String)
    requires
        from <= to <= ts.len(),
    ensures
        r@ == tokens_text(ts@.subrange(from as int, to as int)),
{
    let mut out = String::new();
    let mut k: usize = from;
    proof {
        assert(ts@.subrange(from as int, from as int).len() == 0);
    }
    while k < to
        invariant
            to <= ts.len(),
            from <= k <= to,
            out@ == tokens_text(ts@.subrange(from as int, k as int)),
        decreases to - k,
    {
        let piece = token_string(&ts[k]);
        proof {
            assert(ts@.subrange(from as int, k + 1).drop_last() =~= ts@.subrange(from as int, k as int));
        }
        if k > from {
            let joined = match &ts[k - 1] {
                Token::Punct(_, joint) => *joint,
                _ => false,
            };
            if !joined {
                out.append(" ");
            }
        } else {
            proof {
                assert(out@ =~= Seq::<char>::empty());
            }
        }
        out.append(piece.as_str());
        k = k + 1;
    }
    out
}

impl ParsedMap {
    /// Parses a token stream: a type, a `,`, then `key = value` entries
    /// separated by `,`, with an optional trailing `,`.
    pub fn parse(ts: &Vec<Token>) -> (r: Result<ParsedMap, ParseError>)
        ensures
            parse_agrees(r, parse_spec(ts@)),
    {
        if ts.len() == 0 {
            return Err(ParseError { kind: ErrorKind::MissingTypeSpecifier, position: 0 });
        }
        let end = find_type_end(ts, 0);
        let ty = join_tokens(ts, 0, end);
        if end == 0 || !is_type(ty.as_str()) {
            return Err(ParseError { kind: ErrorKind::ExpectedType, position: 0 });
        }
        if end >= ts.len() {
            return Err(ParseError { kind: ErrorKind::ExpectedSeparator, position: end });
        }
        let start = end + 1;
        proof {
            let e = type_end(ts@, 0, 0);
            assert(e == end);
            assert(ty@ == tokens_text(ts@.subrange(0, e)));
            assert(parses_as_type(ty@));
            assert(e < ts@.len());
            assert(parse_spec(ts@) == with_type(ty@, entries_from(ts@, start as int)));
        }
        let mut entries: Vec<ParsedMapEntry> = Vec::new();
        let mut i = start;
        while i < ts.len()
            invariant
                start <= i <= ts.len(),
                parse_spec(ts@) == with_type(ty@, entries_from(ts@, start as int)),
                entries_from(ts@, start as int) == prepend(entries_view(entries@), entries_from(ts@, i as int)),
            decreases ts.len() - i,
        {
            let ghost before = entries_view(entries@);
            let (e, j) = match parse_entry(ts, i) {
                Ok(x) => x,
                Err(x) => {
                    proof {
                        assert(entries_from(ts@, i as int) == Err::<Seq<EntryModel>, (ErrorKind, int)>((x.kind, x.position as int)));
                    }
                    return Err(x);
                },
            };
            entries.push(e);
            proof {
                assert(entries_view(entries@) =~= before.push(e@));
            }
            if j >= ts.len() {
                i = j;
                proof {
                    assert(before + seq![e@] =~= before.push(e@));
                }
            } else if punct_is(&ts[j], ',') {
                i = j + 1;
                proof {
                    assert forall|rest: Seq<EntryModel>| before + (seq![e@] + rest) =~= before.push(e@) + rest by {}
                }
            } else {
                proof {
                    assert(entries_from(ts@, i as int) == Err::<Seq<EntryModel>, (ErrorKind, int)>((ErrorKind::ExpectedSeparator, j as int)));
                }
                return Err(ParseError { kind: ErrorKind::ExpectedSeparator, position: j });
            }
        }
        proof {
            assert(entries_view(entries@) + Seq::<EntryModel>::empty() =~= entries_view(entries@));
        }
        Ok(ParsedMap { value_type: ty, entries })
    }
}

/// A parsed literal of value type `ty` with the entries of `r`, or the
/// failure of `r`.
pub open spec fn with_type(ty: Seq<char>, r: Result<Seq<EntryModel>, (ErrorKind, int)>) -> Result<ParsedModel, (ErrorKind, int)> {
    match r {
        Ok(es) => Ok(ParsedModel { value_type: ty, entries: es }),
        Err(x) => Err(x),
    }
}

/// The entries `acc` followed by those of `r`, or the failure of `r`.
pub open spec fn prepend(acc: Seq<EntryModel>, r: Result<Seq<EntryModel>, (ErrorKind, int)>) -> Result<Seq<EntryModel>, (ErrorKind, int)> {
    match r {
        Ok(rest) => Ok(acc + rest),
        Err(x) => Err(x),
    }
}

} // verus!
