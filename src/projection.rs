//! Projecting a struct with named fields onto a map from field name to field
//! value: the code of `impl From<S> for HashMap<String, String>`.
use vstd::prelude::*;
use crate::token::{Token, same_text, tokenize};
use crate::parser::{is_punct, tokens_text, type_end, find_type_end, punct_is, token_text};
use crate::outside::{lexed, opt_tokens, parses_as_derive_input, is_derive_input};

verus! {

/// Index of the first `:` in `i..e`, or `e`.
pub open spec fn colon_from(ts: Seq<Token>, i: int, e: int) -> int
    decreases e - i,
{
    if i >= e || i < 0 || i >= ts.len() {
        e
    } else if is_punct(ts[i], ':') {
        i
    } else {
        colon_from(ts, i + 1, e)
    }
}

/// The name of the field declared by the tokens `i..e`: the identifier just
/// before its first `:`.
pub open spec fn field_name(ts: Seq<Token>, i: int, e: int) -> Option<Seq<char>> {
    let c = colon_from(ts, i, e);
    if c < e && c > i && 0 < c <= ts.len() {
        match ts[c - 1] {
            Token::Ident(n) => Some(n@),
            _ => None,
        }
    } else {
        None
    }
}

/// The field names of the declarations from `i` on, separated by `,`.
pub open spec fn fields_from(ts: Seq<Token>, i: int) -> Option<Seq<Seq<char>>>
    decreases ts.len() - i,
{
    if i < 0 || i >= ts.len() {
        Some(Seq::empty())
    } else {
        let e = type_end(ts, i, 0);
        if e < i {
            None
        } else {
            match field_name(ts, i, e) {
                None => None,
                Some(n) => if e >= ts.len() {
                    Some(seq![n])
                } else {
                    match fields_from(ts, e + 1) {
                        Some(rest) => Some(seq![n] + rest),
                        None => None,
                    }
                },
            }
        }
    }
}

/// Index of the first `struct` keyword followed by an identifier, from `i` on.
pub open spec fn struct_keyword_from(ts: Seq<Token>, i: int) -> Option<int>
    decreases ts.len() - i,
{
    if i < 0 || i + 1 >= ts.len() {
        None
    } else if ts[i] matches Token::Ident(k) && k@ == "struct"@ && ts[i + 1] is Ident {
        Some(i)
    } else {
        struct_keyword_from(ts, i + 1)
    }
}

/// Whether a token is a group in the given opening delimiter.
pub open spec fn is_group_in(t: Token, open: char) -> bool {
    t matches Token::Group(g) && g@.len() >= 2 && g@[0] == open
}

/// The struct's name and the names of its fields; `None` where the item is no
/// struct with named fields (a unit struct has none).
pub open spec fn struct_fields(ts: Seq<Token>) -> Option<(Seq<char>, Seq<Seq<char>>)> {
    if !parses_as_derive_input(tokens_text(ts)) {
        None
    } else {
        match struct_keyword_from(ts, 0) {
            None => None,
            Some(k) => match ts[k + 1] {
                Token::Ident(name) => if k + 2 < ts.len() && is_group_in(ts[k + 2], '(') {
                    None
                } else if is_group_in(ts.last(), '{') {
                    match ts.last() {
                        Token::Group(g) => match lexed(g@.subrange(1, g@.len() - 1)) {
                            Some(inner) => match fields_from(inner, 0) {
                                Some(fs) => Some((name@, fs)),
                                None => None,
                            },
                            None => None,
                        },
                        _ => None,
                    }
                } else {
                    Some((name@, Seq::empty()))
                },
                _ => None,
            },
        }
    }
}

/// One insert per field, in order.
pub open spec fn field_inserts(fs: Seq<Seq<char>>) -> Seq<char>
    decreases fs.len(),
{
    if fs.len() == 0 {
        Seq::empty()
    } else {
        field_inserts(fs.drop_last()) + "hash_map.insert(stringify!("@ + fs.last()
            + ").to_string(), String::from(value."@ + fs.last() + ")); "@
    }
}

/// The `From` impl for a struct with these fields.
pub open spec fn projection_code(name: Seq<char>, fs: Seq<Seq<char>>) -> Seq<char> {
    "impl From<"@ + name + "> for std::collections::HashMap<String, String> { fn from(value: "@
        + name + ") -> Self { let mut hash_map = std::collections::HashMap::<String, String>::new(); "@
        + field_inserts(fs) + "hash_map } }"@
}

fn find_colon(ts: &Vec<Token>, i: usize, e: usize) -> (r: usize)
    requires
        i <= e <= ts.len(),
    ensures
        r as int == colon_from(ts@, i as int, e as int),
        i <= r <= e,
{
    let mut k = i;
    while k < e
        invariant
            i <= k <= e <= ts.len(),
            colon_from(ts@, i as int, e as int) == colon_from(ts@, k as int, e as int),
        decreases e - k,
    {
        if punct_is(&ts[k], ':') {
            return k;
        }
        k = k + 1;
    }
    k
}

/// The field names of a list of field declarations.
pub fn field_names(ts: &Vec<Token>) -> (r: Option<Vec<String>>)
    ensures
        match fields_from(ts@, 0) {
            Some(fs) => r matches Some(v) && v@.map_values(|s: String| s@) == fs,
            None => r is None,
        },
{
    let mut names: Vec<String> = Vec::new();
    let mut i: usize = 0;
    while i < ts.len()
        invariant
            i <= ts.len(),
            fields_from(ts@, 0) == match fields_from(ts@, i as int) {
                Some(rest) => Some(names@.map_values(|s: String| s@) + rest),
                None => None::<Seq<Seq<char>>>,
            },
        decreases ts.len() - i,
    {
        let ghost before = names@.map_values(|s: String| s@);
        let e = find_type_end(ts, i);
        let c = find_colon(ts, i, e);
        if !(c < e && c > i) {
            return None;
        }
        let n = match &ts[c - 1] {
            Token::Ident(n) => n.clone(),
            _ => return None,
        };
        names.push(n);
        proof {
            assert(names@.map_values(|s: String| s@) =~= before.push(n@));
        }
        if e >= ts.len() {
            proof {
                assert(before + seq![n@] =~= before.push(n@));
            }
            i = e;
        } else {
            proof {
                assert forall|rest: Seq<Seq<char>>| before + (seq![n@] + rest) =~= before.push(n@) + rest by {}
            }
            i = e + 1;
        }
    }
    proof {
        assert(names@.map_values(|s: String| s@) + Seq::<Seq<char>>::empty() =~= names@.map_values(|s: String| s@));
    }
    Some(names)
}

fn find_struct_keyword(ts: &Vec<Token>) -> (r: Option<usize>)
    ensures
        match struct_keyword_from(ts@, 0) {
            Some(k) => r == Some(k as usize) && 0 <= k && k + 1 < ts.len(),
            None => r is None,
        },
{
    let mut i: usize = 0;
    while i < ts.len() && i + 1 < ts.len()
        invariant
            i <= ts.len(),
            struct_keyword_from(ts@, 0) == struct_keyword_from(ts@, i as int),
        decreases ts.len() - i,
    {
        let hit = match &ts[i] {
            Token::Ident(k) => same_text(k.as_str(), "struct") && match &ts[i + 1] {
                Token::Ident(_) => true,
                _ => false,
            },
            _ => false,
        };
        if hit {
            return Some(i);
        }
        i = i + 1;
    }
    None
}

fn group_in(t: &Token, open: char) -> (r: bool)
    ensures
        r == is_group_in(*t, open),
{
    match t {
        Token::Group(g) => g.as_str().unicode_len() >= 2 && g.as_str().get_char(0) == open,
        _ => false,
    }
}

/// The code of `impl From<S> for HashMap<String, String>` that maps each
/// field's name to its value converted with `String::from`; `None` where the
/// item is no struct with named fields.
pub fn into_hash_map(item: &Vec<Token>) -> (r: Option<String>)
    ensures
        match struct_fields(item@) {
            Some((name, fs)) => r matches Some(c) && c@ == projection_code(name, fs),
            None => r is None,
        },
{
    let n = item.len();
    let text = crate::parser::join_tokens(item, 0, n);
    proof {
        assert(item@.subrange(0, n as int) =~= item@);
    }
    if !is_derive_input(text.as_str()) {
        return None;
    }
    let k = match find_struct_keyword(item) {
        Some(k) => k,
        None => return None,
    };
    let name = match &item[k + 1] {
        Token::Ident(s) => s,
        _ => return None,
    };
    if k + 2 < n && group_in(&item[k + 2], '(') {
        return None;
    }
    let fields: Vec<String> = if group_in(&item[n - 1], '{') {
        match &item[n - 1] {
            Token::Group(g) => {
                let len = g.as_str().unicode_len();
                let inner = g.as_str().substring_char(1, len - 1);
                match tokenize(inner) {
                    Some(inner_ts) => match field_names(&inner_ts) {
                        Some(fs) => fs,
                        None => return None,
                    },
                    None => return None,
                }
            },
            _ => return None,
        }
    } else {
        Vec::new()
    };
    let ghost fs = fields@.map_values(|s: String| s@);
    let mut out = String::from_str("impl From<");
    out.append(name.as_str());
    out.append("> for std::collections::HashMap<String, String> { fn from(value: ");
    out.append(name.as_str());
    out.append(") -> Self { let mut hash_map = std::collections::HashMap::<String, String>::new(); ");
    let ghost head = out@;
    let mut j: usize = 0;
    while j < fields.len()
        invariant
            j <= fields.len(),
            fs == fields@.map_values(|s: String| s@),
            out@ == head + field_inserts(fs.subrange(0, j as int)),
        decreases fields.len() - j,
    {
        out.append("hash_map.insert(stringify!(");
        out.append(fields[j].as_str());
        out.append(").to_string(), String::from(value.");
        out.append(fields[j].as_str());
        out.append(")); ");
        proof {
            assert(fs.subrange(0, j + 1).drop_last() =~= fs.subrange(0, j as int));
        }
        j = j + 1;
    }
    proof {
        assert(fs.subrange(0, j as int) =~= fs);
    }
    out.append("hash_map } }");
    Some(out)
}

} // verus!
