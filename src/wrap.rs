//! Rewriting a function item so that its body runs inside added code: timing
//! and caching. The item's tokens end with its body block, and its name is
//! the identifier that follows `fn`.
use vstd::prelude::*;
use crate::token::{Token, same_text};
use crate::parser::{tokens_text, token_text, join_tokens};
use crate::attr::AttrError;
use crate::cached::{cache_key_spec, cache_key_statement};
use crate::outside::{parses_as_fn_item, is_fn_item};

verus! {

/// The parts of a function item that the rewrites use.
pub struct FnParts {
    /// Attributes, visibility and signature, as written.
    pub head: String,
    /// The body block, braces included.
    pub body: String,
    /// The function's name.
    pub name: String,
}

/// Index of the first `fn` keyword followed by an identifier, from `i` on.
pub open spec fn fn_keyword_from(ts: Seq<Token>, i: int) -> Option<int>
    decreases ts.len() - i,
{
    if i < 0 || i + 1 >= ts.len() {
        None
    } else if ts[i] matches Token::Ident(k) && k@ == "fn"@ && ts[i + 1] is Ident {
        Some(i)
    } else {
        fn_keyword_from(ts, i + 1)
    }
}

/// The parts of a function item, or `None` where the tokens are no function.
pub open spec fn fn_parts(ts: Seq<Token>) -> Option<(Seq<char>, Seq<char>, Seq<char>)> {
    if !parses_as_fn_item(tokens_text(ts)) || ts.len() == 0 {
        None
    } else {
        match fn_keyword_from(ts, 0) {
            Some(k) => match ts[k + 1] {
                Token::Ident(n) => Some((tokens_text(ts.drop_last()), token_text(ts.last()), n@)),
                _ => None,
            },
            None => None,
        }
    }
}

/// Whether an exec result agrees with a spec result.
pub open spec fn parts_agree(r: Option<FnParts>, s: Option<(Seq<char>, Seq<char>, Seq<char>)>) -> bool {
    match s {
        Some((h, b, n)) => r matches Some(p) && p.head@ == h && p.body@ == b && p.name@ == n,
        None => r is None,
    }
}

fn find_fn_keyword(ts: &Vec<Token>) -> (r: Option<usize>)
    ensures
        match fn_keyword_from(ts@, 0) {
            Some(k) => r == Some(k as usize) && 0 <= k && k + 1 < ts.len(),
            None => r is None,
        },
{
    let mut i: usize = 0;
    while i < ts.len() && i + 1 < ts.len()
        invariant
            i <= ts.len(),
            fn_keyword_from(ts@, 0) == fn_keyword_from(ts@, i as int),
        decreases ts.len() - i,
    {
        let hit = match &ts[i] {
            Token::Ident(k) => same_text(k.as_str(), "fn") && match &ts[i + 1] {
                Token::Ident(_) => true,
                _ => false,
            },
            _ => false,
        };
        if hit {
            return Some(i);
        }
        i = i + 1;
    }
    None
}

/// Splits a function item into its head, its body and its name.
pub fn split_fn(ts: &Vec<Token>) -> (r: Option<FnParts>)
    ensures
        parts_agree(r, fn_parts(ts@)),
{
    let n = ts.len();
    let text = join_tokens(ts, 0, n);
    proof {
        assert(ts@.subrange(0, n as int) =~= ts@);
    }
    if !is_fn_item(text.as_str()) || n == 0 {
        return None;
    }
    let k = match find_fn_keyword(ts) {
        Some(k) => k,
        None => return None,
    };
    let name = match &ts[k + 1] {
        Token::Ident(s) => s.clone(),
        _ => return None,
    };
    let head = join_tokens(ts, 0, n - 1);
    let body = join_tokens(ts, n - 1, n);
    proof {
        assert(ts@.subrange(0, n - 1) =~= ts@.drop_last());
        assert(ts@.subrange(n - 1, n as int) =~= seq![ts@.last()]);
    }
    Some(FnParts { head, body, name })
}

/// The timed rewrite of a function with these parts.
pub open spec fn timed_code(h: Seq<char>, b: Seq<char>, n: Seq<char>) -> Seq<char> {
    h + " { let __start = std::time::Instant::now(); let __result = "@ + b
        + "; println!(\"{} took {}μs\", stringify!("@ + n
        + "), __start.elapsed().as_micros()); return __result; }"@
}

/// Rewrites a function so that it prints how long its body took and then
/// returns the body's value; `None` where the item is no function.
pub fn log_duration_impl(item: &Vec<Token>) -> (r: Option<String>)
    ensures
        match fn_parts(item@) {
            Some((h, b, n)) => r matches Some(c) && c@ == timed_code(h, b, n),
            None => r is None,
        },
{
    let p = match split_fn(item) {
        Some(p) => p,
        None => return None,
    };
    let mut out = p.head;
    out.append(" { let __start = std::time::Instant::now(); let __result = ");
    out.append(p.body.as_str());
    out.append("; println!(\"{} took {}μs\", stringify!(");
    out.append(p.name.as_str());
    out.append("), __start.elapsed().as_micros()); return __result; }");
    Some(out)
}

/// Why a function could not be rewritten.
#[derive(Clone, Copy, Debug, PartialEq, Eq, Structural)]
pub enum WrapError {
    /// The attribute's arguments are wrong.
    Attr(AttrError),
    /// The item is no function.
    NotAFunction,
}

/// The cached rewrite of a function with these parts, given its key statement.
pub open spec fn cached_code(h: Seq<char>, b: Seq<char>, key: Seq<char>) -> Seq<char> {
    h + " { "@ + key
        + " match cacache::read_sync(\"./__cache\", __cache_key.clone()) { Ok(value) => { println!(\"Data is fetched from cached\"); from_utf8(&value).unwrap().to_string() }, Err(_) => { println!(\"Data is not fetched from cached\"); let output = "@
        + b
        + "; cacache::write_sync(\"./__cache\", __cache_key, output.as_bytes()).unwrap(); output } } }"@
}

/// Rewrites a function so that its result is read from an on-disk cache
/// under the key that the attribute's arguments choose, and computed and
/// stored there when missing. Wrong arguments are reported before an item
/// that is no function.
pub fn cached_fn_impl(args: &Vec<Token>, item: &Vec<Token>) -> (r: Result<String, WrapError>)
    ensures
        match fn_parts(item@) {
            None => match cache_key_spec(args@, Seq::empty()) {
                Ok(_) => r == Err::<String, WrapError>(WrapError::NotAFunction),
                Err((k, p)) => r == Err::<String, WrapError>(WrapError::Attr(AttrError { kind: k, position: p as usize })),
            },
            Some((h, b, n)) => match cache_key_spec(args@, n) {
                Ok(key) => r matches Ok(c) && c@ == cached_code(h, b, key),
                Err((k, p)) => r == Err::<String, WrapError>(WrapError::Attr(AttrError { kind: k, position: p as usize })),
            },
        },
{
    let p = match split_fn(item) {
        Some(p) => p,
        None => {
            return match cache_key_statement(args, &String::new()) {
                Ok(_) => Err(WrapError::NotAFunction),
                Err(e) => Err(WrapError::Attr(e)),
            };
        },
    };
    let key = match cache_key_statement(args, &p.name) {
        Ok(k) => k,
        Err(e) => return Err(WrapError::Attr(e)),
    };
    let mut out = p.head;
    out.append(" { ");
    out.append(key.as_str());
    out.append(" match cacache::read_sync(\"./__cache\", __cache_key.clone()) { Ok(value) => { println!(\"Data is fetched from cached\"); from_utf8(&value).unwrap().to_string() }, Err(_) => { println!(\"Data is not fetched from cached\"); let output = ");
    out.append(p.body.as_str());
    out.append("; cacache::write_sync(\"./__cache\", __cache_key, output.as_bytes()).unwrap(); output } } }");
    Ok(out)
}

} // verus!
