//! Attribute arguments: a comma-separated list of `name = expression` or bare
//! `name` items, checked against the option names that an attribute knows.
use vstd::prelude::*;
use crate::token::{Token, same_text};
use crate::parser::{is_punct, tokens_text, punct_is, join_tokens};

verus! {

/// One argument: its name and, for `name = expression`, the expression's text.
#[derive(Clone, Debug, PartialEq, Eq)]
pub struct AttrArg {
    pub name: String,
    pub value: Option<String>,
}

/// The model of an argument.
pub struct ArgModel {
    pub name: Seq<char>,
    pub value: Option<Seq<char>>,
}

impl View for AttrArg {
    type V = ArgModel;

    open spec fn view(&self) -> ArgModel {
        ArgModel {
            name: self.name@,
            value: match self.value {
                Some(v) => Some(v@),
                None => None,
            },
        }
    }
}

/// The kinds of attribute-argument failure.
#[derive(Clone, Copy, Debug, PartialEq, Eq, Structural)]
pub enum AttrErrorKind {
    /// An argument does not start with a name.
    ExpectedName,
    /// Nothing follows `=`.
    ExpectedValue,
    /// The name is not one of the attribute's options.
    UnknownName,
    /// The name was given before.
    DuplicateName,
    /// An argument is followed by something other than `,`.
    ExpectedSeparator,
    /// A quoted expression does not parse as an expression.
    InvalidExpression,
}

/// An attribute-argument failure and the index of the token where it occurred.
#[derive(Clone, Copy, Debug, PartialEq, Eq, Structural)]
pub struct AttrError {
    pub kind: AttrErrorKind,
    pub position: usize,
}

/// The texts of a sequence of strings.
pub open spec fn texts(v: Seq<String>) -> Seq<Seq<char>> {
    v.map_values(|s: String| s@)
}

/// The models of a sequence of arguments.
pub open spec fn args_view(v: Seq<AttrArg>) -> Seq<ArgModel> {
    v.map_values(|a: AttrArg| a@)
}

/// The names of a sequence of arguments.
pub open spec fn arg_names(v: Seq<ArgModel>) -> Seq<Seq<char>> {
    v.map_values(|a: ArgModel| a.name)
}

/// Index of the first `,` from `j` on, or the length.
pub open spec fn comma_from(ts: Seq<Token>, j: int) -> int
    decreases ts.len() - j,
{
    if j < 0 || j >= ts.len() {
        ts.len() as int
    } else if is_punct(ts[j], ',') {
        j
    } else {
        comma_from(ts, j + 1)
    }
}

/// The argument at `i`, given the option names and the names already seen,
/// and the index just past it.
pub open spec fn arg_at(ts: Seq<Token>, i: int, known: Seq<Seq<char>>, seen: Seq<Seq<char>>)
    -> Result<(ArgModel, int), (AttrErrorKind, int)>
{
    match ts[i] {
        Token::Ident(n) => if !known.contains(n@) {
            Err((AttrErrorKind::UnknownName, i))
        } else if seen.contains(n@) {
            Err((AttrErrorKind::DuplicateName, i))
        } else if i + 1 < ts.len() && is_punct(ts[i + 1], '=') {
            let e = comma_from(ts, i + 2);
            if e == i + 2 {
                Err((AttrErrorKind::ExpectedValue, i + 2))
            } else {
                Ok((ArgModel { name: n@, value: Some(tokens_text(ts.subrange(i + 2, e))) }, e))
            }
        } else {
            Ok((ArgModel { name: n@, value: None }, i + 1))
        },
        _ => Err((AttrErrorKind::ExpectedName, i)),
    }
}

/// The arguments from `i` on.
pub open spec fn args_from(ts: Seq<Token>, i: int, known: Seq<Seq<char>>, seen: Seq<Seq<char>>)
    -> Result<Seq<ArgModel>, (AttrErrorKind, int)>
    decreases ts.len() - i,
{
    if i < 0 || i >= ts.len() {
        Ok(Seq::empty())
    } else {
        match arg_at(ts, i, known, seen) {
            Err(x) => Err(x),
            Ok((a, j)) => if j <= i || j >= ts.len() {
                Ok(seq![a])
            } else if is_punct(ts[j], ',') {
                match args_from(ts, j + 1, known, seen.push(a.name)) {
                    Ok(rest) => Ok(seq![a] + rest),
                    Err(x) => Err(x),
                }
            } else {
                Err((AttrErrorKind::ExpectedSeparator, j))
            },
        }
    }
}

/// The arguments `acc` followed by those of `r`, or the failure of `r`.
pub open spec fn prepend_args(acc: Seq<ArgModel>, r: Result<Seq<ArgModel>, (AttrErrorKind, int)>)
    -> Result<Seq<ArgModel>, (AttrErrorKind, int)>
{
    match r {
        Ok(rest) => Ok(acc + rest),
        Err(x) => Err(x),
    }
}

/// Whether an exec result agrees with a spec result.
pub open spec fn attr_agrees(r: Result<Vec<AttrArg>, AttrError>, s: Result<Seq<ArgModel>, (AttrErrorKind, int)>) -> bool {
    match s {
        Ok(args) => r matches Ok(v) && args_view(v@) == args,
        Err((k, p)) => r matches Err(e) && e.kind == k && e.position == p,
    }
}

fn contains_text(v: &Vec<String>, s: &String) -> (r: bool)
    ensures
        r == texts(v@).contains(s@),
{
    let mut i: usize = 0;
    while i < v.len()
        invariant
            i <= v.len(),
            forall|j: int| 0 <= j < i ==> v@[j]@ != s@,
        decreases v.len() - i,
    {
        if same_text(v[i].as_str(), s.as_str()) {
            assert(texts(v@)[i as int] == s@);
            return true;
        }
        i = i + 1;
    }
    false
}

fn has_name(v: &Vec<AttrArg>, s: &String) -> (r: bool)
    ensures
        r == arg_names(args_view(v@)).contains(s@),
{
    let mut i: usize = 0;
    while i < v.len()
        invariant
            i <= v.len(),
            forall|j: int| 0 <= j < i ==> v@[j].name@ != s@,
        decreases v.len() - i,
    {
        if same_text(v[i].name.as_str(), s.as_str()) {
            assert(arg_names(args_view(v@))[i as int] == s@);
            return true;
        }
        i = i + 1;
    }
    false
}

fn find_comma(ts: &Vec<Token>, j: usize) -> (r: usize)
    requires
        j <= ts.len(),
    ensures
        r as int == comma_from(ts@, j as int),
        j <= r <= ts.len(),
{
    let mut k = j;
    while k < ts.len()
        invariant
            j <= k <= ts.len(),
            comma_from(ts@, j as int) == comma_from(ts@, k as int),
        decreases ts.len() - k,
    {
        if punct_is(&ts[k], ',') {
            return k;
        }
        k = k + 1;
    }
    k
}

fn parse_arg(ts: &Vec<Token>, i: usize, known: &Vec<String>, seen: &Vec<AttrArg>)
    -> (r: Result<(AttrArg, usize), AttrError>)
    requires
        i < ts.len(),
    ensures
        match arg_at(ts@, i as int, texts(known@), arg_names(args_view(seen@))) {
            Ok((a, j)) => r matches Ok((x, n)) && x@ == a && n == j && i < n <= ts.len(),
            Err((k, p)) => r matches Err(x) && x.kind == k && x.position == p,
        },
{
    let name = match &ts[i] {
        Token::Ident(n) => n,
        _ => return Err(AttrError { kind: AttrErrorKind::ExpectedName, position: i }),
    };
    if !contains_text(known, name) {
        return Err(AttrError { kind: AttrErrorKind::UnknownName, position: i });
    }
    if has_name(seen, name) {
        return Err(AttrError { kind: AttrErrorKind::DuplicateName, position: i });
    }
    if i + 1 < ts.len() && punct_is(&ts[i + 1], '=') {
        let e = find_comma(ts, i + 2);
        if e == i + 2 {
            return Err(AttrError { kind: AttrErrorKind::ExpectedValue, position: i + 2 });
        }
        let value = join_tokens(ts, i + 2, e);
        Ok((AttrArg { name: name.clone(), value: Some(value) }, e))
    } else {
        Ok((AttrArg { name: name.clone(), value: None }, i + 1))
    }
}

/// Parses attribute arguments, accepting only the option names in `known`,
/// each at most once.
pub fn parse_attribute_args(ts: &Vec<Token>, known: &Vec<String>) -> (r: Result<Vec<AttrArg>, AttrError>)
    ensures
        attr_agrees(r, args_from(ts@, 0, texts(known@), Seq::empty())),
{
    let mut args: Vec<AttrArg> = Vec::new();
    let mut i: usize = 0;
    proof {
        assert(arg_names(args_view(args@)) =~= Seq::<Seq<char>>::empty());
        assert(args_view(args@) + Seq::<ArgModel>::empty() =~= Seq::<ArgModel>::empty());
    }
    while i < ts.len()
        invariant
            i <= ts.len(),
            args_from(ts@, 0, texts(known@), Seq::empty()) == prepend_args(args_view(args@),
                args_from(ts@, i as int, texts(known@), arg_names(args_view(args@)))),
        decreases ts.len() - i,
    {
        let ghost before = args_view(args@);
        let ghost seen = arg_names(before);
        let (a, j) = match parse_arg(ts, i, known, &args) {
            Ok(x) => x,
            Err(x) => {
                proof {
                    assert(args_from(ts@, i as int, texts(known@), seen)
                        == Err::<Seq<ArgModel>, (AttrErrorKind, int)>((x.kind, x.position as int)));
                }
                return Err(x);
            },
        };
        args.push(a);
        proof {
            assert(args_view(args@) =~= before.push(a@));
            assert(arg_names(args_view(args@)) =~= seen.push(a@.name));
        }
        if j >= ts.len() {
            i = j;
            proof {
                assert(before + seq![a@] =~= before.push(a@));
            }
        } else if punct_is(&ts[j], ',') {
            i = j + 1;
            proof {
                assert forall|rest: Seq<ArgModel>| before + (seq![a@] + rest) =~= before.push(a@) + rest by {}
            }
        } else {
            proof {
                assert(args_from(ts@, i as int, texts(known@), seen)
                    == Err::<Seq<ArgModel>, (AttrErrorKind, int)>((AttrErrorKind::ExpectedSeparator, j as int)));
            }
            return Err(AttrError { kind: AttrErrorKind::ExpectedSeparator, position: j });
        }
    }
    proof {
        assert(args_view(args@) + Seq::<ArgModel>::empty() =~= args_view(args@));
    }
    Ok(args)
}

} // verus!
