//! Expansion of a parsed literal into Rust code that builds the map.
use vstd::prelude::*;
use crate::token::Token;
use crate::outside::{quoted, string_literal};
use crate::parser::{ParsedMap, ParsedMapEntry, ParsedModel, EntryModel, ValueExpr, ValueModel, ParseError, parse_spec};

verus! {

/// The code of a value: a reference is the binding's name, a constant the
/// literal as written.
pub open spec fn value_code(v: ValueModel) -> Seq<char> {
    match v {
        ValueModel::Reference(s) => s,
        ValueModel::Constant(s) => s,
    }
}

/// The arguments of the `insert` call for one entry.
pub open spec fn entry_code(e: EntryModel) -> Seq<char> {
    "String::from("@ + quoted(e.key) + "), "@ + value_code(e.value)
}

/// One `insert` statement per entry, in order.
pub open spec fn inserts_code(es: Seq<EntryModel>) -> Seq<char>
    decreases es.len(),
{
    if es.len() == 0 {
        Seq::empty()
    } else {
        inserts_code(es.drop_last()) + "hash_map.insert("@ + entry_code(es.last()) + "); "@
    }
}

/// The block expression that builds the map of a parsed literal.
pub open spec fn generated(m: ParsedModel) -> Seq<char> {
    "{ let mut hash_map = std::collections::HashMap::<String, "@ + m.value_type
        + ">::new(); "@ + inserts_code(m.entries) + "hash_map }"@
}

/// What the expansion of a token stream yields.
pub open spec fn expansion(ts: Seq<Token>) -> Result<Seq<char>, ParseError> {
    match parse_spec(ts) {
        Ok(m) => Ok(generated(m)),
        Err((k, p)) => Err(ParseError { kind: k, position: p as usize }),
    }
}

/// Whether an exec result agrees with a spec result.
pub open spec fn expansion_agrees(r: Result<String, ParseError>, s: Result<Seq<char>, ParseError>) -> bool {
    match s {
        Ok(code) => r matches Ok(c) && c@ == code,
        Err(e) => r == Err::<String, ParseError>(e),
    }
}

impl ParsedMapEntry {
    /// The arguments of the `insert` call for this entry: the key as a
    /// string literal, then the value.
    pub fn to_tokens(&self) -> (r: String)
        ensures
            r@ == entry_code(self@),
    {
        let mut out = String::from_str("String::from(");
        let key = string_literal(self.0.as_str());
        out.append(key.as_str());
        out.append("), ");
        match &self.1 {
            ValueExpr::Reference(s) => out.append(s.as_str()),
            ValueExpr::Constant(s) => out.append(s.as_str()),
        }
        out
    }
}

impl ParsedMap {
    /// The block expression that creates an empty `HashMap<String, T>`,
    /// inserts every entry in order and yields the map.
    pub fn generate(&self) -> (r: String)
        ensures
            r@ == generated(self@),
    {
        let mut out = String::from_str("{ let mut hash_map = std::collections::HashMap::<String, ");
        out.append(self.value_type.as_str());
        out.append(">::new(); ");
        let ghost head = out@;
        let mut k: usize = 0;
        while k < self.entries.len()
            invariant
                k <= self.entries.len(),
                out@ == head + inserts_code(self@.entries.subrange(0, k as int)),
                head == "{ let mut hash_map = std::collections::HashMap::<String, "@ + self.value_type@ + ">::new(); "@,
            decreases self.entries.len() - k,
        {
            let args = self.entries[k].to_tokens();
            out.append("hash_map.insert(");
            out.append(args.as_str());
            out.append("); ");
            proof {
                let es = self@.entries;
                assert(es.subrange(0, k + 1).drop_last() =~= es.subrange(0, k as int));
                assert(es.subrange(0, k + 1).last() == self.entries@[k as int]@);
            }
            k = k + 1;
        }
        proof {
            assert(self@.entries.subrange(0, k as int) =~= self@.entries);
        }
        out.append("hash_map }");
        out
    }
}

/// Parses a token stream and expands it into the code of the map, or reports
/// the parse failure.
pub fn hash_mapify_impl(ts: &Vec<Token>) -> (r: Result<String, ParseError>)
    ensures
        expansion_agrees(r, expansion(ts@)),
{
    match ParsedMap::parse(ts) {
        Ok(m) => Ok(m.generate()),
        Err(e) => Err(e),
    }
}

} // verus!
