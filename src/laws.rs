//! What the expansion means, and the laws it obeys.
//!
//! The generated block inserts the entries into an empty map one after
//! another, so the map it yields is `built_map` of the entries.
use vstd::prelude::*;
use crate::token::{Token, is_reserved};
use crate::parser::{EntryModel, ValueModel, ErrorKind, parse_spec, key_of, value_at, type_end, tokens_text};
use crate::codegen::expansion;
use crate::outside::{lexed, parses_as_type};

verus! {

/// The map that inserting the entries in order into an empty map yields.
pub open spec fn built_map(es: Seq<EntryModel>) -> Map<Seq<char>, ValueModel>
    decreases es.len(),
{
    if es.len() == 0 {
        Map::empty()
    } else {
        built_map(es.drop_last()).insert(es.last().key, es.last().value)
    }
}

/// The keys of the entries, in order.
pub open spec fn keys(es: Seq<EntryModel>) -> Seq<Seq<char>> {
    es.map_values(|e: EntryModel| e.key)
}

/// Whether entry `i` is the last one with its key.
pub open spec fn is_last_with_key(es: Seq<EntryModel>, i: int) -> bool {
    forall|j: int| i < j < es.len() ==> es[j].key != es[i].key
}

/// No two entries share a key.
pub open spec fn no_conflict(es: Seq<EntryModel>) -> bool {
    forall|i: int, j: int| 0 <= i < es.len() && 0 <= j < es.len() && i != j ==> es[i].key != es[j].key
}

/// The entries that a token stream parses to.
pub open spec fn parsed_entries(ts: Seq<Token>) -> Seq<EntryModel>
    recommends
        parse_spec(ts) is Ok,
{
    parse_spec(ts)->Ok_0.entries
}

proof fn lemma_built_map(es: Seq<EntryModel>)
    ensures
        forall|k: Seq<char>| #[trigger] built_map(es).contains_key(k) <==>
            exists|i: int| 0 <= i < es.len() && es[i].key == k,
        forall|k: Seq<char>| #[trigger] built_map(es).contains_key(k) ==>
            exists|i: int| 0 <= i < es.len() && es[i].key == k && is_last_with_key(es, i)
                && built_map(es)[k] == es[i].value,
        forall|i: int| 0 <= i < es.len() && #[trigger] is_last_with_key(es, i)
            ==> built_map(es)[es[i].key] == es[i].value,
    decreases es.len(),
{
    if es.len() > 0 {
        let init = es.drop_last();
        lemma_built_map(init);
        let n = es.len() - 1;
        assert forall|k: Seq<char>| #[trigger] built_map(es).contains_key(k) <==>
            exists|i: int| 0 <= i < es.len() && es[i].key == k by {
            if built_map(es).contains_key(k) && k != es.last().key {
                let i = choose|i: int| 0 <= i < init.len() && init[i].key == k;
                assert(es[i] == init[i]);
            }
            if exists|i: int| 0 <= i < es.len() && es[i].key == k {
                let i = choose|i: int| 0 <= i < es.len() && es[i].key == k;
                if i < n {
                    assert(es[i] == init[i]);
                }
            }
        }
        assert forall|k: Seq<char>| #[trigger] built_map(es).contains_key(k) implies
            exists|i: int| 0 <= i < es.len() && es[i].key == k && is_last_with_key(es, i)
                && built_map(es)[k] == es[i].value by {
            if k == es.last().key {
                assert(is_last_with_key(es, n));
                assert(es[n].key == k);
                assert(built_map(es)[k] == es[n].value);
            } else {
                assert(built_map(init).contains_key(k));
                let i = choose|i: int| 0 <= i < init.len() && init[i].key == k && is_last_with_key(init, i)
                    && built_map(init)[k] == init[i].value;
                assert(es[i] == init[i]);
                assert(built_map(es)[k] == built_map(init)[k]);
                assert forall|j: int| i < j < es.len() implies es[j].key != es[i].key by {
                    if j < n {
                        assert(es[j] == init[j]);
                    }
                }
                assert(is_last_with_key(es, i));
                assert(es[i].key == k && built_map(es)[k] == es[i].value);
            }
        }
        assert forall|i: int| 0 <= i < es.len() && #[trigger] is_last_with_key(es, i)
            implies built_map(es)[es[i].key] == es[i].value by {
            if i < n {
                assert(es[i] == init[i]);
                assert(es[n].key != es[i].key);
                assert(is_last_with_key(init, i));
            }
        }
    }
}

proof fn lemma_dom_is_keys(es: Seq<EntryModel>)
    ensures
        built_map(es).dom() == keys(es).to_set(),
{
    lemma_built_map(es);
    assert forall|k: Seq<char>| built_map(es).dom().contains(k) <==> keys(es).to_set().contains(k) by {
        if built_map(es).contains_key(k) {
            let i = choose|i: int| 0 <= i < es.len() && es[i].key == k;
            assert(keys(es)[i] == k);
        }
        if keys(es).contains(k) {
            let i = choose|i: int| 0 <= i < keys(es).len() && keys(es)[i] == k;
            assert(es[i].key == k);
        }
    }
    assert(built_map(es).dom() =~= keys(es).to_set());
}

/// Expanding a literal yields a map whose keys are exactly the keys of its
/// entries, so that it holds as many pairs as there are distinct keys, and
/// whose value for each key is that of the last entry with that key.
pub proof fn law_last_write_wins(ts: Seq<Token>)
    requires
        parse_spec(ts) is Ok,
    ensures
        built_map(parsed_entries(ts)).dom() == keys(parsed_entries(ts)).to_set(),
        built_map(parsed_entries(ts)).len() == keys(parsed_entries(ts)).to_set().len(),
        forall|i: int| 0 <= i < parsed_entries(ts).len() && #[trigger] is_last_with_key(parsed_entries(ts), i)
            ==> built_map(parsed_entries(ts))[parsed_entries(ts)[i].key] == parsed_entries(ts)[i].value,
{
    lemma_built_map(parsed_entries(ts));
    lemma_dom_is_keys(parsed_entries(ts));
}

proof fn lemma_same_key_set(es1: Seq<EntryModel>, es2: Seq<EntryModel>)
    requires
        es1.to_multiset() == es2.to_multiset(),
    ensures
        keys(es1).to_set() =~= keys(es2).to_set(),
{
    es1.to_multiset_ensures();
    es2.to_multiset_ensures();
    assert forall|k: Seq<char>| keys(es1).to_set().contains(k) implies keys(es2).to_set().contains(k) by {
        let i = choose|i: int| 0 <= i < keys(es1).len() && keys(es1)[i] == k;
        assert(es1.contains(es1[i]));
        assert(es1.to_multiset().count(es1[i]) > 0);
        assert(es2.to_multiset().count(es1[i]) > 0);
        let j = choose|j: int| 0 <= j < es2.len() && es2[j] == es1[i];
        assert(keys(es2)[j] == k);
    }
    assert forall|k: Seq<char>| keys(es2).to_set().contains(k) implies keys(es1).to_set().contains(k) by {
        let i = choose|i: int| 0 <= i < keys(es2).len() && keys(es2)[i] == k;
        assert(es2.contains(es2[i]));
        assert(es2.to_multiset().count(es2[i]) > 0);
        assert(es1.to_multiset().count(es2[i]) > 0);
        let j = choose|j: int| 0 <= j < es1.len() && es1[j] == es2[i];
        assert(keys(es1)[j] == k);
    }
}

proof fn lemma_permuted_map(es1: Seq<EntryModel>, es2: Seq<EntryModel>)
    requires
        no_conflict(es1),
        es1.to_multiset() == es2.to_multiset(),
    ensures
        built_map(es1) == built_map(es2),
{
    lemma_built_map(es1);
    lemma_built_map(es2);
    lemma_same_key_set(es1, es2);
    lemma_dom_is_keys(es1);
    lemma_dom_is_keys(es2);
    es1.to_multiset_ensures();
    es2.to_multiset_ensures();
    let m1 = built_map(es1);
    let m2 = built_map(es2);
    assert forall|k: Seq<char>| m2.contains_key(k) implies m1[k] == m2[k] by {
        let i = choose|i: int| 0 <= i < es2.len() && es2[i].key == k && is_last_with_key(es2, i)
            && m2[k] == es2[i].value;
        assert(es2.contains(es2[i]));
        assert(es2.to_multiset().count(es2[i]) > 0);
        assert(es1.to_multiset().count(es2[i]) > 0);
        let j = choose|j: int| 0 <= j < es1.len() && es1[j] == es2[i];
        assert(is_last_with_key(es1, j));
    }
    assert(m1 =~= m2);
}

/// Reordering entries that share no key leaves the expanded map the same:
/// two literals whose entries are the same multiset, with no key repeated,
/// build equal maps.
pub proof fn law_order_independent(ts1: Seq<Token>, ts2: Seq<Token>)
    requires
        parse_spec(ts1) is Ok,
        parse_spec(ts2) is Ok,
        no_conflict(parsed_entries(ts1)),
        parsed_entries(ts1).to_multiset() == parsed_entries(ts2).to_multiset(),
    ensures
        built_map(parsed_entries(ts1)) == built_map(parsed_entries(ts2)),
{
    lemma_permuted_map(parsed_entries(ts1), parsed_entries(ts2));
}

/// Expansion is a function of the source text: the same text lexes to the
/// same tokens and expands to the same code, or fails the same way.
pub proof fn law_deterministic(s1: Seq<char>, s2: Seq<char>)
    requires
        s1 == s2,
    ensures
        lexed(s1) == lexed(s2),
        lexed(s1) is Some ==> expansion(lexed(s1)->Some_0) == expansion(lexed(s2)->Some_0),
{
}

/// A literal that holds a type and a `,` and nothing more parses to no
/// entries; without the `,` it is a missing separator.
pub proof fn law_type_only(ts: Seq<Token>, ty_len: int)
    requires
        0 < ty_len,
        ty_len + 1 == ts.len() || ty_len == ts.len(),
        type_end(ts, 0, 0) == ty_len,
        parses_as_type(tokens_text(ts.subrange(0, ty_len))),
    ensures
        ty_len + 1 == ts.len() ==> parse_spec(ts) is Ok && parsed_entries(ts).len() == 0,
        ty_len == ts.len() ==> parse_spec(ts) == Err::<crate::parser::ParsedModel, (ErrorKind, int)>(
            (ErrorKind::ExpectedSeparator, ty_len)),
{
}

/// An identifier in key position is taken by name, never as a binding.
pub proof fn law_key_identifier_is_text(name: String)
    requires
        !is_reserved(name@),
    ensures
        key_of(Token::Ident(name)) == Some(name@),
{
}

/// An identifier in value position is a reference to the binding it names.
pub proof fn law_value_identifier_is_reference(ts: Seq<Token>, i: int, name: String)
    requires
        0 <= i < ts.len(),
        ts[i] == Token::Ident(name),
        !is_reserved(name@),
    ensures
        value_at(ts, i) == Some((ValueModel::Reference(name@), 1nat)),
{
}

} // verus!
