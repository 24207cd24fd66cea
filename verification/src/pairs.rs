//! Lists of names with values.
use crate::json::str_view;
use crate::text::str_eq;
use vstd::prelude::*;

verus! {

/// The values of a list of pairs by their names: of two pairs with one name the later one counts.
pub open spec fn pair_map(pairs: Seq<(String, String)>) -> Map<Seq<char>, Seq<char>>
    decreases pairs.len(),
{
    if pairs.len() == 0 {
        Map::empty()
    } else {
        pair_map(pairs.drop_last()).insert(pairs.last().0@, pairs.last().1@)
    }
}

/// The value that a map has for a name.
pub open spec fn value_of(map: Map<Seq<char>, Seq<char>>, name: Seq<char>) -> Option<Seq<char>> {
    if map.contains_key(name) {
        Some(map[name])
    } else {
        None
    }
}

/// The value of the last pair with the given name.
pub fn lookup<'a>(pairs: &'a Vec<(String, String)>, name: &str) -> (r: Option<&'a str>)
    ensures
        str_view(r) == value_of(pair_map(pairs@), name@),
{
    let mut i: usize = pairs.len();
    proof {
        assert(pairs@.take(i as int) =~= pairs@);
    }
    while i > 0
        invariant
            i <= pairs@.len(),
            value_of(pair_map(pairs@), name@) == value_of(pair_map(pairs@.take(i as int)), name@),
        decreases i,
    {
        proof {
            assert(pairs@.take(i as int).drop_last() =~= pairs@.take(i - 1));
        }
        if str_eq(pairs[i - 1].0.as_str(), name) {
            return Some(pairs[i - 1].1.as_str());
        }
        i = i - 1;
    }
    None
}

/// Of the pairs with one name the last one counts; pairs with other names do not matter.
pub proof fn law_last_pair_counts(
    pairs: Seq<(String, String)>,
    pair: (String, String),
    name: Seq<char>,
)
    ensures
        value_of(pair_map(pairs.push(pair)), pair.0@) == Some(pair.1@),
        name != pair.0@ ==> value_of(pair_map(pairs.push(pair)), name) == value_of(
            pair_map(pairs),
            name,
        ),
        value_of(pair_map(Seq::empty()), name) is None,
{
    assert(pairs.push(pair).drop_last() =~= pairs);
}

} // verus!
