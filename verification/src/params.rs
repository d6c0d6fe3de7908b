//! Sets of URL parameters: a list of name/value pairs read as a mapping,
//! and the merge of two such lists.
//!
//! A list stands for the mapping that sends each name to the value of the
//! last pair with that name. The merge of an existing list and a supplied one
//! holds every name of either once; where both have a name, the existing
//! value stays.

use vstd::prelude::*;

verus! {

/// A name/value pair, as mathematical strings.
pub type Pair = (Seq<char>, Seq<char>);

/// One URL parameter.
#[derive(Clone, Debug, PartialEq, Eq)]
pub struct Param {
    pub name: String,
    pub value: String,
}

impl View for Param {
    type V = Pair;

    open spec fn view(&self) -> Pair {
        (self.name@, self.value@)
    }
}

impl Param {
    /// A parameter from its name and value.
    pub fn new(name: &str, value: &str) -> (p: Param)
        ensures
            p@ == (name@, value@),
    {
        Param { name: name.to_owned(), value: value.to_owned() }
    }

    /// A second parameter with the same name and value.
    pub fn duplicate(&self) -> (p: Param)
        ensures
            p@ == self@,
    {
        Param { name: self.name.clone(), value: self.value.clone() }
    }
}

/// The pairs that a list of parameters holds.
pub open spec fn pairs_of(params: Seq<Param>) -> Seq<Pair> {
    params.map_values(|p: Param| p@)
}

/// Some pair of `pairs` has the name `name`.
pub open spec fn has_name(pairs: Seq<Pair>, name: Seq<char>) -> bool {
    exists|i: int| 0 <= i < pairs.len() && (#[trigger] pairs[i]).0 == name
}

/// No two pairs of `pairs` share a name.
pub open spec fn distinct_names(pairs: Seq<Pair>) -> bool {
    forall|i: int, j: int|
        0 <= i < j < pairs.len() ==> (#[trigger] pairs[i]).0 != (#[trigger] pairs[j]).0
}

/// The index of the first pair with the name `name`, where there is one.
pub open spec fn index_of_name(pairs: Seq<Pair>, name: Seq<char>) -> int {
    choose|i: int|
        0 <= i < pairs.len() && (#[trigger] pairs[i]).0 == name && forall|j: int|
            0 <= j < i ==> (#[trigger] pairs[j]).0 != name
}

/// The value that the list gives to `name`: that of the last pair with this
/// name.
pub open spec fn value_of(pairs: Seq<Pair>, name: Seq<char>) -> Option<Seq<char>>
    decreases pairs.len(),
{
    if pairs.len() == 0 {
        None
    } else if pairs.last().0 == name {
        Some(pairs.last().1)
    } else {
        value_of(pairs.drop_last(), name)
    }
}

/// `pairs` with `name` set to `value`: in place where the name is there
/// already, else at the end.
pub open spec fn with_value(pairs: Seq<Pair>, name: Seq<char>, value: Seq<char>) -> Seq<Pair> {
    if has_name(pairs, name) {
        pairs.update(index_of_name(pairs, name), (name, value))
    } else {
        pairs.push((name, value))
    }
}

/// `pairs` with `name` set to `value` unless the name is there already.
pub open spec fn with_default(pairs: Seq<Pair>, name: Seq<char>, value: Seq<char>) -> Seq<Pair> {
    if has_name(pairs, name) {
        pairs
    } else {
        pairs.push((name, value))
    }
}

/// The mapping that `pairs` stands for, as a list without repeated names:
/// each name at the place of its first pair, with the value of its last.
pub open spec fn mapping_of(pairs: Seq<Pair>) -> Seq<Pair>
    decreases pairs.len(),
{
    if pairs.len() == 0 {
        Seq::empty()
    } else {
        with_value(mapping_of(pairs.drop_last()), pairs.last().0, pairs.last().1)
    }
}

/// `base` followed by the pairs of `extra` whose names `base` lacks, each
/// such name once, with the first value that `extra` has for it.
pub open spec fn with_defaults(base: Seq<Pair>, extra: Seq<Pair>) -> Seq<Pair>
    decreases extra.len(),
{
    if extra.len() == 0 {
        base
    } else {
        with_default(with_defaults(base, extra.drop_last()), extra.last().0, extra.last().1)
    }
}

/// The merge of the parameters that a URL has already with those that a
/// caller supplies: a value that is there already is kept.
pub open spec fn merged(existing: Seq<Pair>, supplied: Seq<Pair>) -> Seq<Pair> {
    with_defaults(mapping_of(existing), mapping_of(supplied))
}

/// In a list without repeated names, the first pair with a name is the only
/// one.
pub proof fn lemma_index_of_name(pairs: Seq<Pair>, i: int)
    requires
        0 <= i < pairs.len(),
        forall|j: int| 0 <= j < i ==> (#[trigger] pairs[j]).0 != pairs[i].0,
    ensures
        has_name(pairs, pairs[i].0),
        index_of_name(pairs, pairs[i].0) == i,
{
    let name = pairs[i].0;
    let k = index_of_name(pairs, name);
    assert(0 <= k < pairs.len() && pairs[k].0 == name && forall|j: int|
        0 <= j < k ==> (#[trigger] pairs[j]).0 != name);
    if k < i {
        assert(pairs[k].0 != name);
    } else if i < k {
        assert(pairs[i].0 != name);
    }
}

/// Setting a name keeps the names distinct, and changes the value of that
/// name alone.
pub proof fn lemma_with_value(pairs: Seq<Pair>, name: Seq<char>, value: Seq<char>)
    requires
        distinct_names(pairs),
    ensures
        distinct_names(with_value(pairs, name, value)),
        forall|other: Seq<char>| #[trigger]
            value_of(with_value(pairs, name, value), other) == if other == name {
                Some(value)
            } else {
                value_of(pairs, other)
            },
        forall|other: Seq<char>| #[trigger]
            has_name(with_value(pairs, name, value), other) <==> other == name || has_name(
                pairs,
                other,
            ),
{
    let out = with_value(pairs, name, value);
    if has_name(pairs, name) {
        let k = index_of_name(pairs, name);
        assert(0 <= k < pairs.len() && pairs[k].0 == name);
        assert forall|i: int, j: int| 0 <= i < j < out.len() implies (#[trigger] out[i]).0
            != (#[trigger] out[j]).0 by {
            assert(pairs[i].0 != pairs[j].0);
        }
        assert forall|other: Seq<char>| #[trigger]
            has_name(out, other) <==> other == name || has_name(pairs, other) by {
            if has_name(out, other) {
                let i = choose|i: int| 0 <= i < out.len() && (#[trigger] out[i]).0 == other;
                assert(pairs[i].0 == other);
            }
            if has_name(pairs, other) {
                let i = choose|i: int| 0 <= i < pairs.len() && (#[trigger] pairs[i]).0 == other;
                assert(out[i].0 == other);
            }
            if other == name {
                assert(out[k].0 == name);
            }
        }
        assert forall|other: Seq<char>| #[trigger]
            value_of(out, other) == if other == name {
                Some(value)
            } else {
                value_of(pairs, other)
            } by {
            lemma_value_of_update(pairs, k, value, other);
        }
    } else {
        assert(out.drop_last() =~= pairs);
        assert forall|i: int, j: int| 0 <= i < j < out.len() implies (#[trigger] out[i]).0
            != (#[trigger] out[j]).0 by {
            if j < pairs.len() {
                assert(pairs[i].0 != pairs[j].0);
            } else {
                assert(pairs[i].0 != name);
            }
        }
        assert forall|other: Seq<char>| #[trigger]
            has_name(out, other) <==> other == name || has_name(pairs, other) by {
            if has_name(out, other) {
                let i = choose|i: int| 0 <= i < out.len() && (#[trigger] out[i]).0 == other;
                if i < pairs.len() {
                    assert(pairs[i].0 == other);
                }
            }
            if has_name(pairs, other) {
                let i = choose|i: int| 0 <= i < pairs.len() && (#[trigger] pairs[i]).0 == other;
                assert(out[i].0 == other);
            }
            if other == name {
                assert(out[pairs.len() as int].0 == name);
            }
        }
    }
}

/// In a list without repeated names, replacing the value of the pair at `k`
/// changes the value of that pair's name alone.
proof fn lemma_value_of_update(pairs: Seq<Pair>, k: int, value: Seq<char>, other: Seq<char>)
    requires
        distinct_names(pairs),
        0 <= k < pairs.len(),
    ensures
        value_of(pairs.update(k, (pairs[k].0, value)), other) == if other == pairs[k].0 {
            Some(value)
        } else {
            value_of(pairs, other)
        },
    decreases pairs.len(),
{
    let out = pairs.update(k, (pairs[k].0, value));
    let last = pairs.len() - 1;
    if k == last {
        assert(out.drop_last() =~= pairs.drop_last());
        if other != pairs[k].0 {
        }
    } else {
        assert(out.drop_last() =~= pairs.drop_last().update(k, (pairs[k].0, value)));
        assert(out.last() == pairs.last());
        assert(pairs[k].0 != pairs[last].0);
        let front = pairs.drop_last();
        assert forall|i: int, j: int| 0 <= i < j < front.len() implies (#[trigger] front[i]).0
            != (#[trigger] front[j]).0 by {
            assert(pairs[i].0 != pairs[j].0);
        }
        lemma_value_of_update(front, k, value, other);
    }
}

/// A list has a value for a name exactly when one of its pairs has that
/// name.
pub proof fn lemma_value_of_has_name(pairs: Seq<Pair>, name: Seq<char>)
    ensures
        value_of(pairs, name) is Some <==> has_name(pairs, name),
    decreases pairs.len(),
{
    if pairs.len() > 0 {
        lemma_value_of_has_name(pairs.drop_last(), name);
        if pairs.last().0 == name {
            assert(pairs[pairs.len() - 1].0 == name);
        } else {
            if has_name(pairs, name) {
                let i = choose|i: int| 0 <= i < pairs.len() && (#[trigger] pairs[i]).0 == name;
                assert(pairs.drop_last()[i].0 == name);
            }
            if has_name(pairs.drop_last(), name) {
                let i = choose|i: int|
                    0 <= i < pairs.drop_last().len() && (#[trigger] pairs.drop_last()[i]).0
                        == name;
                assert(pairs[i].0 == name);
            }
        }
    }
}

/// The mapping of a list has no repeated names and gives every name the
/// value that the list gives it.
pub proof fn lemma_mapping_of(pairs: Seq<Pair>)
    ensures
        distinct_names(mapping_of(pairs)),
        forall|name: Seq<char>| #[trigger]
            value_of(mapping_of(pairs), name) == value_of(pairs, name),
    decreases pairs.len(),
{
    if pairs.len() > 0 {
        lemma_mapping_of(pairs.drop_last());
        lemma_with_value(mapping_of(pairs.drop_last()), pairs.last().0, pairs.last().1);
    }
}

/// Adding defaults to a list without repeated names gives a list without
/// repeated names, in which the list's own values stay and every other name
/// has the value of its first pair among the defaults.
pub proof fn lemma_with_defaults(base: Seq<Pair>, extra: Seq<Pair>)
    requires
        distinct_names(base),
        distinct_names(extra),
    ensures
        distinct_names(with_defaults(base, extra)),
        forall|name: Seq<char>| #[trigger]
            value_of(with_defaults(base, extra), name) == match value_of(base, name) {
                Some(value) => Some(value),
                None => value_of(extra, name),
            },
    decreases extra.len(),
{
    if extra.len() > 0 {
        let front = extra.drop_last();
        let inner = with_defaults(base, front);
        let name = extra.last().0;
        let value = extra.last().1;
        assert forall|i: int, j: int| 0 <= i < j < front.len() implies (#[trigger] front[i]).0
            != (#[trigger] front[j]).0 by {
            assert(extra[i].0 != extra[j].0);
        }
        lemma_with_defaults(base, front);
        lemma_value_of_has_name(inner, name);
        lemma_value_of_has_name(front, name);
        if has_name(front, name) {
            let i = choose|i: int| 0 <= i < front.len() && (#[trigger] front[i]).0 == name;
            assert(extra[i].0 != extra[extra.len() - 1].0);
        }
        assert(value_of(front, name) is None);
        assert forall|other: Seq<char>| #[trigger]
            value_of(with_defaults(base, extra), other) == match value_of(base, other) {
                Some(v) => Some(v),
                None => value_of(extra, other),
            } by {
            assert(value_of(inner, other) == match value_of(base, other) {
                Some(v) => Some(v),
                None => value_of(front, other),
            });
            if !has_name(inner, name) {
                assert(inner.push((name, value)).drop_last() =~= inner);
            }
        }
        if has_name(inner, name) {
        } else {
            let out = inner.push((name, value));
            assert(out.drop_last() =~= inner);
            assert(value_of(base, name) is None);
            assert forall|i: int, j: int| 0 <= i < j < out.len() implies (#[trigger] out[i]).0
                != (#[trigger] out[j]).0 by {
                if j < inner.len() {
                    assert(inner[i].0 != inner[j].0);
                } else {
                    assert(inner[i].0 != name);
                }
            }
        }
    }
}

/// The merged parameters have no repeated names; a name that the existing
/// parameters have keeps its existing value, and any other name has the value
/// that the supplied parameters give it.
pub proof fn law_merged(existing: Seq<Pair>, supplied: Seq<Pair>)
    ensures
        distinct_names(merged(existing, supplied)),
        forall|name: Seq<char>| #[trigger]
            value_of(merged(existing, supplied), name) == match value_of(existing, name) {
                Some(value) => Some(value),
                None => value_of(supplied, name),
            },
        forall|name: Seq<char>| #[trigger]
            has_name(merged(existing, supplied), name) <==> has_name(existing, name) || has_name(
                supplied,
                name,
            ),
{
    lemma_mapping_of(existing);
    lemma_mapping_of(supplied);
    lemma_with_defaults(mapping_of(existing), mapping_of(supplied));
    assert forall|name: Seq<char>| #[trigger]
        has_name(merged(existing, supplied), name) <==> has_name(existing, name) || has_name(
            supplied,
            name,
        ) by {
        lemma_value_of_has_name(merged(existing, supplied), name);
        lemma_value_of_has_name(existing, name);
        lemma_value_of_has_name(supplied, name);
        assert(value_of(mapping_of(existing), name) == value_of(existing, name));
        assert(value_of(mapping_of(supplied), name) == value_of(supplied, name));
    }
    assert forall|name: Seq<char>| #[trigger]
        value_of(merged(existing, supplied), name) == match value_of(existing, name) {
            Some(value) => Some(value),
            None => value_of(supplied, name),
        } by {
        assert(value_of(mapping_of(existing), name) == value_of(existing, name));
        assert(value_of(mapping_of(supplied), name) == value_of(supplied, name));
    }
}

/// The index of the first parameter with this name.
pub fn find_name(params: &Vec<Param>, name: &String) -> (found: Option<usize>)
    ensures
        found is Some <==> has_name(pairs_of(params@), name@),
        found matches Some(i) ==> i < params.len() && i == index_of_name(
            pairs_of(params@),
            name@,
        ),
{
    let ghost pairs = pairs_of(params@);
    let mut i: usize = 0;
    while i < params.len()
        invariant
            i <= params.len(),
            pairs == pairs_of(params@),
            forall|j: int| 0 <= j < i ==> (#[trigger] pairs[j]).0 != name@,
        decreases params.len() - i,
    {
        if params[i].name == *name {
            proof {
                assert(pairs[i as int].0 == name@);
                lemma_index_of_name(pairs, i as int);
            }
            return Some(i);
        }
        i += 1;
    }
    None
}

/// Sets `name` to `value`: in place where the name is there already, else at
/// the end.
pub fn set_value(params: &mut Vec<Param>, param: Param)
    ensures
        pairs_of(final(params)@) == with_value(pairs_of(old(params)@), param@.0, param@.1),
{
    match find_name(params, &param.name) {
        Some(i) => {
            params.set(i, param);
            assert(pairs_of(params@) =~= pairs_of(old(params)@).update(i as int, param@));
        },
        None => {
            params.push(param);
            assert(pairs_of(params@) =~= pairs_of(old(params)@).push(param@));
        },
    }
}

/// Sets `name` to `value` unless the name is there already.
pub fn set_default(params: &mut Vec<Param>, param: Param)
    ensures
        pairs_of(final(params)@) == with_default(pairs_of(old(params)@), param@.0, param@.1),
{
    match find_name(params, &param.name) {
        Some(_) => {},
        None => {
            params.push(param);
            assert(pairs_of(params@) =~= pairs_of(old(params)@).push(param@));
        },
    }
}

/// The mapping that the parameters stand for: every name once, at the place
/// of its first parameter, with the value of its last.
pub fn mapping(params: &Vec<Param>) -> (out: Vec<Param>)
    ensures
        pairs_of(out@) == mapping_of(pairs_of(params@)),
{
    let ghost pairs = pairs_of(params@);
    let mut out: Vec<Param> = Vec::new();
    let mut i: usize = 0;
    assert(pairs_of(out@) =~= mapping_of(pairs.take(0)));
    while i < params.len()
        invariant
            i <= params.len(),
            pairs == pairs_of(params@),
            pairs_of(out@) == mapping_of(pairs.take(i as int)),
        decreases params.len() - i,
    {
        proof {
            assert(pairs.take(i + 1).drop_last() =~= pairs.take(i as int));
            assert(pairs.take(i + 1).last() == params@[i as int]@);
        }
        set_value(&mut out, params[i].duplicate());
        i += 1;
    }
    assert(pairs.take(params.len() as int) =~= pairs);
    out
}

/// Merges the parameters that a URL has already with those that a caller
/// supplies. Where both give a value to a name, the existing value is kept.
pub fn merge_params(existing: &Vec<Param>, supplied: &Vec<Param>) -> (out: Vec<Param>)
    ensures
        pairs_of(out@) == merged(pairs_of(existing@), pairs_of(supplied@)),
{
    let mut out = mapping(existing);
    let extra = mapping(supplied);
    let ghost base = pairs_of(out@);
    let ghost pairs = pairs_of(extra@);
    let mut i: usize = 0;
    assert(pairs.take(0) =~= Seq::<Pair>::empty());
    while i < extra.len()
        invariant
            i <= extra.len(),
            pairs == pairs_of(extra@),
            pairs_of(out@) == with_defaults(base, pairs.take(i as int)),
        decreases extra.len() - i,
    {
        proof {
            assert(pairs.take(i + 1).drop_last() =~= pairs.take(i as int));
            assert(pairs.take(i + 1).last() == extra@[i as int]@);
        }
        set_default(&mut out, extra[i].duplicate());
        i += 1;
    }
    assert(pairs.take(extra.len() as int) =~= pairs);
    out
}

} // verus!
