//! Header entries as a sequence of name and value pairs, and the mapping that
//! such a sequence stands for when a later pair overrides an earlier one.
//!
//! Header names do not depend on the case of their letters: two spellings
//! that differ only in case are the same name.

use crate::header::lowered;
use vstd::prelude::*;

verus! {

/// Two spellings of one header name: they agree once their letters are in
/// lower case.
pub open spec fn same_name(a: Seq<char>, b: Seq<char>) -> bool {
    lowered(a) == lowered(b)
}

/// Some pair of `entries` carries `name`.
pub open spec fn has_name<V>(entries: Seq<(Seq<char>, V)>, name: Seq<char>) -> bool {
    exists|i: int| 0 <= i < entries.len() && same_name((#[trigger] entries[i]).0, name)
}

/// No name stands in two pairs.
pub open spec fn distinct_names<V>(entries: Seq<(Seq<char>, V)>) -> bool {
    forall|i: int, j: int|
        0 <= i < j < entries.len() ==> !same_name(
            (#[trigger] entries[i]).0,
            (#[trigger] entries[j]).0,
        )
}

/// The place of a pair that carries `name`, where there is one.
pub open spec fn position<V>(entries: Seq<(Seq<char>, V)>, name: Seq<char>) -> int {
    choose|i: int| 0 <= i < entries.len() && same_name((#[trigger] entries[i]).0, name)
}

/// The value that a pair with `name` carries, where there is one.
pub open spec fn value_of<V>(entries: Seq<(Seq<char>, V)>, name: Seq<char>) -> V {
    entries[position(entries, name)].1
}

/// `entries` after `name` is given `value`: the pair that carries the name
/// takes the value where it stands and keeps its spelling; a new name goes to
/// the end as it is spelled.
pub open spec fn put<V>(entries: Seq<(Seq<char>, V)>, name: Seq<char>, value: V) -> Seq<
    (Seq<char>, V),
> {
    if has_name(entries, name) {
        entries.update(position(entries, name), (entries[position(entries, name)].0, value))
    } else {
        entries.push((name, value))
    }
}

/// The pairs of `entries` put one after another into an empty sequence: each
/// name once, at the place of its first occurrence, with the value of its last.
pub open spec fn collapse<V>(entries: Seq<(Seq<char>, V)>) -> Seq<(Seq<char>, V)>
    decreases entries.len(),
{
    if entries.len() == 0 {
        Seq::empty()
    } else {
        put(collapse(entries.drop_last()), entries.last().0, entries.last().1)
    }
}

/// `at` is the last place in `entries` where `name` stands.
pub open spec fn is_last_occurrence<V>(
    entries: Seq<(Seq<char>, V)>,
    name: Seq<char>,
    at: int,
) -> bool {
    &&& 0 <= at < entries.len()
    &&& same_name(entries[at].0, name)
    &&& forall|j: int| at < j < entries.len() ==> !same_name((#[trigger] entries[j]).0, name)
}

/// Among distinct names, a name is found where it stands, under any spelling.
pub proof fn lemma_position_unique<V>(entries: Seq<(Seq<char>, V)>, name: Seq<char>, at: int)
    requires
        distinct_names(entries),
        0 <= at < entries.len(),
        same_name(entries[at].0, name),
    ensures
        has_name(entries, name),
        position(entries, name) == at,
        value_of(entries, name) == entries[at].1,
{
    let found = position(entries, name);
    assert(0 <= found < entries.len() && same_name(entries[found].0, name));
    if found < at {
        assert(!same_name(entries[found].0, entries[at].0));
    } else if at < found {
        assert(!same_name(entries[at].0, entries[found].0));
    }
}

/// Putting a pair adds at most one pair, and only for a new name.
pub proof fn lemma_put_len<V>(entries: Seq<(Seq<char>, V)>, name: Seq<char>, value: V)
    ensures
        put(entries, name, value).len() == if has_name(entries, name) {
            entries.len()
        } else {
            entries.len() + 1
        },
{
    if has_name(entries, name) {
        let at = position(entries, name);
        assert(0 <= at < entries.len());
    }
}

/// A put changes no name that was there, and spells a new name as given.
pub proof fn lemma_put_spelling<V>(entries: Seq<(Seq<char>, V)>, name: Seq<char>, value: V, at: int)
    requires
        0 <= at < put(entries, name, value).len(),
    ensures
        put(entries, name, value)[at].0 == if at < entries.len() {
            entries[at].0
        } else {
            name
        },
{
    lemma_put_len(entries, name, value);
    if has_name(entries, name) {
        let found = position(entries, name);
        assert(0 <= found < entries.len());
    }
}

/// Putting a pair keeps the names distinct.
pub proof fn lemma_put_distinct<V>(entries: Seq<(Seq<char>, V)>, name: Seq<char>, value: V)
    requires
        distinct_names(entries),
    ensures
        distinct_names(put(entries, name, value)),
{
    let after = put(entries, name, value);
    lemma_put_len(entries, name, value);
    assert forall|i: int, j: int| 0 <= i < j < after.len() implies !same_name(
        (#[trigger] after[i]).0,
        (#[trigger] after[j]).0,
    ) by {
        lemma_put_spelling(entries, name, value, i);
        lemma_put_spelling(entries, name, value, j);
        if j < entries.len() {
            assert(!same_name(entries[i].0, entries[j].0));
        } else {
            assert(!has_name(entries, name));
            assert(!same_name(entries[i].0, name));
        }
    }
}

/// After a put the names are the old ones and the one that was put.
pub proof fn lemma_put_names<V>(
    entries: Seq<(Seq<char>, V)>,
    name: Seq<char>,
    value: V,
    other: Seq<char>,
)
    ensures
        has_name(put(entries, name, value), other) <==> (same_name(name, other) || has_name(
            entries,
            other,
        )),
{
    let after = put(entries, name, value);
    lemma_put_len(entries, name, value);
    if has_name(entries, name) {
        let at = position(entries, name);
        assert(0 <= at < entries.len() && same_name(entries[at].0, name));
        if same_name(name, other) {
            lemma_put_spelling(entries, name, value, at);
            assert(same_name(after[at].0, other));
        }
    } else {
        lemma_put_spelling(entries, name, value, entries.len() as int);
        if same_name(name, other) {
            assert(same_name(after[entries.len() as int].0, other));
        }
    }
    if has_name(entries, other) {
        let i = position(entries, other);
        lemma_put_spelling(entries, name, value, i);
        assert(same_name(after[i].0, other));
    }
    if has_name(after, other) && !same_name(name, other) {
        let i = position(after, other);
        lemma_put_spelling(entries, name, value, i);
        assert(i < entries.len());
        assert(same_name(entries[i].0, other));
    }
}

/// After a put the name that was put carries the new value, and every other
/// name the value it carried.
pub proof fn lemma_put_value<V>(
    entries: Seq<(Seq<char>, V)>,
    name: Seq<char>,
    value: V,
    other: Seq<char>,
)
    requires
        distinct_names(entries),
        same_name(name, other) || has_name(entries, other),
    ensures
        value_of(put(entries, name, value), other) == if same_name(name, other) {
            value
        } else {
            value_of(entries, other)
        },
{
    let after = put(entries, name, value);
    lemma_put_distinct(entries, name, value);
    lemma_put_names(entries, name, value, other);
    lemma_put_len(entries, name, value);
    let found = position(after, other);
    assert(0 <= found < after.len() && same_name(after[found].0, other));
    lemma_put_spelling(entries, name, value, found);
    if has_name(entries, name) {
        let at = position(entries, name);
        assert(0 <= at < entries.len() && same_name(entries[at].0, name));
        if same_name(name, other) {
            lemma_put_spelling(entries, name, value, at);
            lemma_position_unique(after, other, at);
        } else {
            lemma_position_unique(entries, other, found);
        }
    } else {
        if same_name(name, other) {
            lemma_put_spelling(entries, name, value, entries.len() as int);
            lemma_position_unique(after, other, entries.len() as int);
        } else {
            assert(found < entries.len());
            lemma_position_unique(entries, other, found);
        }
    }
}

/// A collapsed sequence holds no name twice.
pub proof fn lemma_collapse_distinct<V>(entries: Seq<(Seq<char>, V)>)
    ensures
        distinct_names(collapse(entries)),
    decreases entries.len(),
{
    if entries.len() > 0 {
        lemma_collapse_distinct(entries.drop_last());
        lemma_put_distinct(collapse(entries.drop_last()), entries.last().0, entries.last().1);
    }
}

/// Collapsing keeps every name and adds none.
pub proof fn lemma_collapse_names<V>(entries: Seq<(Seq<char>, V)>, name: Seq<char>)
    ensures
        has_name(collapse(entries), name) <==> has_name(entries, name),
    decreases entries.len(),
{
    if entries.len() > 0 {
        let front = entries.drop_last();
        lemma_collapse_names(front, name);
        lemma_put_names(collapse(front), entries.last().0, entries.last().1, name);
        if has_name(front, name) {
            let i = position(front, name);
            assert(same_name(entries[i].0, name));
        }
        if has_name(entries, name) && !same_name(entries.last().0, name) {
            let i = position(entries, name);
            assert(i < front.len());
            assert(same_name(front[i].0, name));
        }
        if same_name(entries.last().0, name) {
            assert(same_name(entries[entries.len() - 1].0, name));
        }
    }
}

/// In a collapsed sequence each name carries the value of its last occurrence.
pub proof fn lemma_collapse_last_wins<V>(entries: Seq<(Seq<char>, V)>, name: Seq<char>, at: int)
    requires
        is_last_occurrence(entries, name, at),
    ensures
        has_name(collapse(entries), name),
        value_of(collapse(entries), name) == entries[at].1,
    decreases entries.len(),
{
    let front = entries.drop_last();
    lemma_collapse_distinct(front);
    lemma_collapse_names(entries, name);
    assert(has_name(entries, name));
    if at == entries.len() - 1 {
        lemma_put_value(collapse(front), entries.last().0, entries.last().1, name);
    } else {
        assert(entries.last() == entries[entries.len() - 1]);
        assert(!same_name(entries.last().0, name));
        assert(front[at] == entries[at]);
        assert forall|j: int| at < j < front.len() implies !same_name(
            (#[trigger] front[j]).0,
            name,
        ) by {
            assert(front[j] == entries[j]);
        }
        lemma_collapse_last_wins(front, name, at);
        lemma_put_value(collapse(front), entries.last().0, entries.last().1, name);
    }
}

} // verus!
