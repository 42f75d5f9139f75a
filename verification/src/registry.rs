//! Name-keyed tables kept as vectors of `(name, value)` entries.
//!
//! The managers of this library (prompt templates, LLM providers, agents) each
//! keep such a table. Names are unique in a well-formed table, so the table
//! stands for a finite map from names to values; inserting under a name that
//! is already present replaces its value in place.

use vstd::prelude::*;

verus! {

/// No name occurs twice among the entries.
pub open spec fn names_distinct<V>(s: Seq<(String, V)>) -> bool {
    forall|i: int, j: int| 0 <= i < j < s.len() ==> (#[trigger] s[i]).0@ != (#[trigger] s[j]).0@
}

/// Some entry is named `name`.
pub open spec fn has_name<V>(s: Seq<(String, V)>, name: Seq<char>) -> bool {
    exists|i: int| 0 <= i < s.len() && (#[trigger] s[i]).0@ == name
}

/// The map from names to values that the entries stand for (later entries win).
pub open spec fn entry_map<V>(s: Seq<(String, V)>) -> Map<Seq<char>, V>
    decreases s.len(),
{
    if s.len() == 0 {
        Map::empty()
    } else {
        entry_map(s.drop_last()).insert(s.last().0@, s.last().1)
    }
}

/// The names of the entries, in order.
pub open spec fn entry_names<V>(s: Seq<(String, V)>) -> Seq<Seq<char>> {
    s.map_values(|e: (String, V)| e.0@)
}

/// The domain of `entry_map` is exactly the set of names, and with distinct names each
/// name maps to the value stored beside it.
pub proof fn lemma_entry_map<V>(s: Seq<(String, V)>)
    ensures
        forall|k: Seq<char>| #[trigger] entry_map(s).contains_key(k) <==> has_name(s, k),
        names_distinct(s) ==> forall|i: int| 0 <= i < s.len() ==> #[trigger] entry_map(s)[s[i].0@] == s[i].1,
    decreases s.len(),
{
    if s.len() > 0 {
        let p = s.drop_last();
        lemma_entry_map(p);
        let last = s[s.len() - 1];
        assert(entry_map(s) == entry_map(p).insert(last.0@, last.1));
        assert forall|k: Seq<char>| #[trigger] entry_map(s).contains_key(k) <==> has_name(s, k) by {
            if has_name(s, k) {
                let i = choose|i: int| 0 <= i < s.len() && (#[trigger] s[i]).0@ == k;
                if i < p.len() {
                    assert(p[i] == s[i]);
                    assert(has_name(p, k));
                } else {
                    assert(k == last.0@);
                }
            }
            if has_name(p, k) {
                let i = choose|i: int| 0 <= i < p.len() && (#[trigger] p[i]).0@ == k;
                assert(s[i] == p[i]);
                assert(has_name(s, k));
            }
            if k == last.0@ {
                assert(has_name(s, k));
            }
        }
        if names_distinct(s) {
            assert(names_distinct(p)) by {
                assert forall|i: int, j: int| 0 <= i < j < p.len() implies (#[trigger] p[i]).0@ != (#[trigger] p[j]).0@ by {
                    assert(p[i] == s[i] && p[j] == s[j]);
                }
            }
            assert forall|i: int| 0 <= i < s.len() implies #[trigger] entry_map(s)[s[i].0@] == s[i].1 by {
                if i < p.len() {
                    assert(p[i] == s[i]);
                    assert(s[i].0@ != last.0@);
                    assert(entry_map(p)[p[i].0@] == p[i].1);
                }
            }
        }
    }
}

/// Pushing an entry under a fresh name keeps names distinct and adds that name to the map.
pub proof fn lemma_push_fresh<V>(s: Seq<(String, V)>, e: (String, V))
    requires
        names_distinct(s),
        !has_name(s, e.0@),
    ensures
        names_distinct(s.push(e)),
        entry_map(s.push(e)) == entry_map(s).insert(e.0@, e.1),
{
    let t = s.push(e);
    assert(t.drop_last() =~= s);
    assert forall|i: int, j: int| 0 <= i < j < t.len() implies (#[trigger] t[i]).0@ != (#[trigger] t[j]).0@ by {
        if j == s.len() {
            assert(t[i] == s[i]);
            if s[i].0@ == e.0@ {
                assert(has_name(s, e.0@));
            }
        } else {
            assert(t[i] == s[i] && t[j] == s[j]);
        }
    }
}

/// Replacing the value of entry `i` keeps the names and updates the map at that name.
pub proof fn lemma_update_value<V>(s: Seq<(String, V)>, i: int, e: (String, V))
    requires
        names_distinct(s),
        0 <= i < s.len(),
        s[i].0@ == e.0@,
    ensures
        names_distinct(s.update(i, e)),
        entry_map(s.update(i, e)) == entry_map(s).insert(e.0@, e.1),
{
    let t = s.update(i, e);
    assert forall|a: int, b: int| 0 <= a < b < t.len() implies (#[trigger] t[a]).0@ != (#[trigger] t[b]).0@ by {
        assert(t[a].0@ == s[a].0@);
        assert(t[b].0@ == s[b].0@);
    }
    lemma_entry_map(s);
    lemma_entry_map(t);
    assert forall|k: Seq<char>| #[trigger] has_name(t, k) <==> has_name(s, k) by {
        if has_name(t, k) {
            let j = choose|j: int| 0 <= j < t.len() && (#[trigger] t[j]).0@ == k;
            assert(s[j].0@ == k);
        }
        if has_name(s, k) {
            let j = choose|j: int| 0 <= j < s.len() && (#[trigger] s[j]).0@ == k;
            assert(t[j].0@ == k);
        }
    }
    assert(has_name(s, e.0@)) by {
        assert(s[i].0@ == e.0@);
    }
    assert forall|k: Seq<char>| #[trigger] entry_map(t).contains_key(k) implies
        entry_map(t)[k] == entry_map(s).insert(e.0@, e.1)[k] by {
        let j = choose|j: int| 0 <= j < t.len() && (#[trigger] t[j]).0@ == k;
        assert(entry_map(t)[t[j].0@] == t[j].1);
        if j != i {
            assert(entry_map(s)[s[j].0@] == s[j].1);
        }
    }
    assert(entry_map(t) =~= entry_map(s).insert(e.0@, e.1));
}

/// Position of the entry named `name`, if any.
pub fn find_entry<V>(entries: &Vec<(String, V)>, name: &str) -> (r: Option<usize>)
    ensures
        r matches Some(i) ==> i < entries.len() && entries@[i as int].0@ == name@,
        r is None ==> !has_name(entries@, name@),
{
    let key = name.to_owned();
    let mut i: usize = 0;
    while i < entries.len()
        invariant
            i <= entries.len(),
            key@ == name@,
            forall|j: int| 0 <= j < i ==> (#[trigger] entries@[j]).0@ != name@,
        decreases entries.len() - i,
    {
        if entries[i].0 == key {
            return Some(i);
        }
        i = i + 1;
    }
    proof {
        if has_name(entries@, name@) {
            let j = choose|j: int| 0 <= j < entries@.len() && (#[trigger] entries@[j]).0@ == name@;
            assert(entries@[j].0@ != name@);
        }
    }
    None
}

/// Stores `value` under `name`: in place when the name is present, else as a new last entry.
/// Returns the position of the entry.
pub fn insert_entry<V>(entries: &mut Vec<(String, V)>, name: String, value: V) -> (slot: usize)
    requires
        names_distinct(old(entries)@),
    ensures
        names_distinct(final(entries)@),
        entry_map(final(entries)@) == entry_map(old(entries)@).insert(name@, value),
        slot < final(entries)@.len(),
        has_name(old(entries)@, name@) ==> slot < old(entries)@.len() && old(entries)@[slot as int].0@ == name@
            && final(entries)@ == old(entries)@.update(slot as int, (name, value)),
        !has_name(old(entries)@, name@) ==> slot == old(entries)@.len()
            && final(entries)@ == old(entries)@.push((name, value)),
{
    match find_entry(entries, name.as_str()) {
        Some(i) => {
            proof {
                lemma_update_value(entries@, i as int, (name, value));
                assert(has_name(old(entries)@, name@)) by {
                    assert(old(entries)@[i as int].0@ == name@);
                }
            }
            entries.set(i, (name, value));
            i
        },
        None => {
            proof {
                lemma_push_fresh(entries@, (name, value));
            }
            let n = entries.len();
            entries.push((name, value));
            n
        },
    }
}

} // verus!
