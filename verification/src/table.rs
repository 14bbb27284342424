//! Lists of named entries in which no name occurs twice.

use crate::text::same_text;
use vstd::prelude::*;

verus! {

/// Whether an entry is named `key`.
pub open spec fn has_key<V>(entries: Seq<(Seq<char>, V)>, key: Seq<char>) -> bool {
    exists|i: int| 0 <= i < entries.len() && (#[trigger] entries[i]).0 == key
}

/// Whether the first entry named `key` stands at `i`.
pub open spec fn is_first<V>(entries: Seq<(Seq<char>, V)>, key: Seq<char>, i: int) -> bool {
    &&& 0 <= i < entries.len()
    &&& entries[i].0 == key
    &&& forall|j: int| 0 <= j < i ==> (#[trigger] entries[j]).0 != key
}

/// Where the first entry named `key` stands.
pub open spec fn place<V>(entries: Seq<(Seq<char>, V)>, key: Seq<char>) -> int {
    choose|i: int| is_first(entries, key, i)
}

/// The entries with one named `key` added at the end, unless there is one.
pub open spec fn or_inserted<V>(
    entries: Seq<(Seq<char>, V)>,
    key: Seq<char>,
    value: V,
) -> Seq<(Seq<char>, V)> {
    if has_key(entries, key) {
        entries
    } else {
        entries.push((key, value))
    }
}

/// Whether no name occurs twice.
pub open spec fn distinct_keys<V>(entries: Seq<(Seq<char>, V)>) -> bool {
    forall|i: int, j: int|
        0 <= i < j < entries.len() ==> (#[trigger] entries[i]).0 != (#[trigger] entries[j]).0
}

/// The models of a list of named entries.
pub open spec fn entry_models<T: View>(entries: Seq<(String, T)>) -> Seq<(Seq<char>, T::V)> {
    Seq::new(entries.len(), |i: int| (entries[i].0@, entries[i].1@))
}

/// Finds the first entry named `key`.
pub fn find_key<T>(entries: &Vec<(String, T)>, key: &str) -> (found: Option<usize>)
    ensures
        match found {
            Some(i) => {
                &&& i < entries@.len()
                &&& entries@[i as int].0@ == key@
                &&& forall|j: int| 0 <= j < i ==> (#[trigger] entries@[j]).0@ != key@
            },
            None => forall|j: int|
                0 <= j < entries@.len() ==> (#[trigger] entries@[j]).0@ != key@,
        },
{
    let mut i: usize = 0;
    while i < entries.len()
        invariant
            i <= entries@.len(),
            forall|j: int| 0 <= j < i ==> (#[trigger] entries@[j]).0@ != key@,
        decreases entries@.len() - i,
    {
        if same_text(entries[i].0.as_str(), key) {
            return Some(i);
        }
        i = i + 1;
    }
    None
}

/// Adds an entry named `key` at the end, unless there is one.
pub fn or_insert<T: View>(entries: &mut Vec<(String, T)>, key: String, value: T)
    ensures
        entry_models(final(entries)@) == or_inserted(entry_models(old(entries)@), key@, value@),
{
    let ghost before = entry_models(entries@);
    match find_key(entries, key.as_str()) {
        Some(i) => {
            assert(before[i as int].0 == key@);
        },
        None => {
            assert(!has_key(before, key@)) by {
                assert forall|j: int| 0 <= j < before.len() implies (#[trigger] before[j]).0
                    != key@ by {
                    assert(entries@[j].0@ != key@);
                }
            }
            let ghost given = (key@, value@);
            entries.push((key, value));
            assert(entry_models(entries@) =~= before.push(given));
        },
    }
}

/// A name that occurs has a first place, and no other place is the first.
pub proof fn lemma_place<V>(entries: Seq<(Seq<char>, V)>, key: Seq<char>)
    requires
        has_key(entries, key),
    ensures
        is_first(entries, key, place(entries, key)),
        forall|i: int| is_first(entries, key, i) ==> i == place(entries, key),
{
    let some = choose|i: int| 0 <= i < entries.len() && (#[trigger] entries[i]).0 == key;
    lemma_first_exists(entries, key, some);
}

proof fn lemma_first_exists<V>(entries: Seq<(Seq<char>, V)>, key: Seq<char>, some: int)
    requires
        0 <= some < entries.len(),
        entries[some].0 == key,
    ensures
        exists|i: int| is_first(entries, key, i),
    decreases some,
{
    if exists|j: int| 0 <= j < some && (#[trigger] entries[j]).0 == key {
        let j = choose|j: int| 0 <= j < some && (#[trigger] entries[j]).0 == key;
        lemma_first_exists(entries, key, j);
    } else {
        assert(is_first(entries, key, some));
    }
}

}
