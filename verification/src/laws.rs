//! What holds of merging, proved from its definition.

use crate::accumulator::merge_sources;
use crate::node::{
    distinct_keys, entries_wf, has_key, key_index, keys, lookup, merge_document, merge_documents,
    merge_entries, merge_value, new_keys, node_wf, upsert, Node,
};
use vstd::prelude::*;

verus! {

/// With distinct keys, a key finds the one entry that holds it.
pub proof fn lemma_lookup_entry(entries: Seq<(Node, Node)>, i: int)
    requires
        distinct_keys(entries),
        0 <= i < entries.len(),
    ensures
        has_key(entries, entries[i].0),
        key_index(entries, entries[i].0) == i,
        lookup(entries, entries[i].0) == Some(entries[i].1),
{
    assert(has_key(entries, entries[i].0));
}

/// Storing a value keeps every entry in its place and under its key, and
/// adds at most one entry, at the end.
pub proof fn lemma_upsert_places(entries: Seq<(Node, Node)>, key: Node, value: Node)
    ensures
        has_key(entries, key) ==> upsert(entries, key, value).len() == entries.len(),
        !has_key(entries, key) ==> upsert(entries, key, value) == entries.push((key, value)),
        upsert(entries, key, value).len() >= entries.len(),
        forall|i: int|
            0 <= i < entries.len() ==> (#[trigger] upsert(entries, key, value)[i]).0
                == entries[i].0,
        forall|i: int|
            0 <= i < entries.len() && entries[i].0 != key ==> #[trigger] upsert(
                entries,
                key,
                value,
            )[i] == entries[i],
{
}

/// Storing a value under a key keeps the keys distinct; afterwards the key
/// finds that value.
pub proof fn lemma_upsert_stores(entries: Seq<(Node, Node)>, key: Node, value: Node)
    requires
        distinct_keys(entries),
    ensures
        distinct_keys(upsert(entries, key, value)),
        lookup(upsert(entries, key, value), key) == Some(value),
{
    let after = upsert(entries, key, value);
    lemma_upsert_places(entries, key, value);
    assert forall|a: int, b: int|
        0 <= a < after.len() && 0 <= b < after.len() && (#[trigger] after[a]).0 == (
        #[trigger] after[b]).0 implies a == b by {
        if a < entries.len() && b < entries.len() {
            assert(entries[a].0 == entries[b].0);
        }
    }
    if has_key(entries, key) {
        lemma_lookup_entry(after, key_index(entries, key));
    } else {
        lemma_lookup_entry(after, entries.len() as int);
    }
}

/// Storing a value under one key changes nothing under any other key.
pub proof fn lemma_upsert_elsewhere(
    entries: Seq<(Node, Node)>,
    key: Node,
    value: Node,
    other: Node,
)
    requires
        distinct_keys(entries),
        other != key,
    ensures
        has_key(upsert(entries, key, value), other) == has_key(entries, other),
        lookup(upsert(entries, key, value), other) == lookup(entries, other),
{
    let after = upsert(entries, key, value);
    lemma_upsert_places(entries, key, value);
    lemma_upsert_stores(entries, key, value);
    if has_key(entries, other) {
        lemma_lookup_entry(after, key_index(entries, other));
    }
    if has_key(after, other) {
        assert(after[key_index(after, other)].0 == other);
    }
}

/// Entries behind the first have distinct keys where all of them have.
proof fn lemma_rest_distinct(entries: Seq<(Node, Node)>)
    requires
        distinct_keys(entries),
        entries.len() > 0,
    ensures
        distinct_keys(entries.skip(1)),
{
    let rest = entries.skip(1);
    assert forall|i: int, j: int|
        0 <= i < rest.len() && 0 <= j < rest.len() && (#[trigger] rest[i]).0 == (
        #[trigger] rest[j]).0 implies i == j by {
        assert(rest[i] == entries[i + 1] && rest[j] == entries[j + 1]);
    }
}

/// Entries behind the first are well formed where all of them are.
proof fn lemma_rest_wf(entries: Seq<(Node, Node)>)
    requires
        entries_wf(entries),
        entries.len() > 0,
    ensures
        entries_wf(entries.skip(1)),
{
    let rest = entries.skip(1);
    lemma_rest_distinct(entries);
    assert forall|i: int| 0 <= i < rest.len() implies node_wf((#[trigger] rest[i]).0) && node_wf(
        rest[i].1,
    ) by {
        assert(rest[i] == entries[i + 1]);
    }
}

/// Merging keeps mappings well formed: where no mapping inside `left` or
/// `right` names a key twice, none inside their merge does.
pub proof fn lemma_merge_keeps_wf(left: Seq<(Node, Node)>, right: Seq<(Node, Node)>)
    requires
        entries_wf(left),
        entries_wf(right),
    ensures
        entries_wf(merge_entries(left, right)),
    decreases right,
{
    if right.len() > 0 {
        let key = right[0].0;
        let value = merge_value(lookup(left, key), right[0].1);
        let next = upsert(left, key, value);
        assert(node_wf(value)) by {
            if let (Some(Node::Mapping(l)), Node::Mapping(r)) = (lookup(left, key), right[0].1) {
                lemma_merge_keeps_wf(l, r);
            }
        }
        lemma_upsert_places(left, key, value);
        lemma_upsert_stores(left, key, value);
        assert forall|i: int| 0 <= i < next.len() implies node_wf((#[trigger] next[i]).0)
            && node_wf(next[i].1) by {
            if i < left.len() && left[i].0 == key {
                lemma_lookup_entry(next, i);
            }
        }
        let rest = right.skip(1);
        lemma_rest_wf(right);
        lemma_merge_keeps_wf(next, rest);
    }
}

/// Merging entries that a well-formed mapping already holds changes
/// nothing.
pub proof fn lemma_merge_held(acc: Seq<(Node, Node)>, right: Seq<(Node, Node)>)
    requires
        entries_wf(acc),
        forall|i: int| 0 <= i < right.len() ==> acc.contains(#[trigger] right[i]),
    ensures
        merge_entries(acc, right) == acc,
    decreases right,
{
    if right.len() > 0 {
        let key = right[0].0;
        let j = choose|j: int| 0 <= j < acc.len() && acc[j] == right[0];
        lemma_lookup_entry(acc, j);
        let value = merge_value(lookup(acc, key), right[0].1);
        assert(value == right[0].1) by {
            if let Node::Mapping(inner) = right[0].1 {
                assert forall|i: int| 0 <= i < inner.len() implies inner.contains(
                    #[trigger] inner[i],
                ) by {}
                lemma_merge_held(inner, inner);
            }
        }
        assert(upsert(acc, key, value) =~= acc);
        let rest = right.skip(1);
        assert forall|i: int| 0 <= i < rest.len() implies acc.contains(#[trigger] rest[i]) by {
            assert(rest[i] == right[i + 1]);
        }
        lemma_merge_held(acc, rest);
    }
}

/// Merging a well-formed mapping into itself gives that mapping: a hash that
/// already is a document is not changed by merging that document.
pub proof fn lemma_merge_self(entries: Seq<(Node, Node)>)
    requires
        entries_wf(entries),
    ensures
        merge_entries(entries, entries) == entries,
        merge_document(entries, Node::Mapping(entries)) == entries,
        merge_documents(entries, seq![Node::Mapping(entries)]) == entries,
{
    assert forall|i: int| 0 <= i < entries.len() implies entries.contains(
        #[trigger] entries[i],
    ) by {}
    lemma_merge_held(entries, entries);
    let docs = seq![Node::Mapping(entries)];
    assert(merge_documents(entries, docs) == merge_documents(
        merge_document(entries, docs[0]),
        docs.skip(1),
    ));
}

/// Merging nothing changes nothing: no entries, no documents, no sources.
pub proof fn lemma_merge_nothing(acc: Seq<(Node, Node)>)
    ensures
        merge_entries(acc, Seq::empty()) == acc,
        merge_documents(acc, Seq::empty()) == acc,
        merge_sources(acc, Seq::empty()) == acc,
{
}

/// Entries behind the first have distinct keys, none of them the first key,
/// and any other key finds in them what it finds in the whole.
proof fn lemma_lookup_rest(entries: Seq<(Node, Node)>, key: Node)
    requires
        distinct_keys(entries),
        entries.len() > 0,
    ensures
        distinct_keys(entries.skip(1)),
        !has_key(entries.skip(1), entries[0].0),
        key != entries[0].0 ==> lookup(entries.skip(1), key) == lookup(entries, key),
        lookup(entries, entries[0].0) == Some(entries[0].1),
{
    let rest = entries.skip(1);
    lemma_rest_distinct(entries);
    if has_key(rest, entries[0].0) {
        let j = key_index(rest, entries[0].0);
        assert(rest[j] == entries[j + 1]);
    }
    lemma_lookup_entry(entries, 0);
    if key != entries[0].0 {
        if has_key(rest, key) {
            lemma_lookup_entry(entries, key_index(rest, key) + 1);
        }
        if has_key(entries, key) {
            lemma_lookup_entry(rest, key_index(entries, key) - 1);
        }
    }
}

/// What a key finds after a merge: where `right` has the key, the value of
/// `right` merged over what `left` had under it; where not, what `left` had.
/// The merge of mappings with distinct keys has distinct keys.
pub proof fn lemma_merge_lookup(left: Seq<(Node, Node)>, right: Seq<(Node, Node)>, key: Node)
    requires
        distinct_keys(left),
        distinct_keys(right),
    ensures
        distinct_keys(merge_entries(left, right)),
        lookup(merge_entries(left, right), key) == match lookup(right, key) {
            Some(incoming) => Some(merge_value(lookup(left, key), incoming)),
            None => lookup(left, key),
        },
    decreases right.len(),
{
    if right.len() > 0 {
        let first = right[0].0;
        let value = merge_value(lookup(left, first), right[0].1);
        let next = upsert(left, first, value);
        lemma_upsert_stores(left, first, value);
        lemma_lookup_rest(right, key);
        lemma_merge_lookup(next, right.skip(1), key);
        if key != first {
            lemma_upsert_elsewhere(left, first, value, key);
        }
    }
}

/// Storing a value under a key adds that key to those that are present and
/// takes none away.
proof fn lemma_upsert_has_key(entries: Seq<(Node, Node)>, key: Node, value: Node, other: Node)
    ensures
        has_key(upsert(entries, key, value), other) == (has_key(entries, other) || other == key),
{
    let after = upsert(entries, key, value);
    lemma_upsert_places(entries, key, value);
    if has_key(entries, other) {
        assert(after[key_index(entries, other)].0 == other);
    }
    if other == key && !has_key(entries, key) {
        assert(after[entries.len() as int].0 == key);
    }
    if has_key(after, other) {
        assert(after[key_index(after, other)].0 == other);
    }
}

/// Which keys of `right` are new depends only on which of them `left` has.
proof fn lemma_new_keys_same(
    left: Seq<(Node, Node)>,
    other: Seq<(Node, Node)>,
    right: Seq<(Node, Node)>,
)
    requires
        forall|i: int|
            0 <= i < right.len() ==> has_key(left, (#[trigger] right[i]).0) == has_key(
                other,
                right[i].0,
            ),
    ensures
        new_keys(left, right) == new_keys(other, right),
    decreases right.len(),
{
    if right.len() > 0 {
        let rest = right.skip(1);
        assert forall|i: int| 0 <= i < rest.len() implies has_key(left, (#[trigger] rest[i]).0)
            == has_key(other, rest[i].0) by {
            assert(rest[i] == right[i + 1]);
        }
        lemma_new_keys_same(left, other, rest);
    }
}

/// The order of keys after a merge: the keys of `left` as they stood, then
/// the keys that only `right` has, in the order of `right`.
pub proof fn lemma_merge_keys(left: Seq<(Node, Node)>, right: Seq<(Node, Node)>)
    requires
        distinct_keys(right),
    ensures
        keys(merge_entries(left, right)) == keys(left) + new_keys(left, right),
    decreases right.len(),
{
    if right.len() == 0 {
        assert(keys(left) + new_keys(left, right) =~= keys(left));
    } else {
        let first = right[0].0;
        let value = merge_value(lookup(left, first), right[0].1);
        let next = upsert(left, first, value);
        let rest = right.skip(1);
        lemma_upsert_places(left, first, value);
        lemma_rest_distinct(right);
        assert forall|i: int| 0 <= i < rest.len() implies has_key(next, (#[trigger] rest[i]).0)
            == has_key(left, rest[i].0) by {
            assert(rest[i] == right[i + 1]);
            lemma_upsert_has_key(left, first, value, rest[i].0);
        }
        lemma_new_keys_same(next, left, rest);
        lemma_merge_keys(next, rest);
        if has_key(left, first) {
            assert(keys(next) =~= keys(left));
        } else {
            assert(keys(next) =~= keys(left) + seq![first]);
            assert(keys(left) + seq![first] + new_keys(left, rest) =~= keys(left) + (seq![first]
                + new_keys(left, rest)));
        }
    }
}

} // verus!
