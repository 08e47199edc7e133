//! The mathematical value of a YAML document tree, and what merging means
//! on such values.

use vstd::prelude::*;

verus! {

/// What a YAML node is, as a value: a scalar, a sequence of nodes, or an
/// ordered list of key/value entries.
pub enum Node {
    /// A floating point scalar, kept as the text it was written with.
    Real(Seq<char>),
    /// An integer scalar.
    Integer(i64),
    /// A string scalar.
    Text(Seq<char>),
    /// A boolean scalar.
    Boolean(bool),
    /// A sequence. Merging never looks inside one.
    Sequence(Seq<Node>),
    /// A mapping: its entries in insertion order.
    Mapping(Seq<(Node, Node)>),
    /// A reference to an anchor.
    Alias(usize),
    /// The null scalar.
    Null,
    /// The value of an empty document or of a failed conversion.
    Bad,
}

/// Some entry of `entries` has the key `key`.
pub open spec fn has_key(entries: Seq<(Node, Node)>, key: Node) -> bool {
    exists|i: int| 0 <= i < entries.len() && (#[trigger] entries[i]).0 == key
}

/// The position of an entry with the key `key`, where there is one. With
/// distinct keys it is the only one.
pub open spec fn key_index(entries: Seq<(Node, Node)>, key: Node) -> int {
    choose|i: int| 0 <= i < entries.len() && (#[trigger] entries[i]).0 == key
}

/// The value stored under `key`, if any.
pub open spec fn lookup(entries: Seq<(Node, Node)>, key: Node) -> Option<Node> {
    if has_key(entries, key) {
        Some(entries[key_index(entries, key)].1)
    } else {
        None
    }
}

/// `entries` with `value` stored under `key`: an entry that has the key keeps
/// its place and its key and takes the new value, a new key goes to the end.
pub open spec fn upsert(entries: Seq<(Node, Node)>, key: Node, value: Node) -> Seq<(Node, Node)> {
    if has_key(entries, key) {
        let i = key_index(entries, key);
        entries.update(i, (entries[i].0, value))
    } else {
        entries.push((key, value))
    }
}

/// The keys of the entries, in order.
pub open spec fn keys(entries: Seq<(Node, Node)>) -> Seq<Node> {
    Seq::new(entries.len(), |i: int| entries[i].0)
}

/// The keys of `right` that `left` does not have, in the order of `right`.
pub open spec fn new_keys(left: Seq<(Node, Node)>, right: Seq<(Node, Node)>) -> Seq<Node>
    decreases right.len(),
{
    if right.len() == 0 {
        Seq::empty()
    } else if has_key(left, right[0].0) {
        new_keys(left, right.skip(1))
    } else {
        seq![right[0].0] + new_keys(left, right.skip(1))
    }
}

/// No two entries share a key.
pub open spec fn distinct_keys(entries: Seq<(Node, Node)>) -> bool {
    forall|i: int, j: int|
        0 <= i < entries.len() && 0 <= j < entries.len() && (#[trigger] entries[i]).0 == (
        #[trigger] entries[j]).0 ==> i == j
}

/// Every mapping inside `node`, at any depth, has distinct keys.
pub open spec fn node_wf(node: Node) -> bool
    decreases node,
{
    match node {
        Node::Sequence(items) => forall|i: int|
            0 <= i < items.len() ==> node_wf(#[trigger] items[i]),
        Node::Mapping(entries) => entries_wf(entries),
        _ => true,
    }
}

/// The entries have distinct keys, and every key and value is well formed.
pub open spec fn entries_wf(entries: Seq<(Node, Node)>) -> bool
    decreases entries,
{
    &&& distinct_keys(entries)
    &&& forall|i: int|
        0 <= i < entries.len() ==> node_wf((#[trigger] entries[i]).0) && node_wf(entries[i].1)
}

/// The value that a key holds after `incoming` was merged over `existing`:
/// two mappings merge entry by entry, anything else is replaced by the
/// incoming value.
pub open spec fn merge_value(existing: Option<Node>, incoming: Node) -> Node
    decreases incoming,
{
    match (existing, incoming) {
        (Some(Node::Mapping(left)), Node::Mapping(right)) => Node::Mapping(
            merge_entries(left, right),
        ),
        _ => incoming,
    }
}

/// `left` after the entries of `right` were merged into it one by one, in
/// the order of `right`.
pub open spec fn merge_entries(left: Seq<(Node, Node)>, right: Seq<(Node, Node)>) -> Seq<
    (Node, Node),
>
    decreases right,
{
    if right.len() == 0 {
        left
    } else {
        let key = right[0].0;
        let value = merge_value(lookup(left, key), right[0].1);
        merge_entries(upsert(left, key, value), right.skip(1))
    }
}

/// `acc` after one top-level document was merged into it: a mapping is
/// merged, any other document changes nothing.
pub open spec fn merge_document(acc: Seq<(Node, Node)>, doc: Node) -> Seq<(Node, Node)> {
    match doc {
        Node::Mapping(entries) => merge_entries(acc, entries),
        _ => acc,
    }
}

/// `acc` after the documents were merged into it in order.
pub open spec fn merge_documents(acc: Seq<(Node, Node)>, docs: Seq<Node>) -> Seq<(Node, Node)>
    decreases docs.len(),
{
    if docs.len() == 0 {
        acc
    } else {
        merge_documents(merge_document(acc, docs[0]), docs.skip(1))
    }
}

} // verus!
