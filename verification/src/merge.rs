//! Deep merge of one mapping into another.

use crate::laws::lemma_merge_keeps_wf;
use crate::node::{entries_wf, lookup, merge_entries, merge_value};
use crate::yaml::{
    mapping_clone, mapping_entries, mapping_get, mapping_iter, mapping_replace, yaml_as_hash,
    yaml_clone, yaml_from_hash, yaml_node,
};
use hashlink::LinkedHashMap;
use vstd::prelude::*;
use yaml_rust2::Yaml;

verus! {

/// The value to store under `key` when `value` is merged into `acc`: where
/// both `value` and what `acc` holds under `key` are mappings, their merge;
/// otherwise a copy of `value`.
fn merged_value(acc: &LinkedHashMap<Yaml, Yaml>, key: &Yaml, value: &Yaml) -> (r: Yaml)
    ensures
        yaml_node(r) == merge_value(
            lookup(mapping_entries(*acc), yaml_node(*key)),
            yaml_node(*value),
        ),
    decreases yaml_node(*value),
{
    if let Some(incoming) = yaml_as_hash(value) {
        if let Some(existing) = mapping_get(acc, key) {
            if let Some(present) = yaml_as_hash(existing) {
                return yaml_from_hash(merge_hashes(present, incoming));
            }
        }
    }
    yaml_clone(value)
}

/// Merges `b` into a copy of `a`. The entries of `a` keep their places. Each
/// entry of `b`, in the order of `b`, is either merged into the entry of the
/// same key, where both values are mappings, or replaces that entry's value,
/// or is added at the end where the key is new. Where no mapping inside `a`
/// or `b` names a key twice, none inside the result does.
pub fn merge_hashes(a: &LinkedHashMap<Yaml, Yaml>, b: &LinkedHashMap<Yaml, Yaml>) -> (r:
    LinkedHashMap<Yaml, Yaml>)
    ensures
        mapping_entries(r) == merge_entries(mapping_entries(*a), mapping_entries(*b)),
        entries_wf(mapping_entries(*a)) && entries_wf(mapping_entries(*b)) ==> entries_wf(
            mapping_entries(r),
        ),
    decreases mapping_entries(*b),
{
    let mut r = mapping_clone(a);
    let items = mapping_iter(b);
    let mut i: usize = 0;
    assert(mapping_entries(*b).skip(0) == mapping_entries(*b));
    while i < items.len()
        invariant
            i <= items@.len(),
            items@.len() == mapping_entries(*b).len(),
            forall|j: int|
                0 <= j < items@.len() ==> (yaml_node(*(#[trigger] items@[j]).0), yaml_node(
                    *items@[j].1,
                )) == mapping_entries(*b)[j],
            merge_entries(mapping_entries(*a), mapping_entries(*b)) == merge_entries(
                mapping_entries(r),
                mapping_entries(*b).skip(i as int),
            ),
        decreases items@.len() - i,
    {
        let (key, value) = items[i];
        assert(mapping_entries(*b).skip(i as int).skip(1) == mapping_entries(*b).skip(i + 1));
        let merged = merged_value(&r, key, value);
        mapping_replace(&mut r, yaml_clone(key), merged);
        i += 1;
    }
    proof {
        if entries_wf(mapping_entries(*a)) && entries_wf(mapping_entries(*b)) {
            lemma_merge_keeps_wf(mapping_entries(*a), mapping_entries(*b));
        }
    }
    r
}

} // verus!
