//! The boundary to `yaml_rust2` and `hashlink`: the types taken from them,
//! the values they stand for, and one function for each call made into them.
//! Nothing in this file is proved; every contract here is taken on trust.

use crate::node::{lookup, node_wf, upsert, Node};
use crate::text::document_start;
use hashlink::LinkedHashMap;
use vstd::prelude::*;
use yaml_rust2::{EmitError, ScanError, Yaml, YamlEmitter, YamlLoader};

verus! {

/// `yaml_rust2::Yaml`, a YAML node. Its inside is read through the functions
/// below only.
#[verifier::external_type_specification]
#[verifier::external_body]
pub struct ExYaml(Yaml);

/// `hashlink::LinkedHashMap`, the map that keeps its entries in the order
/// in which their keys were first inserted.
#[verifier::external_type_specification]
#[verifier::external_body]
#[verifier::reject_recursive_types(K)]
#[verifier::reject_recursive_types(V)]
#[verifier::reject_recursive_types(S)]
pub struct ExLinkedHashMap<K, V, S>(LinkedHashMap<K, V, S>);

/// `hashlink::DefaultHashBuilder`, the hasher of a `LinkedHashMap` that
/// names none.
#[verifier::external_type_specification]
#[verifier::external_body]
pub struct ExDefaultHashBuilder(hashlink::DefaultHashBuilder);

/// `yaml_rust2::ScanError`, the error of the scanner: a place in the text
/// and a message.
#[verifier::external_type_specification]
#[verifier::external_body]
pub struct ExScanError(ScanError);

/// `yaml_rust2::EmitError`, the error of the emitter.
#[verifier::external_type_specification]
#[verifier::external_body]
pub struct ExEmitError(EmitError);

/// The value of a `Yaml` node, variant by variant: `Real`, `Integer`,
/// `String`, `Boolean`, `Alias`, `Null` and `BadValue` with what they hold,
/// `Array` with the values of its items, `Hash` with the entries of its map.
/// Two nodes have the same value exactly when `yaml_rust2` compares them
/// equal, which is also when a map takes them for the same key.
pub uninterp spec fn yaml_node(y: Yaml) -> Node;

/// The entries of a map of nodes, each as a pair of values, in the order in
/// which the map is walked. A map holds no key twice.
pub uninterp spec fn mapping_entries(h: LinkedHashMap<Yaml, Yaml>) -> Seq<(Node, Node)>;

/// What `YamlLoader::load_from_str` makes of a text: the values of its
/// documents, in order, or `None` where it rejects the text.
pub uninterp spec fn parsed_documents(source: Seq<char>) -> Option<Seq<Node>>;

/// The text that `YamlEmitter::dump` writes for a node after the line that
/// starts the document.
pub uninterp spec fn yaml_text(doc: Node) -> Seq<char>;

/// The values of a list of nodes.
pub open spec fn yaml_nodes(docs: Seq<Yaml>) -> Seq<Node> {
    Seq::new(docs.len(), |i: int| yaml_node(docs[i]))
}

/// `LinkedHashMap::new`: a map without entries.
#[verifier::external_body]
pub(crate) fn mapping_new() -> (r: LinkedHashMap<Yaml, Yaml>)
    ensures
        mapping_entries(r) == Seq::<(Node, Node)>::empty(),
{
    LinkedHashMap::new()
}

/// `LinkedHashMap::clone`: a map with the same entries in the same order.
#[verifier::external_body]
pub(crate) fn mapping_clone(h: &LinkedHashMap<Yaml, Yaml>) -> (r: LinkedHashMap<Yaml, Yaml>)
    ensures
        mapping_entries(r) == mapping_entries(*h),
{
    h.clone()
}

/// `LinkedHashMap::iter`, collected: a reference to each key and value, in
/// the order in which the map is walked.
#[verifier::external_body]
pub(crate) fn mapping_iter<'a>(h: &'a LinkedHashMap<Yaml, Yaml>) -> (r: Vec<(&'a Yaml, &'a Yaml)>)
    ensures
        r@.len() == mapping_entries(*h).len(),
        forall|i: int|
            0 <= i < r@.len() ==> (yaml_node(*(#[trigger] r@[i]).0), yaml_node(*r@[i].1))
                == mapping_entries(*h)[i],
{
    h.iter().collect()
}

/// `LinkedHashMap::get`: the value of the entry whose key equals `key`, or
/// `None` where no entry has that key.
#[verifier::external_body]
pub(crate) fn mapping_get<'a>(h: &'a LinkedHashMap<Yaml, Yaml>, key: &Yaml) -> (r: Option<
    &'a Yaml,
>)
    ensures
        match r {
            Some(value) => Some(yaml_node(*value)) == lookup(mapping_entries(*h), yaml_node(*key)),
            None => lookup(mapping_entries(*h), yaml_node(*key)) is None,
        },
{
    h.get(key)
}

/// `LinkedHashMap::replace`: an entry whose key equals `key` keeps its place
/// and its key and takes the new value; without one, the pair becomes the
/// last entry.
#[verifier::external_body]
pub(crate) fn mapping_replace(h: &mut LinkedHashMap<Yaml, Yaml>, key: Yaml, value: Yaml)
    ensures
        mapping_entries(*final(h)) == upsert(
            mapping_entries(*old(h)),
            yaml_node(key),
            yaml_node(value),
        ),
{
    h.replace(key, value);
}

/// `Yaml::as_hash`: the map inside a node that is a mapping, `None` for any
/// other node.
#[verifier::external_body]
pub(crate) fn yaml_as_hash(y: &Yaml) -> (r: Option<&LinkedHashMap<Yaml, Yaml>>)
    ensures
        match r {
            Some(h) => yaml_node(*y) == Node::Mapping(mapping_entries(*h)),
            None => !(yaml_node(*y) is Mapping),
        },
{
    y.as_hash()
}

/// `Yaml::Hash`: the node that is the given mapping.
#[verifier::external_body]
pub(crate) fn yaml_from_hash(h: LinkedHashMap<Yaml, Yaml>) -> (r: Yaml)
    ensures
        yaml_node(r) == Node::Mapping(mapping_entries(h)),
{
    Yaml::Hash(h)
}

/// `Yaml::clone`: a node with the same value.
#[verifier::external_body]
pub(crate) fn yaml_clone(y: &Yaml) -> (r: Yaml)
    ensures
        yaml_node(r) == yaml_node(*y),
{
    y.clone()
}

/// `YamlLoader::load_from_str`: the documents of a text in the order in
/// which they stand in it, or the scanner's error. It reads all of the text
/// before it returns anything, and it rejects a mapping that names a key
/// twice, so every mapping that it returns has distinct keys.
#[verifier::external_body]
pub(crate) fn load_documents(source: &str) -> (r: Result<Vec<Yaml>, ScanError>)
    ensures
        match r {
            Ok(docs) => parsed_documents(source@) == Some(yaml_nodes(docs@)) && forall|i: int|
                0 <= i < docs@.len() ==> node_wf(yaml_node(#[trigger] docs@[i])),
            Err(_) => parsed_documents(source@) is None,
        },
{
    YamlLoader::load_from_str(source)
}

/// `YamlEmitter::new` and `YamlEmitter::dump`, into a new `String`: the line
/// that starts a document, then the text of the node. The emitter fails only
/// where its writer does, and a `String` takes every write. An empty mapping
/// is written as a pair of braces.
#[verifier::external_body]
pub(crate) fn dump_document(doc: &Yaml) -> (r: Result<String, EmitError>)
    ensures
        r is Ok,
        r.unwrap()@ == document_start() + yaml_text(yaml_node(*doc)),
        yaml_node(*doc) == Node::Mapping(Seq::empty()) ==> r.unwrap()@ == document_start() + seq![
            '{',
            '}',
        ],
{
    let mut out = String::new();
    let written = YamlEmitter::new(&mut out).dump(doc);
    match written {
        Ok(()) => Ok(out),
        Err(e) => Err(e),
    }
}

} // verus!
