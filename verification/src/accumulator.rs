//! The accumulator: one mapping into which documents are merged in turn.

use crate::merge::merge_hashes;
use crate::node::{entries_wf, merge_documents, node_wf, Node};
use crate::text::{document_start, strip_document_start};
use crate::yaml::{
    dump_document, load_documents, mapping_clone, mapping_entries, mapping_new, parsed_documents,
    yaml_as_hash, yaml_from_hash, yaml_node, yaml_nodes, yaml_text,
};
use hashlink::LinkedHashMap;
use vstd::prelude::*;
use yaml_rust2::{ScanError, Yaml};

verus! {

/// A text that is not valid YAML.
#[derive(Debug)]
pub struct ParseError {
    /// What the scanner found, and where.
    pub cause: ScanError,
}

/// YAML hash with merge/update capabilities.
#[derive(Debug)]
pub struct MergeYamlHash {
    /// The merged mapping. It can be read at any time: index it by a key,
    /// and take a value through the accessors of `Yaml`.
    pub data: LinkedHashMap<Yaml, Yaml>,
}

/// `acc` after the sources were merged into it in order, up to the first
/// one that is not valid YAML: that one and those behind it change nothing.
pub open spec fn merge_sources(acc: Seq<(Node, Node)>, sources: Seq<Seq<char>>) -> Seq<
    (Node, Node),
>
    decreases sources.len(),
{
    if sources.len() == 0 {
        acc
    } else {
        match parsed_documents(sources[0]) {
            Some(docs) => merge_sources(merge_documents(acc, docs), sources.skip(1)),
            None => acc,
        }
    }
}

/// Every source is valid YAML.
pub open spec fn all_parse(sources: Seq<Seq<char>>) -> bool {
    forall|i: int| 0 <= i < sources.len() ==> parsed_documents(#[trigger] sources[i]) is Some
}

impl View for MergeYamlHash {
    type V = Seq<(Node, Node)>;

    /// The entries of the accumulated mapping, in order.
    open spec fn view(&self) -> Seq<(Node, Node)> {
        mapping_entries(self.data)
    }
}

impl MergeYamlHash {
    /// No mapping in the hash, at any depth, names a key twice.
    pub open spec fn wf(&self) -> bool {
        entries_wf(self@)
    }

    /// Creates an empty hash.
    pub fn new() -> (r: MergeYamlHash)
        ensures
            r@ == Seq::<(Node, Node)>::empty(),
            r.wf(),
    {
        MergeYamlHash { data: mapping_new() }
    }

    /// Merges parsed documents in order. A document that is a mapping is
    /// merged into the hash; any other document is passed over.
    pub fn merge_documents(&mut self, docs: &Vec<Yaml>)
        ensures
            final(self)@ == merge_documents(old(self)@, yaml_nodes(docs@)),
            old(self).wf() && (forall|i: int|
                0 <= i < docs@.len() ==> node_wf(yaml_node(#[trigger] docs@[i])))
                ==> final(self).wf(),
    {
        let ghost nodes = yaml_nodes(docs@);
        let mut i: usize = 0;
        assert(nodes.skip(0) == nodes);
        while i < docs.len()
            invariant
                i <= docs@.len(),
                nodes == yaml_nodes(docs@),
                merge_documents(old(self)@, nodes) == merge_documents(self@, nodes.skip(i as int)),
                old(self).wf() && (forall|i: int|
                    0 <= i < docs@.len() ==> node_wf(yaml_node(#[trigger] docs@[i])))
                    ==> self.wf(),
            decreases docs@.len() - i,
        {
            assert(nodes.skip(i as int).skip(1) == nodes.skip(i + 1));
            if let Some(h) = yaml_as_hash(&docs[i]) {
                self.data = merge_hashes(&self.data, h);
            }
            i += 1;
        }
    }

    /// Merges the documents of a YAML text, in the order in which they stand
    /// in it. A text that is not valid YAML is refused as a whole, with the
    /// scanner's error, and leaves the hash as it was.
    pub fn merge(&mut self, text: &str) -> (r: Result<(), ParseError>)
        ensures
            match parsed_documents(text@) {
                Some(docs) => r is Ok && final(self)@ == merge_documents(old(self)@, docs),
                None => r is Err && final(self)@ == old(self)@,
            },
            old(self).wf() ==> final(self).wf(),
    {
        match load_documents(text) {
            Ok(docs) => {
                self.merge_documents(&docs);
                Ok(())
            },
            Err(cause) => Err(ParseError { cause }),
        }
    }

    /// Merges several YAML texts in order. It stops at the first text that
    /// is not valid YAML and returns its error: the texts before it stay
    /// merged, the others are not looked at.
    pub fn merge_vec(&mut self, texts: Vec<String>) -> (r: Result<(), ParseError>)
        ensures
            final(self)@ == merge_sources(old(self)@, texts.deep_view()),
            r is Ok <==> all_parse(texts.deep_view()),
            old(self).wf() ==> final(self).wf(),
    {
        let ghost sources = texts.deep_view();
        let mut i: usize = 0;
        assert(sources.skip(0) == sources);
        while i < texts.len()
            invariant
                i <= texts@.len(),
                sources == texts.deep_view(),
                merge_sources(old(self)@, sources) == merge_sources(self@, sources.skip(i as int)),
                forall|j: int| 0 <= j < i ==> parsed_documents(#[trigger] sources[j]) is Some,
                old(self).wf() ==> self.wf(),
            decreases texts@.len() - i,
        {
            assert(sources.skip(i as int).skip(1) == sources.skip(i + 1));
            match self.merge(texts[i].as_str()) {
                Ok(()) => {},
                Err(e) => {
                    return Err(e);
                },
            }
            i += 1;
        }
        Ok(())
    }

    /// Serializes the hash to YAML, without the line that starts a document.
    /// An empty hash is written as `{}`.
    pub fn to_string(&self) -> (r: String)
        ensures
            r@ == yaml_text(Node::Mapping(self@)),
            self@.len() == 0 ==> r@ == seq!['{', '}'],
    {
        let doc = yaml_from_hash(mapping_clone(&self.data));
        match dump_document(&doc) {
            Ok(text) => {
                proof {
                    assert(text@.subrange(0, 4) =~= document_start());
                    if self@.len() == 0 {
                        assert(self@ =~= Seq::empty());
                    }
                }
                strip_document_start(text.as_str())
            },
            // The emitter fails only where its writer does, and a `String` never does.
            Err(_) => String::new(),
        }
    }
}

impl Default for MergeYamlHash {
    fn default() -> (r: MergeYamlHash)
        ensures
            r@ == Seq::<(Node, Node)>::empty(),
    {
        MergeYamlHash::new()
    }
}

} // verus!
