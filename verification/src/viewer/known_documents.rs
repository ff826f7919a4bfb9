use vstd::prelude::*;

use crate::identifiers::{last_index_for, pair_views, recorded_index, IdentifierMap};

verus! {

/// The identifiers of the documents of a viewing session, each with its document index.
pub struct KnownDocuments {
    document_indices: IdentifierMap,
}

impl KnownDocuments {
    /// The document index of an identifier, if it is known.
    pub closed spec fn index_of(&self, identifier: Seq<char>) -> Option<usize> {
        recorded_index(self.document_indices.entries_view(), identifier)
    }

    /// Known documents from identifier and index pairs; a repeated identifier keeps the index of
    /// its last pair.
    pub fn new(document_ids: Vec<(String, usize)>) -> (known: Self)
        ensures
            forall|identifier: Seq<char>|
                #[trigger] known.index_of(identifier) == last_index_for(
                    pair_views(document_ids@),
                    identifier,
                ),
    {
        KnownDocuments { document_indices: IdentifierMap::from_pairs(document_ids) }
    }

    /// The document index of an identifier, if it is known.
    pub fn index(&self, identifier: &str) -> (index: Option<usize>)
        ensures
            index == self.index_of(identifier@),
    {
        self.document_indices.get(identifier)
    }
}

} // verus!
