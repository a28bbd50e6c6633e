//! The open documents of the server and their syntax trees.

use vstd::prelude::*;

use crate::documents::all_changed;
use crate::documents::all_fit;
use crate::documents::can_open;
use crate::documents::changes_view;
use crate::documents::document_of;
use crate::documents::documents_of;
use crate::documents::get_content;
use crate::documents::get_document;
use crate::documents::in_bounds;
use crate::documents::lemma_all_changed_in_bounds;
use crate::documents::lemma_opened_in_bounds;
use crate::documents::listen_change;
use crate::documents::listen_close;
use crate::documents::listen_open;
use crate::documents::new_documents;
use crate::documents::opened;
use crate::documents::opens_utf16;
use crate::documents::Document;
use crate::documents::TextDocumentContentChangeEvent;
use crate::syntax::AsmParser;
use crate::syntax::SyntaxTree;
use crate::text::same_text;
use crate::text::document_sized;
use crate::uri::Uri;

verus! {

/// What the server keeps of a document besides its text: the parser, and the syntax tree that it
/// last made, unless the text has changed since.
pub struct TreeEntry {
    pub tree: Option<SyntaxTree>,
    pub parser: AsmParser,
}

struct TreeSlot {
    uri: String,
    entry: TreeEntry,
}

/// A map from the URIs of documents to their tree entries.
pub struct TreeStore {
    slots: Vec<TreeSlot>,
}

impl TreeStore {
    /// No URI has two slots.
    pub closed spec fn wf(self) -> bool {
        forall|i: int, j: int|
            0 <= i < j < self.slots@.len() ==> #[trigger] self.slots@[i].uri@
                != #[trigger] self.slots@[j].uri@
    }

    spec fn has_slot(self, uri: Seq<char>, i: int) -> bool {
        0 <= i < self.slots@.len() && self.slots@[i].uri@ == uri
    }

    spec fn slot(self, uri: Seq<char>) -> int {
        choose|i: int| self.has_slot(uri, i)
    }

    /// The entries, by the text of each document's URI.
    pub closed spec fn entries(self) -> Map<Seq<char>, TreeEntry> {
        Map::new(
            |uri: Seq<char>| exists|i: int| self.has_slot(uri, i),
            |uri: Seq<char>| self.slots@[self.slot(uri)].entry,
        )
    }

    proof fn lemma_entry(self, i: int)
        requires
            self.wf(),
            0 <= i < self.slots@.len(),
        ensures
            self.entries().contains_key(self.slots@[i].uri@),
            self.entries()[self.slots@[i].uri@] == self.slots@[i].entry,
    {
        let uri = self.slots@[i].uri@;
        assert(self.has_slot(uri, i));
        assert(self.has_slot(uri, self.slot(uri)));
    }

    /// A store without entries.
    pub fn new() -> (r: Self)
        ensures
            r.wf(),
            r.entries() == Map::<Seq<char>, TreeEntry>::empty(),
    {
        TreeStore { slots: Vec::new() }
    }

    fn find(&self, uri: &str) -> (r: Option<usize>)
        requires
            self.wf(),
        ensures
            match r {
                Some(i) => i < self.slots@.len() && self.slots@[i as int].uri@ == uri@
                    && self.entries().contains_key(uri@) && self.entries()[uri@]
                    == self.slots@[i as int].entry,
                None => !self.entries().contains_key(uri@),
            },
    {
        let mut i: usize = 0;
        while i < self.slots.len()
            invariant
                self.wf(),
                i <= self.slots@.len(),
                forall|j: int| 0 <= j < i ==> self.slots@[j].uri@ != uri@,
            decreases self.slots@.len() - i,
        {
            if same_text(self.slots[i].uri.as_str(), uri) {
                proof {
                    self.lemma_entry(i as int);
                }
                return Some(i);
            }
            i += 1;
        }
        None
    }

    /// The entry of a document.
    pub fn get(&self, uri: &str) -> (r: Option<&TreeEntry>)
        requires
            self.wf(),
        ensures
            match r {
                Some(entry) => self.entries().contains_key(uri@) && *entry == self.entries()[uri@],
                None => !self.entries().contains_key(uri@),
            },
    {
        match self.find(uri) {
            Some(i) => Some(&self.slots[i].entry),
            None => None,
        }
    }

    /// Gives a document an entry, in the place of the one that it had.
    pub fn insert(&mut self, uri: &str, entry: TreeEntry)
        requires
            old(self).wf(),
        ensures
            final(self).wf(),
            final(self).entries() == old(self).entries().insert(uri@, entry),
    {
        self.remove(uri);
        let ghost before = *self;
        self.slots.push(TreeSlot { uri: uri.to_owned(), entry });
        proof {
            let n = before.slots@.len() as int;
            assert forall|i: int| 0 <= i < n implies self.slots@[i] == before.slots@[i]
                && before.slots@[i].uri@ != uri@ by {
                before.lemma_entry(i);
            }
            self.lemma_entry(n);
            self.lemma_kept(before, uri@);
            before.lemma_kept(*self, uri@);
            let expected = old(self).entries().insert(uri@, entry);
            assert forall|k: Seq<char>| #[trigger]
                expected.contains_key(k) implies self.entries().contains_key(k) by {
                assert(k == uri@ || before.entries().contains_key(k));
            }
            assert(self.entries() =~= expected);
        }
    }

    /// Where another store has the slots of this one, but for those of one URI, it has the entries
    /// of this one, but for that of the URI.
    proof fn lemma_kept(self, other: Self, uri: Seq<char>)
        requires
            self.wf(),
            other.wf(),
            forall|i: int|
                0 <= i < self.slots@.len() && (#[trigger] self.slots@[i]).uri@ != uri ==> exists|
                    j: int,
                |
                    0 <= j < other.slots@.len() && #[trigger] other.slots@[j] == self.slots@[i],
        ensures
            forall|k: Seq<char>|
                k != uri && #[trigger] self.entries().contains_key(k) ==> {
                    &&& other.entries().contains_key(k)
                    &&& other.entries()[k] == self.entries()[k]
                },
    {
        assert forall|k: Seq<char>| k != uri && #[trigger] self.entries().contains_key(k) implies {
            &&& other.entries().contains_key(k)
            &&& other.entries()[k] == self.entries()[k]
        } by {
            let i = self.slot(k);
            let j = choose|j: int|
                0 <= j < other.slots@.len() && #[trigger] other.slots@[j] == self.slots@[i];
            self.lemma_entry(i);
            other.lemma_entry(j);
        }
    }

    /// Taking the slot of a URI out takes its entry away and leaves the others.
    proof fn lemma_removed(self, before: Self, at: int)
        requires
            before.wf(),
            0 <= at < before.slots@.len(),
            self.slots@ == before.slots@.remove(at),
        ensures
            self.wf(),
            self.entries() == before.entries().remove(before.slots@[at].uri@),
    {
        let uri = before.slots@[at].uri@;
        assert(self.wf());
        self.lemma_kept(before, uri);
        assert forall|j: int| 0 <= j < before.slots@.len() && (#[trigger] before.slots@[j]).uri@
            != uri implies exists|i: int|
            0 <= i < self.slots@.len() && #[trigger] self.slots@[i] == before.slots@[j] by {
            let i = if j < at { j } else { j - 1 };
            assert(self.slots@[i] == before.slots@[j]);
        }
        before.lemma_kept(self, uri);
        if self.entries().contains_key(uri) {
            let i = self.slot(uri);
            let j = if i < at { i } else { i + 1 };
            assert(before.slots@[j] == self.slots@[i]);
        }
    }

    /// Takes a document's entry away, where it has one.
    pub fn remove(&mut self, uri: &str)
        requires
            old(self).wf(),
        ensures
            final(self).wf(),
            final(self).entries() == old(self).entries().remove(uri@),
    {
        if let Some(at) = self.find(uri) {
            self.slots.remove(at);
            proof {
                self.lemma_removed(*old(self), at as int);
            }
        }
        assert(self.entries() =~= old(self).entries().remove(uri@));
    }

    /// Putting another entry into the slot of a URI changes its entry and leaves the others.
    proof fn lemma_replaced(self, before: Self, at: int)
        requires
            before.wf(),
            0 <= at < before.slots@.len(),
            self.slots@ == before.slots@.update(at, self.slots@[at]),
            self.slots@[at].uri@ == before.slots@[at].uri@,
        ensures
            self.wf(),
            self.entries() == before.entries().insert(
                before.slots@[at].uri@,
                self.slots@[at].entry,
            ),
    {
        let uri = before.slots@[at].uri@;
        assert(self.wf());
        self.lemma_entry(at);
        self.lemma_kept(before, uri);
        assert forall|j: int| 0 <= j < before.slots@.len() && (#[trigger] before.slots@[j]).uri@
            != uri implies exists|i: int|
            0 <= i < self.slots@.len() && #[trigger] self.slots@[i] == before.slots@[j] by {
            assert(self.slots@[j] == before.slots@[j]);
        }
        before.lemma_kept(self, uri);
    }

    /// Drops the tree in a document's entry, where it has one, and leaves its parser.
    pub fn drop_tree(&mut self, uri: &str)
        requires
            old(self).wf(),
        ensures
            final(self).wf(),
            !old(self).entries().contains_key(uri@) ==> final(self).entries() == old(
                self,
            ).entries(),
            old(self).entries().contains_key(uri@) ==> final(self).entries() == old(
                self,
            ).entries().insert(uri@, TreeEntry { tree: None, ..old(self).entries()[uri@] }),
    {
        if let Some(at) = self.find(uri) {
            self.slots[at].entry.tree = None;
            proof {
                self.lemma_replaced(*old(self), at as int);
            }
        }
    }

    /// Parses the text of a document with the parser in its entry, where it has one, and keeps the
    /// tree.
    pub fn parse_tree(&mut self, uri: &str, text: &str)
        requires
            old(self).wf(),
            document_sized(text@),
        ensures
            final(self).wf(),
            !old(self).entries().contains_key(uri@) ==> final(self).entries() == old(
                self,
            ).entries(),
            old(self).entries().contains_key(uri@) ==> {
                &&& final(self).entries() == old(self).entries().insert(
                    uri@,
                    final(self).entries()[uri@],
                )
                &&& final(self).entries()[uri@].tree is Some
                &&& final(self).entries()[uri@].tree->0@ == text@
            },
    {
        if let Some(at) = self.find(uri) {
            let tree = self.slots[at].entry.parser.parse(text);
            self.slots[at].entry.tree = tree;
            proof {
                assert(self.slots@ =~= old(self).slots@.update(at as int, self.slots@[at as int]));
                self.lemma_replaced(*old(self), at as int);
            }
        }
    }
}

/// The text of every open document, and what is kept of its syntax.
pub struct DocumentStore {
    text_store: lsp_textdocument::TextDocuments,
    tree_store: TreeStore,
}

impl DocumentStore {
    /// The open documents, by the text of each one's URI.
    pub closed spec fn documents(self) -> Map<Seq<char>, Document> {
        documents_of(self.text_store)
    }

    /// The tree entries, by the text of each document's URI.
    pub closed spec fn entries(self) -> Map<Seq<char>, TreeEntry> {
        self.tree_store.entries()
    }

    /// The documents that have a tree entry are those that are open. A tree that is kept is the
    /// tree of the text that its document has now.
    pub open spec fn is_consistent(self) -> bool {
        &&& self.entries().dom() == self.documents().dom()
        &&& forall|uri: Seq<char>| #[trigger]
            self.entries().contains_key(uri) ==> match self.entries()[uri].tree {
                Some(tree) => tree@ == self.documents()[uri].text,
                None => true,
            }
    }

    /// The store is consistent, and every document in it is in bounds.
    pub closed spec fn wf(self) -> bool {
        &&& self.tree_store.wf()
        &&& opens_utf16(self.text_store)
        &&& self.is_consistent()
        &&& forall|uri: Seq<char>| #[trigger]
            self.documents().contains_key(uri) ==> in_bounds(self.documents()[uri])
    }

    /// What `wf` says of the documents and their trees.
    pub proof fn lemma_wf(self)
        requires
            self.wf(),
        ensures
            self.is_consistent(),
            forall|uri: Seq<char>| #[trigger]
                self.documents().contains_key(uri) ==> in_bounds(self.documents()[uri]),
    {
    }

    /// A store in which no document is open.
    pub fn new() -> (r: Self)
        ensures
            r.wf(),
            r.documents() == Map::<Seq<char>, Document>::empty(),
            r.entries() == Map::<Seq<char>, TreeEntry>::empty(),
    {
        DocumentStore { text_store: new_documents(), tree_store: TreeStore::new() }
    }

    /// The document of that URI, where it is open.
    pub fn document(&self, uri: &Uri) -> (r: Option<&lsp_textdocument::FullTextDocument>)
        requires
            self.wf(),
        ensures
            match r {
                Some(document) => self.documents().contains_key(uri@) && document_of(*document)
                    == self.documents()[uri@],
                None => !self.documents().contains_key(uri@),
            },
    {
        get_document(&self.text_store, uri.as_str())
    }

    /// What is kept of the syntax of the document of that URI.
    pub fn tree_entry(&self, uri: &Uri) -> (r: Option<&TreeEntry>)
        requires
            self.wf(),
        ensures
            match r {
                Some(entry) => self.entries().contains_key(uri@) && *entry == self.entries()[uri@],
                None => !self.entries().contains_key(uri@),
            },
    {
        self.tree_store.get(uri.as_str())
    }

    /// Opens a document and parses it, in the place of any that had its URI.
    pub fn open(&mut self, uri: &Uri, language_id: &str, version: i32, text: &str)
        requires
            old(self).wf(),
            can_open(text@),
        ensures
            final(self).wf(),
            final(self).documents() == old(self).documents().insert(
                uri@,
                opened(language_id@, version, text@, true),
            ),
            final(self).entries() == old(self).entries().insert(
                uri@,
                final(self).entries()[uri@],
            ),
            final(self).entries()[uri@].tree is Some,
            final(self).entries()[uri@].tree->0@ == text@,
    {
        let key = uri.as_str();
        listen_open(&mut self.text_store, key, language_id, version, text);
        let mut parser = AsmParser::new();
        let tree = parser.parse(text);
        self.tree_store.insert(key, TreeEntry { tree, parser });
        proof {
            lemma_opened_in_bounds(language_id@, version, text@);
        }
        assert(self.is_consistent());
    }

    /// Changes the text of an open document, and drops the tree of its old text.
    pub fn change(
        &mut self,
        uri: &Uri,
        version: i32,
        changes: &Vec<TextDocumentContentChangeEvent>,
    )
        requires
            old(self).wf(),
            old(self).documents().contains_key(uri@),
            all_fit(old(self).documents()[uri@], changes_view(changes@)),
        ensures
            final(self).wf(),
            final(self).documents() == old(self).documents().insert(
                uri@,
                Document {
                    version,
                    ..all_changed(old(self).documents()[uri@], changes_view(changes@))
                },
            ),
            final(self).entries() == old(self).entries().insert(
                uri@,
                TreeEntry { tree: None, ..old(self).entries()[uri@] },
            ),
    {
        let key = uri.as_str();
        listen_change(&mut self.text_store, key, version, changes);
        self.tree_store.drop_tree(key);
        proof {
            lemma_all_changed_in_bounds(old(self).documents()[uri@], changes_view(changes@));
        }
        assert(self.is_consistent());
    }

    /// Closes a document and forgets its syntax, where it is open.
    pub fn close(&mut self, uri: &Uri)
        requires
            old(self).wf(),
        ensures
            final(self).wf(),
            final(self).documents() == old(self).documents().remove(uri@),
            final(self).entries() == old(self).entries().remove(uri@),
    {
        let key = uri.as_str();
        listen_close(&mut self.text_store, key);
        self.tree_store.remove(key);
        assert(self.is_consistent());
    }

    /// `after` is this store with the tree of a document made anew, where it is open and its tree
    /// is not kept.
    pub open spec fn is_refreshed_to(self, after: Self, uri: Seq<char>) -> bool {
        &&& after.documents() == self.documents()
        &&& if self.documents().contains_key(uri) {
            &&& after.entries() == self.entries().insert(uri, after.entries()[uri])
            &&& self.entries()[uri].tree is Some ==> after.entries()[uri] == self.entries()[uri]
            &&& after.entries()[uri].tree matches Some(tree) && tree@ == self.documents()[uri].text
        } else {
            after.entries() == self.entries()
        }
    }

    /// Parses the text that an open document has now, unless its tree is kept.
    pub fn refresh_tree(&mut self, uri: &Uri)
        requires
            old(self).wf(),
        ensures
            final(self).wf(),
            old(self).is_refreshed_to(*final(self), uri@),
    {
        let key = uri.as_str();
        if let Some(document) = get_document(&self.text_store, key) {
            let stale = match self.tree_store.get(key) {
                Some(entry) => entry.tree.is_none(),
                None => false,
            };
            if stale {
                self.tree_store.parse_tree(key, get_content(document));
            }
            assert(self.entries() =~= old(self).entries().insert(uri@, self.entries()[uri@]));
            assert(self.entries().dom() =~= self.documents().dom());
            assert(self.is_consistent());
        }
    }
}

} // verus!
