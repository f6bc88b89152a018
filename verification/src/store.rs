//! The document store: the latest text and extracted result of every open
//! document, and the queries that read them.

use vstd::prelude::*;
use crate::assoc::{assoc_map, key_absent, keys_distinct, last_with_key, lemma_assoc_absent,
    lemma_assoc_lookup, lemma_assoc_push, lemma_assoc_remove, lemma_assoc_replace};
use crate::extract::{call_ok, extract, extraction, tree_ok, ExtractionError};
use crate::model::{ParseResult, ParseResultView};
use crate::position::{Location, Position};
use crate::query::{completion_items, completion_of, definition_in, find_definition, item_views,
    CompletionItem, CompletionItemView};
use crate::syntax::{ParseError, SyntaxTree};
use crate::vocabulary::{Vocabulary, VocabularyView};

verus! {

/// One document as the store holds it: its text and what was extracted
/// from that text.
#[derive(Clone, Debug)]
pub struct DocumentEntry {
    pub text: String,
    pub parse_result: ParseResult,
}

/// The model of a [`DocumentEntry`].
pub struct EntryView {
    pub text: Seq<char>,
    pub result: ParseResultView,
}

impl View for DocumentEntry {
    type V = EntryView;

    open spec fn view(&self) -> EntryView {
        EntryView { text: self.text@, result: self.parse_result@ }
    }
}

/// Why an update was turned down.
#[derive(Clone, Debug, PartialEq, Eq)]
pub enum UpdateError {
    /// The parser gave no tree.
    ParseFailure(ParseError),
    /// The tree could not be extracted.
    ExtractionFailure(ExtractionError),
}

#[derive(Clone, Debug)]
struct Slot {
    id: String,
    entry: DocumentEntry,
}

/// The open documents, each under its identity. Its view maps an identity
/// to the document's latest entry.
#[derive(Clone, Debug)]
pub struct DocumentStore {
    vocabulary: Vocabulary,
    slots: Vec<Slot>,
}

/// The documents after an update of `id`: with a tree that extracts, `id`
/// holds the new text and the tree's extraction, whatever it held before;
/// otherwise nothing changes.
pub open spec fn store_after_update(
    docs: Map<Seq<char>, EntryView>,
    id: Seq<char>,
    text: Seq<char>,
    parsed: Result<SyntaxTree, ParseError>,
    vocabulary: VocabularyView,
) -> Map<Seq<char>, EntryView> {
    match parsed {
        Ok(tree) if tree_ok(tree, vocabulary) => docs.insert(
            id,
            EntryView { text, result: extraction(tree, vocabulary) },
        ),
        _ => docs,
    }
}

/// The answer that an update gives: `Ok` for a tree that extracts, the
/// parser's own error where there is no tree, and otherwise the first call
/// of the tree that is not well placed.
pub open spec fn update_answer(
    parsed: Result<SyntaxTree, ParseError>,
    vocabulary: VocabularyView,
    answer: Result<(), UpdateError>,
) -> bool {
    match answer {
        Ok(_) => parsed is Ok && tree_ok(parsed->Ok_0, vocabulary),
        Err(UpdateError::ParseFailure(e)) => parsed == Err::<SyntaxTree, ParseError>(e),
        Err(UpdateError::ExtractionFailure(e)) => {
            &&& parsed is Ok
            &&& e.call < parsed->Ok_0.calls@.len()
            &&& !call_ok(parsed->Ok_0.calls@[e.call as int], vocabulary)
            &&& forall|j: int|
                0 <= j < e.call ==> call_ok(#[trigger] parsed->Ok_0.calls@[j], vocabulary)
        },
    }
}

/// The completion candidates of the document `id`: none where it is not
/// open.
pub open spec fn completion_at(docs: Map<Seq<char>, EntryView>, id: Seq<char>) -> Seq<
    CompletionItemView,
> {
    if docs.contains_key(id) {
        completion_of(docs[id].result)
    } else {
        Seq::empty()
    }
}

/// The definition target at `pos` in the document `id`: none where it is
/// not open.
pub open spec fn definition_at(docs: Map<Seq<char>, EntryView>, id: Seq<char>, pos: Position)
    -> Option<(Seq<char>, crate::position::Range)> {
    if docs.contains_key(id) {
        match definition_in(docs[id].result.substitutions, pos) {
            Some(range) => Some((id, range)),
            None => None,
        }
    } else {
        None
    }
}

impl View for DocumentStore {
    type V = Map<Seq<char>, EntryView>;

    closed spec fn view(&self) -> Map<Seq<char>, EntryView> {
        assoc_map(self.pairs())
    }
}

impl DocumentStore {
    /// The stored documents as pairs of identity and entry.
    pub closed spec fn pairs(&self) -> Seq<(Seq<char>, EntryView)> {
        Seq::new(self.slots@.len(), |i: int| (self.slots@[i].id@, self.slots@[i].entry@))
    }

    /// The store's invariant: no identity is held twice, and every stored
    /// substitution is addressable.
    pub closed spec fn wf(&self) -> bool {
        &&& keys_distinct(self.pairs())
        &&& forall|i: int|
            0 <= i < self.pairs().len() ==> (#[trigger] self.pairs()[i]).1.result.addressable()
    }

    /// The names that this store's extractor recognises.
    pub closed spec fn vocabulary(&self) -> VocabularyView {
        self.vocabulary@
    }

    /// An empty store that recognises the usual launch vocabulary.
    pub fn new() -> (store: DocumentStore)
        ensures
            store.wf(),
            store@ == Map::<Seq<char>, EntryView>::empty(),
            store.vocabulary().actions == seq!["Node"@, "IncludeLaunchDescription"@],
            store.vocabulary().substitutions == seq!["LaunchConfiguration"@],
    {
        DocumentStore::with_vocabulary(Vocabulary::standard())
    }

    /// An empty store that recognises the names of `vocabulary`.
    pub fn with_vocabulary(vocabulary: Vocabulary) -> (store: DocumentStore)
        ensures
            store.wf(),
            store@ == Map::<Seq<char>, EntryView>::empty(),
            store.vocabulary() == vocabulary@,
    {
        let store = DocumentStore { vocabulary, slots: Vec::new() };
        assert(store.pairs() =~= Seq::empty());
        store
    }

    /// The position that holds `id`, if one does.
    fn position(&self, id: &String) -> (r: Option<usize>)
        ensures
            match r {
                Some(p) => last_with_key(self.pairs(), id@, p as int),
                None => key_absent(self.pairs(), id@),
            },
    {
        let mut found: Option<usize> = None;
        let mut i: usize = 0;
        while i < self.slots.len()
            invariant
                i <= self.slots@.len(),
                self.pairs().len() == self.slots@.len(),
                match found {
                    Some(p) => p < i && self.pairs()[p as int].0 == id@ && forall|j: int|
                        p < j < i ==> (#[trigger] self.pairs()[j]).0 != id@,
                    None => forall|j: int| 0 <= j < i ==> (#[trigger] self.pairs()[j]).0 != id@,
                },
            decreases self.slots@.len() - i,
        {
            if self.slots[i].id == *id {
                found = Some(i);
            }
            i += 1;
        }
        found
    }

    /// Puts `entry` under `id`, in place of what `id` held.
    fn install(&mut self, id: String, entry: DocumentEntry)
        requires
            old(self).wf(),
            entry@.result.addressable(),
        ensures
            final(self).wf(),
            final(self).vocabulary() == old(self).vocabulary(),
            final(self)@ == old(self)@.insert(id@, entry@),
    {
        let ghost before = self.pairs();
        let ghost pair = (id@, entry@);
        match self.position(&id) {
            Some(p) => {
                proof {
                    lemma_assoc_replace(before, pair.0, p as int, pair.1);
                }
                self.slots.set(p, Slot { id, entry });
                assert(self.pairs() =~= before.update(p as int, pair));
                assert forall|i: int, j: int| 0 <= i < j < self.pairs().len() implies (
                #[trigger] self.pairs()[i]).0 != (#[trigger] self.pairs()[j]).0 by {
                    assert(self.pairs()[i].0 == before[i].0);
                    assert(self.pairs()[j].0 == before[j].0);
                }
                assert forall|i: int| 0 <= i < self.pairs().len() implies (
                #[trigger] self.pairs()[i]).1.result.addressable() by {
                    if i != p {
                        assert(self.pairs()[i] == before[i]);
                    }
                }
            },
            None => {
                proof {
                    lemma_assoc_push(before, pair.0, pair.1);
                }
                self.slots.push(Slot { id, entry });
                assert(self.pairs() =~= before.push(pair));
                assert forall|i: int, j: int| 0 <= i < j < self.pairs().len() implies (
                #[trigger] self.pairs()[i]).0 != (#[trigger] self.pairs()[j]).0 by {
                    assert(self.pairs()[i] == before[i]);
                    if j < before.len() {
                        assert(self.pairs()[j] == before[j]);
                    }
                }
                assert forall|i: int| 0 <= i < self.pairs().len() implies (
                #[trigger] self.pairs()[i]).1.result.addressable() by {
                    if i < before.len() {
                        assert(self.pairs()[i] == before[i]);
                    }
                }
            },
        }
    }

    /// Takes in a new version of the document `id`: its text and what the
    /// parser made of it.
    ///
    /// With a tree that extracts, the entry of `id` is replaced as a whole
    /// by the new text and the tree's extraction. With a parser error, or a
    /// tree that cannot be extracted, the store stays as it was and the
    /// error is handed back.
    pub fn update(&mut self, id: &str, text: &str, parsed: Result<SyntaxTree, ParseError>) -> (r:
        Result<(), UpdateError>)
        requires
            old(self).wf(),
        ensures
            final(self).wf(),
            final(self).vocabulary() == old(self).vocabulary(),
            final(self)@ == store_after_update(
                old(self)@,
                id@,
                text@,
                parsed,
                old(self).vocabulary(),
            ),
            update_answer(parsed, old(self).vocabulary(), r),
    {
        match parsed {
            Err(e) => Err(UpdateError::ParseFailure(e)),
            Ok(tree) => match extract(&tree, &self.vocabulary) {
                Err(e) => Err(UpdateError::ExtractionFailure(e)),
                Ok(parse_result) => {
                    self.install(id.to_owned(), DocumentEntry { text: text.to_owned(), parse_result });
                    Ok(())
                },
            },
        }
    }

    /// The latest entry of the document `id`, or `None` where it is not
    /// open.
    pub fn get(&self, id: &str) -> (r: Option<&DocumentEntry>)
        requires
            self.wf(),
        ensures
            match r {
                Some(entry) => self@.contains_key(id@) && entry@ == self@[id@]
                    && entry@.result.addressable(),
                None => !self@.contains_key(id@),
            },
    {
        let owned = id.to_owned();
        match self.position(&owned) {
            Some(p) => {
                proof {
                    lemma_assoc_lookup(self.pairs(), id@, p as int);
                    assert(self.pairs()[p as int].1.result.addressable());
                }
                Some(&self.slots[p].entry)
            },
            None => {
                proof {
                    lemma_assoc_absent(self.pairs(), id@);
                }
                None
            },
        }
    }

    /// Discards the entry of the document `id`, if it has one.
    pub fn remove(&mut self, id: &str)
        requires
            old(self).wf(),
        ensures
            final(self).wf(),
            final(self).vocabulary() == old(self).vocabulary(),
            final(self)@ == old(self)@.remove(id@),
    {
        let owned = id.to_owned();
        let ghost before = self.pairs();
        match self.position(&owned) {
            Some(p) => {
                proof {
                    lemma_assoc_remove(before, p as int);
                }
                self.slots.remove(p);
                assert(self.pairs() =~= before.remove(p as int));
                assert forall|i: int| 0 <= i < self.pairs().len() implies (
                #[trigger] self.pairs()[i]).1.result.addressable() by {
                    if i < p {
                        assert(self.pairs()[i] == before[i]);
                    } else {
                        assert(self.pairs()[i] == before[i + 1]);
                    }
                }
            },
            None => {
                proof {
                    lemma_assoc_absent(before, id@);
                }
                assert(self@.remove(id@) =~= self@);
            },
        }
    }

    /// The completion candidates for the document `id`: the fixed
    /// vocabulary, then its substitutions; nothing where it is not open.
    /// The cursor position makes no difference.
    pub fn completion(&self, id: &str, pos: Position) -> (items: Vec<CompletionItem>)
        requires
            self.wf(),
        ensures
            item_views(items@) == completion_at(self@, id@),
    {
        match self.get(id) {
            Some(entry) => completion_items(&entry.parse_result),
            None => {
                let items: Vec<CompletionItem> = Vec::new();
                assert(item_views(items@) =~= Seq::empty());
                items
            },
        }
    }

    /// The definition target at `pos` in the document `id`: the span of the
    /// first substitution that covers `pos`, in that document; `None` where
    /// none covers it or the document is not open.
    pub fn definition(&self, id: &str, pos: Position) -> (r: Option<Location>)
        requires
            self.wf(),
        ensures
            match r {
                Some(location) => definition_at(self@, id@, pos) == Some(
                    (location.uri@, location.range),
                ),
                None => definition_at(self@, id@, pos).is_none(),
            },
    {
        match self.get(id) {
            Some(entry) => match find_definition(&entry.parse_result, pos) {
                Some(range) => Some(Location { uri: id.to_owned(), range }),
                None => None,
            },
            None => None,
        }
    }
}

} // verus!
