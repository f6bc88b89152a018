//! What holds of the store and the queries on every input.

use vstd::prelude::*;
use crate::assoc::{lemma_assoc_lookup, lemma_assoc_present};
use crate::extract::{argument_text, extraction, keyword_pairs, node_of, tree_ok};
use crate::model::{name_length, ParseResultView, SubstitutionView};
use crate::position::Position;
use crate::query::{completion_of, definition_in, fixed_items};
use crate::store::{completion_at, definition_at, store_after_update, EntryView};
use crate::syntax::{CallExpr, ParseError, SyntaxTree};
use crate::vocabulary::VocabularyView;

verus! {

/// The editor position at which a substitution's name token starts.
pub open spec fn start_of(sub: SubstitutionView) -> Position {
    sub.span().start
}

/// After an update with a tree that extracts, the document holds exactly
/// the new text and the extraction of the new tree: nothing of an earlier
/// version is left. Other documents are as they were.
pub proof fn law_update_installs(
    docs: Map<Seq<char>, EntryView>,
    id: Seq<char>,
    text: Seq<char>,
    tree: SyntaxTree,
    vocabulary: VocabularyView,
)
    requires
        tree_ok(tree, vocabulary),
    ensures
        ({
            let after = store_after_update(docs, id, text, Ok(tree), vocabulary);
            &&& after.contains_key(id)
            &&& after[id].text == text
            &&& after[id].result == extraction(tree, vocabulary)
            &&& forall|other: Seq<char>|
                other != id ==> (after.contains_key(other) <==> docs.contains_key(other))
            &&& forall|other: Seq<char>|
                other != id && docs.contains_key(other) ==> after[other] == docs[other]
        }),
{
}

/// An update that fails, for want of a tree or on a tree that cannot be
/// extracted, leaves every document as it was.
pub proof fn law_failed_update_keeps(
    docs: Map<Seq<char>, EntryView>,
    id: Seq<char>,
    text: Seq<char>,
    parsed: Result<SyntaxTree, ParseError>,
    vocabulary: VocabularyView,
)
    requires
        parsed is Err || !tree_ok(parsed->Ok_0, vocabulary),
    ensures
        store_after_update(docs, id, text, parsed, vocabulary) == docs,
{
}

/// The same update made twice leaves the store as the first one left it,
/// with the same extracted result under the document.
pub proof fn law_update_idempotent(
    docs: Map<Seq<char>, EntryView>,
    id: Seq<char>,
    text: Seq<char>,
    parsed: Result<SyntaxTree, ParseError>,
    vocabulary: VocabularyView,
)
    ensures
        store_after_update(
            store_after_update(docs, id, text, parsed, vocabulary),
            id,
            text,
            parsed,
            vocabulary,
        ) == store_after_update(docs, id, text, parsed, vocabulary),
{
    let once = store_after_update(docs, id, text, parsed, vocabulary);
    let twice = store_after_update(once, id, text, parsed, vocabulary);
    assert(twice =~= once);
}

/// The lookup gives the span of the first substitution that covers the
/// position.
pub proof fn law_definition_first_match(subs: Seq<SubstitutionView>, pos: Position, at: int)
    requires
        0 <= at < subs.len(),
        subs[at].covers(pos),
        forall|j: int| 0 <= j < at ==> !(#[trigger] subs[j]).covers(pos),
    ensures
        definition_in(subs, pos) == Some(subs[at].span()),
    decreases subs.len(),
{
    if at > 0 {
        let rest = subs.drop_first();
        assert(!subs[0].covers(pos));
        assert(rest[at - 1] == subs[at]);
        assert forall|j: int| 0 <= j < at - 1 implies !(#[trigger] rest[j]).covers(pos) by {
            assert(rest[j] == subs[j + 1]);
        }
        law_definition_first_match(rest, pos, at - 1);
    }
}

/// The lookup gives nothing exactly where no substitution covers the
/// position.
pub proof fn law_definition_none(subs: Seq<SubstitutionView>, pos: Position)
    ensures
        definition_in(subs, pos).is_none() <==> forall|j: int|
            0 <= j < subs.len() ==> !(#[trigger] subs[j]).covers(pos),
    decreases subs.len(),
{
    if subs.len() > 0 {
        let rest = subs.drop_first();
        law_definition_none(rest, pos);
        if !subs[0].covers(pos) {
            if definition_in(rest, pos).is_none() {
                assert forall|j: int| 0 <= j < subs.len() implies !(#[trigger] subs[j]).covers(
                    pos,
                ) by {
                    if j > 0 {
                        assert(rest[j - 1] == subs[j]);
                    }
                }
            } else {
                let j = choose|j: int| 0 <= j < rest.len() && (#[trigger] rest[j]).covers(pos);
                assert(rest[j] == subs[j + 1]);
            }
        }
    }
}

/// Round trip: a lookup at the start of an addressable substitution gives
/// that substitution's range, from its column up to its column plus the
/// length of its name, on the editor's line. It is stated for a start that
/// no earlier substitution covers, since the first match wins.
pub proof fn law_definition_round_trip(subs: Seq<SubstitutionView>, at: int)
    requires
        0 <= at < subs.len(),
        subs[at].addressable(),
        forall|j: int| 0 <= j < at ==> !(#[trigger] subs[j]).covers(start_of(subs[at])),
    ensures
        definition_in(subs, start_of(subs[at])) == Some(subs[at].span()),
        subs[at].span().start.line == subs[at].line - 1,
        subs[at].span().end.line == subs[at].line - 1,
        subs[at].span().start.character == subs[at].column,
        subs[at].span().end.character == subs[at].column + name_length(subs[at].name),
{
    law_definition_first_match(subs, start_of(subs[at]), at);
}

/// A position behind a substitution's end column, on any line, is not on
/// it; nor is one before its first column. Where the document holds no
/// other substitution, the lookup there gives nothing.
pub proof fn law_definition_outside_span(sub: SubstitutionView, pos: Position)
    requires
        pos.character > sub.end_column() || pos.character < sub.column,
    ensures
        !sub.covers(pos),
        definition_in(seq![sub], pos).is_none(),
{
    law_definition_none(seq![sub], pos);
}

/// No keyword argument of an action call is dropped: each one's name is an
/// argument of the node, also where its value is no literal. Where the name
/// is not repeated behind it, the argument holds that keyword's text.
pub proof fn law_keywords_all_kept(call: CallExpr, at: int)
    requires
        0 <= at < call.keywords@.len(),
    ensures
        node_of(call).arguments.contains_key(call.keywords@[at].name@),
        (forall|j: int|
            at < j < call.keywords@.len() ==> (#[trigger] call.keywords@[j]).name@
                != call.keywords@[at].name@) ==> node_of(call).arguments[call.keywords@[at].name@]
            == argument_text(call.keywords@[at].value),
{
    let pairs = keyword_pairs(call.keywords@);
    lemma_assoc_present(pairs, at);
    if forall|j: int|
        at < j < call.keywords@.len() ==> (#[trigger] call.keywords@[j]).name@
            != call.keywords@[at].name@ {
        assert forall|j: int| at < j < pairs.len() implies (#[trigger] pairs[j]).0 != pairs[at].0 by {
            assert(call.keywords@[j].name@ != call.keywords@[at].name@);
        }
        lemma_assoc_lookup(pairs, pairs[at].0, at);
    }
}

/// Completion starts with the fixed vocabulary whatever the document
/// holds, and goes on with one candidate for each substitution, in order
/// and by name.
pub proof fn law_completion_shape(result: ParseResultView)
    ensures
        completion_of(result).len() == 3 + result.substitutions.len(),
        completion_of(result).take(3) == fixed_items(),
        forall|i: int|
            0 <= i < result.substitutions.len() ==> (#[trigger] completion_of(result)[3 + i]).label
                == result.substitutions[i].name,
{
    assert(completion_of(result).take(3) =~= fixed_items());
}

/// A document that is not open has no completion candidates and no
/// definition target.
pub proof fn law_unknown_document(docs: Map<Seq<char>, EntryView>, id: Seq<char>, pos: Position)
    requires
        !docs.contains_key(id),
    ensures
        completion_at(docs, id) == Seq::<crate::query::CompletionItemView>::empty(),
        definition_at(docs, id, pos).is_none(),
{
}

} // verus!
