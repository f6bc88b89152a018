//! Queries on one extracted result: completion candidates and the target of
//! a definition lookup.

use vstd::prelude::*;
use crate::model::{ParseResult, ParseResultView, SubstitutionView, substitution_views};
use crate::position::{Position, Range};

verus! {

/// A completion candidate: what is inserted, and a short description.
#[derive(Clone, Debug, PartialEq, Eq)]
pub struct CompletionItem {
    pub label: String,
    pub detail: String,
}

/// The model of a [`CompletionItem`].
pub struct CompletionItemView {
    pub label: Seq<char>,
    pub detail: Seq<char>,
}

impl View for CompletionItem {
    type V = CompletionItemView;

    open spec fn view(&self) -> CompletionItemView {
        CompletionItemView { label: self.label@, detail: self.detail@ }
    }
}

/// The models of a list of items, in order.
pub open spec fn item_views(items: Seq<CompletionItem>) -> Seq<CompletionItemView> {
    Seq::new(items.len(), |i: int| items[i]@)
}

/// The candidates that every document offers.
pub open spec fn fixed_items() -> Seq<CompletionItemView> {
    seq![
        CompletionItemView { label: "Node"@, detail: "ROS Node action"@ },
        CompletionItemView { label: "LaunchConfiguration"@, detail: "Substitution"@ },
        CompletionItemView {
            label: "IncludeLaunchDescription"@,
            detail: "Include other launch file"@,
        },
    ]
}

/// One candidate for each substitution, in order, repeats included.
pub open spec fn substitution_items(subs: Seq<SubstitutionView>) -> Seq<CompletionItemView> {
    Seq::new(
        subs.len(),
        |i: int| CompletionItemView { label: subs[i].name, detail: "Launch configuration"@ },
    )
}

/// The candidates of a document: the fixed ones, then its substitutions.
pub open spec fn completion_of(result: ParseResultView) -> Seq<CompletionItemView> {
    fixed_items() + substitution_items(result.substitutions)
}

/// The span of the first substitution that covers `pos`, if one does.
pub open spec fn definition_in(subs: Seq<SubstitutionView>, pos: Position) -> Option<Range>
    decreases subs.len(),
{
    if subs.len() == 0 {
        None
    } else if subs[0].covers(pos) {
        Some(subs[0].span())
    } else {
        definition_in(subs.drop_first(), pos)
    }
}

/// A candidate with the given label and description.
fn item(label: String, detail: &str) -> (r: CompletionItem)
    ensures
        r@ == (CompletionItemView { label: label@, detail: detail@ }),
{
    CompletionItem { label, detail: detail.to_owned() }
}

/// The completion candidates of `result`: the fixed vocabulary, then one
/// candidate for each substitution in the order of extraction.
pub fn completion_items(result: &ParseResult) -> (items: Vec<CompletionItem>)
    ensures
        item_views(items@) == completion_of(result@),
{
    let mut items: Vec<CompletionItem> = Vec::new();
    items.push(item("Node".to_owned(), "ROS Node action"));
    items.push(item("LaunchConfiguration".to_owned(), "Substitution"));
    items.push(item("IncludeLaunchDescription".to_owned(), "Include other launch file"));
    assert(item_views(items@) =~= fixed_items());
    let mut i: usize = 0;
    while i < result.substitutions.len()
        invariant
            i <= result.substitutions@.len(),
            item_views(items@) == fixed_items() + substitution_items(
                result@.substitutions.take(i as int),
            ),
        decreases result.substitutions@.len() - i,
    {
        let ghost before = item_views(items@);
        let next = item(result.substitutions[i].name.clone(), "Launch configuration");
        items.push(next);
        assert(item_views(items@) =~= before.push(next@));
        assert(item_views(items@) =~= fixed_items() + substitution_items(
            result@.substitutions.take(i + 1),
        ));
        i += 1;
    }
    assert(result@.substitutions.take(result.substitutions@.len() as int)
        =~= result@.substitutions);
    items
}

/// The range of the first substitution of `result` whose span covers `pos`,
/// or `None` where none covers it.
pub fn find_definition(result: &ParseResult, pos: Position) -> (r: Option<Range>)
    requires
        result@.addressable(),
    ensures
        r == definition_in(result@.substitutions, pos),
{
    let ghost subs = result@.substitutions;
    let mut i: usize = 0;
    assert(subs.skip(0) =~= subs);
    while i < result.substitutions.len()
        invariant
            i <= result.substitutions@.len(),
            subs == substitution_views(result.substitutions@),
            result@.addressable(),
            definition_in(subs, pos) == definition_in(subs.skip(i as int), pos),
        decreases result.substitutions@.len() - i,
    {
        let sub = &result.substitutions[i];
        proof {
            assert(subs[i as int] == sub@);
            assert(subs[i as int].addressable());
            assert(subs.skip(i as int)[0] == subs[i as int]);
            assert(subs.skip(i as int).drop_first() =~= subs.skip(i + 1));
        }
        if sub.covers(pos) {
            return Some(sub.span());
        }
        i += 1;
    }
    assert(subs.skip(subs.len() as int).len() == 0);
    None
}

} // verus!
