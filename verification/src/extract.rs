//! The extractor: from a syntax tree to the flat result that queries read.

use vstd::prelude::*;
use crate::assoc::{assoc_map, lemma_assoc_push};
use crate::model::{name_length, node_views, substitution_views, NodeInfo, NodeView, ParseResult,
    ParseResultView, SubstitutionInfo, SubstitutionView};
use crate::string_map::StringMap;
use crate::syntax::{Argument, AssignedValue, Assignment, CallExpr, Keyword, SyntaxTree};
use crate::vocabulary::{Vocabulary, VocabularyView};

verus! {

/// The tree cannot be extracted: `call` is the first call expression, in
/// source order, whose position is malformed.
#[derive(Clone, Copy, Debug, PartialEq, Eq)]
pub struct ExtractionError {
    pub call: usize,
}

/// The text that stands for an argument: a literal's own text, and a fixed
/// marker for any other expression.
pub open spec fn argument_text(argument: Argument) -> Seq<char> {
    match argument.literal {
        Some(text) => text@,
        None => "<expr>"@,
    }
}

/// The keyword arguments of a call as pairs of name and text, in order.
pub open spec fn keyword_pairs(keywords: Seq<Keyword>) -> Seq<(Seq<char>, Seq<char>)> {
    Seq::new(keywords.len(), |i: int| (keywords[i].name@, argument_text(keywords[i].value)))
}

/// The node that an action call gives: its callee as kind, its keyword
/// arguments, and the call's own position.
pub open spec fn node_of(call: CallExpr) -> NodeView {
    NodeView {
        kind: call.callee@,
        arguments: assoc_map(keyword_pairs(call.keywords@)),
        line: call.line as nat,
        column: call.column as nat,
    }
}

/// The substitution that a substitution call gives: the text of its first
/// positional argument, where that is a literal, at the argument's position.
pub open spec fn substitution_of(call: CallExpr) -> Option<SubstitutionView> {
    if call.positional@.len() > 0 {
        match call.positional@[0].literal {
            Some(text) => Some(
                SubstitutionView {
                    name: text@,
                    line: call.positional@[0].line as nat,
                    column: call.positional@[0].column as nat,
                },
            ),
            None => None,
        }
    } else {
        None
    }
}

/// The call is well placed: an action call starts on a line counted from
/// one, and a substitution that it names is addressable. A call that the
/// vocabulary does not know is always well placed.
pub open spec fn call_ok(call: CallExpr, vocabulary: VocabularyView) -> bool {
    &&& vocabulary.is_action(call.callee@) ==> call.line >= 1
    &&& vocabulary.is_substitution(call.callee@) ==> match substitution_of(call) {
        Some(sub) => sub.addressable(),
        None => true,
    }
}

/// Every call of the tree is well placed.
pub open spec fn tree_ok(tree: SyntaxTree, vocabulary: VocabularyView) -> bool {
    forall|i: int| 0 <= i < tree.calls@.len() ==> call_ok(#[trigger] tree.calls@[i], vocabulary)
}

/// The nodes of a list of calls: one for each action call, in order.
pub open spec fn extracted_nodes(calls: Seq<CallExpr>, vocabulary: VocabularyView) -> Seq<NodeView>
    decreases calls.len(),
{
    if calls.len() == 0 {
        Seq::empty()
    } else {
        let before = extracted_nodes(calls.drop_last(), vocabulary);
        if vocabulary.is_action(calls.last().callee@) {
            before.push(node_of(calls.last()))
        } else {
            before
        }
    }
}

/// The substitutions of a list of calls: one for each substitution call
/// whose first positional argument is a literal, in order.
pub open spec fn extracted_substitutions(
    calls: Seq<CallExpr>,
    vocabulary: VocabularyView,
) -> Seq<SubstitutionView>
    decreases calls.len(),
{
    if calls.len() == 0 {
        Seq::empty()
    } else {
        let before = extracted_substitutions(calls.drop_last(), vocabulary);
        match substitution_of(calls.last()) {
            Some(sub) if vocabulary.is_substitution(calls.last().callee@) => before.push(sub),
            _ => before,
        }
    }
}

/// The literals of a concatenation, joined.
pub open spec fn joined(parts: Seq<String>) -> Seq<char>
    decreases parts.len(),
{
    if parts.len() == 0 {
        Seq::empty()
    } else {
        joined(parts.drop_last()) + parts.last()@
    }
}

/// The bindings of a list of assignments as pairs, in order: one for each
/// assignment whose value is made of literals.
pub open spec fn binding_pairs(assignments: Seq<Assignment>) -> Seq<(Seq<char>, Seq<char>)>
    decreases assignments.len(),
{
    if assignments.len() == 0 {
        Seq::empty()
    } else {
        let before = binding_pairs(assignments.drop_last());
        match assignments.last().value {
            AssignedValue::Literals(parts) => before.push(
                (assignments.last().target@, joined(parts@)),
            ),
            AssignedValue::Expression => before,
        }
    }
}

/// What a tree holds: its nodes, its substitutions, and its bindings, where
/// a later assignment to a name overrides an earlier one.
pub open spec fn extraction(tree: SyntaxTree, vocabulary: VocabularyView) -> ParseResultView {
    ParseResultView {
        nodes: extracted_nodes(tree.calls@, vocabulary),
        substitutions: extracted_substitutions(tree.calls@, vocabulary),
        variables: assoc_map(binding_pairs(tree.assignments@)),
    }
}

/// The substitutions of well-placed calls are addressable.
pub proof fn lemma_extracted_addressable(calls: Seq<CallExpr>, vocabulary: VocabularyView)
    requires
        forall|i: int| 0 <= i < calls.len() ==> call_ok(#[trigger] calls[i], vocabulary),
    ensures
        forall|k: int|
            0 <= k < extracted_substitutions(calls, vocabulary).len() ==> (
            #[trigger] extracted_substitutions(calls, vocabulary)[k]).addressable(),
    decreases calls.len(),
{
    if calls.len() > 0 {
        let front = calls.drop_last();
        assert forall|i: int| 0 <= i < front.len() implies call_ok(#[trigger] front[i], vocabulary) by {
            assert(front[i] == calls[i]);
        }
        lemma_extracted_addressable(front, vocabulary);
        assert(call_ok(calls[calls.len() - 1], vocabulary));
        assert(calls.last() == calls[calls.len() - 1]);
        let before = extracted_substitutions(front, vocabulary);
        let all = extracted_substitutions(calls, vocabulary);
        assert forall|k: int| 0 <= k < all.len() implies (#[trigger] all[k]).addressable() by {
            if k < before.len() {
                assert(all[k] == before[k]);
            }
        }
    }
}

/// The text of an argument.
fn text_of(argument: &Argument) -> (r: String)
    ensures
        r@ == argument_text(*argument),
{
    match &argument.literal {
        Some(text) => text.clone(),
        None => "<expr>".to_owned(),
    }
}

/// The keyword arguments of a call as a map from name to text.
fn keyword_arguments(keywords: &Vec<Keyword>) -> (r: StringMap)
    ensures
        r@ == assoc_map(keyword_pairs(keywords@)),
{
    let mut arguments = StringMap::new();
    let mut i: usize = 0;
    assert(keyword_pairs(keywords@.take(0)) =~= Seq::empty());
    while i < keywords.len()
        invariant
            i <= keywords@.len(),
            arguments@ == assoc_map(keyword_pairs(keywords@.take(i as int))),
        decreases keywords@.len() - i,
    {
        let keyword = &keywords[i];
        proof {
            let before = keyword_pairs(keywords@.take(i as int));
            let pair = (keyword.name@, argument_text(keyword.value));
            assert(keyword_pairs(keywords@.take(i + 1)) =~= before.push(pair));
            lemma_assoc_push(before, pair.0, pair.1);
        }
        arguments.insert(keyword.name.clone(), text_of(&keyword.value));
        i += 1;
    }
    assert(keywords@.take(keywords@.len() as int) =~= keywords@);
    arguments
}

/// Joins the literals of a concatenation.
fn join(parts: &Vec<String>) -> (r: String)
    ensures
        r@ == joined(parts@),
{
    let mut text = String::new();
    let mut i: usize = 0;
    while i < parts.len()
        invariant
            i <= parts@.len(),
            text@ == joined(parts@.take(i as int)),
        decreases parts@.len() - i,
    {
        proof {
            assert(parts@.take(i + 1).drop_last() =~= parts@.take(i as int));
        }
        text.append(parts[i].as_str());
        i += 1;
    }
    assert(parts@.take(parts@.len() as int) =~= parts@);
    text
}

/// The bindings of a list of assignments.
fn collect_bindings(assignments: &Vec<Assignment>) -> (r: StringMap)
    ensures
        r@ == assoc_map(binding_pairs(assignments@)),
{
    let mut bindings = StringMap::new();
    let mut i: usize = 0;
    while i < assignments.len()
        invariant
            i <= assignments@.len(),
            bindings@ == assoc_map(binding_pairs(assignments@.take(i as int))),
        decreases assignments@.len() - i,
    {
        let assignment = &assignments[i];
        proof {
            assert(assignments@.take(i + 1).drop_last() =~= assignments@.take(i as int));
        }
        match &assignment.value {
            AssignedValue::Literals(parts) => {
                let value = join(parts);
                proof {
                    lemma_assoc_push(
                        binding_pairs(assignments@.take(i as int)),
                        assignment.target@,
                        value@,
                    );
                }
                bindings.insert(assignment.target.clone(), value);
            },
            AssignedValue::Expression => {},
        }
        i += 1;
    }
    assert(assignments@.take(assignments@.len() as int) =~= assignments@);
    bindings
}

/// The substitution that a call names, if it names one, and whether it is
/// addressable.
fn named_substitution(call: &CallExpr) -> (r: Option<(SubstitutionInfo, bool)>)
    ensures
        match r {
            Some((sub, fits)) => substitution_of(*call) == Some(sub@) && fits
                == sub@.addressable(),
            None => substitution_of(*call).is_none(),
        },
{
    if call.positional.len() == 0 {
        return None;
    }
    let argument = &call.positional[0];
    match &argument.literal {
        Some(text) => {
            let width: usize = text.as_str().as_bytes().len();
            let limit: usize = u32::MAX as usize;
            let fits = argument.line >= 1 && argument.line - 1 <= limit && argument.column
                <= limit && width <= limit - argument.column;
            let sub = SubstitutionInfo {
                name: text.clone(),
                lineno: argument.line,
                col_offset: argument.column,
            };
            assert(name_length(sub@.name) == width);
            Some((sub, fits))
        },
        None => None,
    }
}

/// Extracts the nodes, substitutions and bindings of `tree`.
///
/// Succeeds exactly on a tree whose calls are all well placed, with the
/// result that [`extraction`] describes. Otherwise reports the first call
/// that is not.
pub fn extract(tree: &SyntaxTree, vocabulary: &Vocabulary) -> (r: Result<
    ParseResult,
    ExtractionError,
>)
    ensures
        match r {
            Ok(result) => {
                &&& tree_ok(*tree, vocabulary@)
                &&& result@ == extraction(*tree, vocabulary@)
                &&& result@.addressable()
            },
            Err(e) => {
                &&& e.call < tree.calls@.len()
                &&& !call_ok(tree.calls@[e.call as int], vocabulary@)
                &&& forall|j: int| 0 <= j < e.call ==> call_ok(#[trigger] tree.calls@[j], vocabulary@)
            },
        },
{
    let mut nodes: Vec<NodeInfo> = Vec::new();
    let mut substitutions: Vec<SubstitutionInfo> = Vec::new();
    let mut i: usize = 0;
    while i < tree.calls.len()
        invariant
            i <= tree.calls@.len(),
            node_views(nodes@) == extracted_nodes(tree.calls@.take(i as int), vocabulary@),
            substitution_views(substitutions@) == extracted_substitutions(
                tree.calls@.take(i as int),
                vocabulary@,
            ),
            forall|j: int| 0 <= j < i ==> call_ok(#[trigger] tree.calls@[j], vocabulary@),
        decreases tree.calls@.len() - i,
    {
        let call = &tree.calls[i];
        let ghost old_nodes = nodes@;
        let ghost old_subs = substitutions@;
        proof {
            assert(tree.calls@.take(i + 1).drop_last() =~= tree.calls@.take(i as int));
            assert(tree.calls@.take(i + 1).last() == tree.calls@[i as int]);
        }
        if vocabulary.knows_action(&call.callee) {
            if call.line == 0 {
                return Err(ExtractionError { call: i });
            }
            let node = NodeInfo {
                type_: call.callee.clone(),
                args: keyword_arguments(&call.keywords),
                lineno: call.line,
                col_offset: call.column,
            };
            nodes.push(node);
            assert(node_views(nodes@) =~= node_views(old_nodes).push(node_of(*call)));
        }
        if vocabulary.knows_substitution(&call.callee) {
            match named_substitution(call) {
                Some((sub, fits)) => {
                    if !fits {
                        return Err(ExtractionError { call: i });
                    }
                    let ghost model = sub@;
                    substitutions.push(sub);
                    assert(substitution_views(substitutions@) =~= substitution_views(
                        old_subs,
                    ).push(model));
                },
                None => {},
            }
        }
        i += 1;
    }
    assert(tree.calls@.take(tree.calls@.len() as int) =~= tree.calls@);
    let variables = collect_bindings(&tree.assignments);
    proof {
        lemma_extracted_addressable(tree.calls@, vocabulary@);
    }
    Ok(ParseResult { nodes, substitutions, variables })
}

} // verus!
