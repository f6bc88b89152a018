use launch_lsp::extract::ExtractionError;
use launch_lsp::model::{ParseResult, SubstitutionInfo};
use launch_lsp::position::{Location, Position, Range};
use launch_lsp::protocol::{capabilities, latest_change, TextSync};
use launch_lsp::query::{completion_items, find_definition, CompletionItem};
use launch_lsp::store::{DocumentStore, UpdateError};
use launch_lsp::string_map::StringMap;
use launch_lsp::syntax::{Argument, CallExpr, Keyword, ParseError, SyntaxTree};
use launch_lsp::vocabulary::Vocabulary;

fn substitution_call(name: &str, line: usize, column: usize) -> CallExpr {
    CallExpr {
        callee: "LaunchConfiguration".to_string(),
        positional: vec![Argument { literal: Some(name.to_string()), line, column }],
        keywords: vec![],
        line,
        column: 0,
    }
}

fn node_call(line: usize, column: usize) -> CallExpr {
    CallExpr {
        callee: "Node".to_string(),
        positional: vec![],
        keywords: vec![Keyword {
            name: "package".to_string(),
            value: Argument { literal: Some("demo".to_string()), line, column: column + 13 },
        }],
        line,
        column,
    }
}

fn tree_of(calls: Vec<CallExpr>) -> SyntaxTree {
    SyntaxTree { calls, assignments: vec![] }
}

fn two_substitutions() -> SyntaxTree {
    tree_of(vec![substitution_call("use_sim_time", 3, 24), substitution_call("robot_name", 7, 10)])
}

fn result_of(subs: Vec<SubstitutionInfo>) -> ParseResult {
    ParseResult { nodes: vec![], substitutions: subs, variables: StringMap::new() }
}

fn sub(name: &str, lineno: usize, col_offset: usize) -> SubstitutionInfo {
    SubstitutionInfo { name: name.to_string(), lineno, col_offset }
}

fn item(label: &str, detail: &str) -> CompletionItem {
    CompletionItem { label: label.to_string(), detail: detail.to_string() }
}

fn span(line: u32, from: u32, to: u32) -> Range {
    Range { start: Position { line, character: from }, end: Position { line, character: to } }
}

#[test]
fn update_then_get_returns_new_text_and_result() {
    let mut store = DocumentStore::new();
    assert_eq!(store.update("file:///a.py", "first text", Ok(two_substitutions())), Ok(()));
    let entry = store.get("file:///a.py").unwrap();
    assert_eq!(entry.text, "first text");
    assert_eq!(entry.parse_result.substitutions, vec![sub("use_sim_time", 3, 24), sub("robot_name", 7, 10)]);
    assert_eq!(entry.parse_result.nodes.len(), 0);
}

#[test]
fn update_replaces_the_whole_entry() {
    let mut store = DocumentStore::new();
    store.update("doc", "v1", Ok(two_substitutions())).unwrap();
    store.update("doc", "v2", Ok(tree_of(vec![node_call(1, 4)]))).unwrap();
    let entry = store.get("doc").unwrap();
    assert_eq!(entry.text, "v2");
    assert_eq!(entry.parse_result.substitutions.len(), 0);
    assert_eq!(entry.parse_result.nodes.len(), 1);
    assert_eq!(entry.parse_result.nodes[0].args.get("package"), Some(&"demo".to_string()));
}

#[test]
fn updates_of_one_document_leave_others_alone() {
    let mut store = DocumentStore::new();
    store.update("a", "text a", Ok(two_substitutions())).unwrap();
    store.update("b", "text b", Ok(tree_of(vec![]))).unwrap();
    store.update("a", "text a2", Ok(tree_of(vec![]))).unwrap();
    assert_eq!(store.get("a").unwrap().text, "text a2");
    assert_eq!(store.get("b").unwrap().text, "text b");
    assert_eq!(store.get("b").unwrap().parse_result.substitutions.len(), 0);
}

#[test]
fn parse_failure_keeps_previous_snapshot() {
    let mut store = DocumentStore::new();
    store.update("doc", "good", Ok(two_substitutions())).unwrap();
    let error = ParseError { message: "invalid syntax".to_string() };
    let answer = store.update("doc", "bad (", Err(error.clone()));
    assert_eq!(answer, Err(UpdateError::ParseFailure(error)));
    let entry = store.get("doc").unwrap();
    assert_eq!(entry.text, "good");
    assert_eq!(entry.parse_result.substitutions, vec![sub("use_sim_time", 3, 24), sub("robot_name", 7, 10)]);
}

#[test]
fn extraction_failure_keeps_previous_snapshot() {
    let mut store = DocumentStore::new();
    store.update("doc", "good", Ok(two_substitutions())).unwrap();
    let malformed = tree_of(vec![node_call(1, 0), substitution_call("x", 0, 5)]);
    let answer = store.update("doc", "other", Ok(malformed));
    assert_eq!(answer, Err(UpdateError::ExtractionFailure(ExtractionError { call: 1 })));
    let entry = store.get("doc").unwrap();
    assert_eq!(entry.text, "good");
    assert_eq!(entry.parse_result.substitutions.len(), 2);
    assert_eq!(entry.parse_result.nodes.len(), 0);
}

#[test]
fn failed_first_update_opens_nothing() {
    let mut store = DocumentStore::new();
    let answer = store.update("doc", "bad", Err(ParseError { message: "eof".to_string() }));
    assert!(answer.is_err());
    assert!(store.get("doc").is_none());
    assert_eq!(store.completion("doc", Position::new(0, 0)), vec![]);
}

#[test]
fn same_update_twice_gives_equal_results() {
    let mut store = DocumentStore::new();
    store.update("doc", "text", Ok(two_substitutions())).unwrap();
    let first = store.get("doc").unwrap().clone();
    store.update("doc", "text", Ok(two_substitutions())).unwrap();
    let second = store.get("doc").unwrap();
    assert_eq!(first.text, second.text);
    assert_eq!(first.parse_result.substitutions, second.parse_result.substitutions);
    assert_eq!(first.parse_result.nodes.len(), second.parse_result.nodes.len());
    assert_eq!(
        store.completion("doc", Position::new(0, 0)),
        completion_items(&first.parse_result)
    );
}

#[test]
fn remove_discards_only_that_document() {
    let mut store = DocumentStore::new();
    store.update("a", "text a", Ok(two_substitutions())).unwrap();
    store.update("b", "text b", Ok(two_substitutions())).unwrap();
    store.update("c", "text c", Ok(tree_of(vec![]))).unwrap();
    store.remove("a");
    assert!(store.get("a").is_none());
    assert_eq!(store.get("b").unwrap().text, "text b");
    assert_eq!(store.get("c").unwrap().text, "text c");
    store.remove("never-opened");
    assert_eq!(store.get("b").unwrap().text, "text b");
    assert_eq!(store.definition("a", Position::new(2, 24)), None);
    store.update("a", "again", Ok(tree_of(vec![]))).unwrap();
    assert_eq!(store.get("a").unwrap().text, "again");
    assert_eq!(store.get("a").unwrap().parse_result.substitutions.len(), 0);
}

#[test]
fn unknown_document_gives_empty_answers() {
    let store = DocumentStore::new();
    assert_eq!(store.completion("never-opened", Position::new(0, 0)), vec![]);
    assert_eq!(store.definition("never-opened", Position::new(0, 0)), None);
    assert!(store.get("never-opened").is_none());
}

#[test]
fn completion_lists_fixed_items_then_substitutions() {
    let mut store = DocumentStore::new();
    store.update("doc", "text", Ok(two_substitutions())).unwrap();
    let items = store.completion("doc", Position::new(4, 2));
    assert_eq!(
        items,
        vec![
            item("Node", "ROS Node action"),
            item("LaunchConfiguration", "Substitution"),
            item("IncludeLaunchDescription", "Include other launch file"),
            item("use_sim_time", "Launch configuration"),
            item("robot_name", "Launch configuration"),
        ]
    );
    assert_eq!(store.completion("doc", Position::new(0, 0)), items);
}

#[test]
fn completion_of_empty_document_is_the_fixed_set() {
    let mut store = DocumentStore::new();
    store.update("doc", "", Ok(tree_of(vec![]))).unwrap();
    let items = store.completion("doc", Position::new(0, 0));
    assert_eq!(
        items,
        vec![
            item("Node", "ROS Node action"),
            item("LaunchConfiguration", "Substitution"),
            item("IncludeLaunchDescription", "Include other launch file"),
        ]
    );
}

#[test]
fn completion_keeps_repeated_names() {
    let result = result_of(vec![sub("a", 1, 0), sub("b", 2, 0), sub("a", 3, 0)]);
    let labels: Vec<String> = completion_items(&result).into_iter().map(|i| i.label).collect();
    assert_eq!(labels, vec!["Node", "LaunchConfiguration", "IncludeLaunchDescription", "a", "b", "a"]);
}

#[test]
fn definition_round_trip_for_every_substitution() {
    let mut store = DocumentStore::new();
    store.update("file:///l.py", "text", Ok(two_substitutions())).unwrap();
    assert_eq!(
        store.definition("file:///l.py", Position::new(2, 24)),
        Some(Location { uri: "file:///l.py".to_string(), range: span(2, 24, 36) })
    );
    assert_eq!(
        store.definition("file:///l.py", Position::new(6, 10)),
        Some(Location { uri: "file:///l.py".to_string(), range: span(6, 10, 20) })
    );
}

#[test]
fn definition_boundaries() {
    let result = result_of(vec![sub("robot_name", 1, 37)]);
    assert_eq!(find_definition(&result, Position::new(0, 36)), None);
    assert_eq!(find_definition(&result, Position::new(0, 37)), Some(span(0, 37, 47)));
    assert_eq!(find_definition(&result, Position::new(0, 42)), Some(span(0, 37, 47)));
    assert_eq!(find_definition(&result, Position::new(0, 47)), Some(span(0, 37, 47)));
    assert_eq!(find_definition(&result, Position::new(0, 48)), None);
    assert_eq!(find_definition(&result, Position::new(1, 37)), None);
}

#[test]
fn definition_takes_the_first_of_overlapping_spans() {
    let result = result_of(vec![sub("abc", 2, 0), sub("x", 2, 3), sub("abc", 3, 0)]);
    assert_eq!(find_definition(&result, Position::new(1, 3)), Some(span(1, 0, 3)));
    assert_eq!(find_definition(&result, Position::new(1, 4)), Some(span(1, 3, 4)));
    assert_eq!(find_definition(&result, Position::new(2, 1)), Some(span(2, 0, 3)));
}

#[test]
fn definition_counts_name_length_in_bytes() {
    let result = result_of(vec![sub("é", 1, 5)]);
    assert_eq!(find_definition(&result, Position::new(0, 7)), Some(span(0, 5, 7)));
    assert_eq!(find_definition(&result, Position::new(0, 8)), None);
}

#[test]
fn definition_at_the_largest_positions() {
    let result = result_of(vec![sub("ab", u32::MAX as usize + 1, u32::MAX as usize - 2)]);
    assert_eq!(
        find_definition(&result, Position::new(u32::MAX, u32::MAX)),
        Some(span(u32::MAX, u32::MAX - 2, u32::MAX))
    );
    assert_eq!(find_definition(&result, Position::new(u32::MAX - 1, u32::MAX)), None);
}

#[test]
fn substitution_span_and_cover() {
    let s = sub("use_sim_time", 3, 24);
    assert_eq!(s.span(), span(2, 24, 36));
    assert!(s.covers(Position::new(2, 24)));
    assert!(s.covers(Position::new(2, 36)));
    assert!(!s.covers(Position::new(2, 37)));
    assert!(!s.covers(Position::new(2, 23)));
    assert!(!s.covers(Position::new(3, 24)));
}

#[test]
fn store_with_own_vocabulary() {
    let vocabulary = Vocabulary { actions: vec![], substitutions: vec!["Setting".to_string()] };
    let mut store = DocumentStore::with_vocabulary(vocabulary);
    let tree = tree_of(vec![
        substitution_call("ignored", 1, 4),
        CallExpr {
            callee: "Setting".to_string(),
            positional: vec![Argument { literal: Some("port".to_string()), line: 2, column: 8 }],
            keywords: vec![],
            line: 2,
            column: 0,
        },
    ]);
    store.update("doc", "text", Ok(tree)).unwrap();
    assert_eq!(store.get("doc").unwrap().parse_result.substitutions, vec![sub("port", 2, 8)]);
    assert_eq!(store.definition("doc", Position::new(0, 4)), None);
    assert_eq!(
        store.definition("doc", Position::new(1, 9)),
        Some(Location { uri: "doc".to_string(), range: span(1, 8, 12) })
    );
}

#[test]
fn advertised_capabilities() {
    let c = capabilities();
    assert_eq!(c.server_name, "ROS2 Launch LSP");
    assert_eq!(c.text_sync, TextSync::Full);
    assert_eq!(c.completion_triggers, vec![".".to_string(), ",".to_string()]);
    assert!(!c.resolve_completion);
    assert!(c.definition);
}

#[test]
fn last_change_wins() {
    let none: Vec<String> = vec![];
    assert_eq!(latest_change(&none), None);
    let changes = vec!["one".to_string(), "two".to_string(), "three".to_string()];
    assert_eq!(latest_change(&changes), Some(&"three".to_string()));
    assert_eq!(latest_change(&vec!["only".to_string()]), Some(&"only".to_string()));
}
