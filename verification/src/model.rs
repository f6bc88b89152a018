//! What the extractor finds in one snapshot of a document: recognised
//! constructs, references to configuration values, and simple bindings.

use vstd::prelude::*;
use crate::position::{Position, Range};
use crate::string_map::StringMap;

verus! {

/// A reference to a named configuration value. `lineno` counts lines from
/// one; `col_offset` is the column of the name token as the editor counts it.
#[derive(Clone, Debug, PartialEq, Eq)]
pub struct SubstitutionInfo {
    pub name: String,
    pub lineno: usize,
    pub col_offset: usize,
}

/// One recognised construct: its kind, its keyword arguments as text, and
/// where it starts.
#[derive(Clone, Debug)]
pub struct NodeInfo {
    pub type_: String,
    pub args: StringMap,
    pub lineno: usize,
    pub col_offset: usize,
}

/// Everything extracted from one snapshot of a document.
#[derive(Clone, Debug)]
pub struct ParseResult {
    pub nodes: Vec<NodeInfo>,
    pub substitutions: Vec<SubstitutionInfo>,
    pub variables: StringMap,
}

/// The model of a [`SubstitutionInfo`].
pub struct SubstitutionView {
    pub name: Seq<char>,
    pub line: nat,
    pub column: nat,
}

/// The model of a [`NodeInfo`].
pub struct NodeView {
    pub kind: Seq<char>,
    pub arguments: Map<Seq<char>, Seq<char>>,
    pub line: nat,
    pub column: nat,
}

/// The model of a [`ParseResult`].
pub struct ParseResultView {
    pub nodes: Seq<NodeView>,
    pub substitutions: Seq<SubstitutionView>,
    pub variables: Map<Seq<char>, Seq<char>>,
}

/// The length of a name as columns count it: its length in UTF-8 bytes.
pub open spec fn name_length(name: Seq<char>) -> nat {
    vstd::utf8::encode_utf8(name).len()
}

impl SubstitutionView {
    /// The column just behind the name token.
    pub open spec fn end_column(self) -> nat {
        self.column + name_length(self.name)
    }

    /// The token lies on a line counted from one, and its span can be
    /// written as editor positions.
    pub open spec fn addressable(self) -> bool {
        &&& 1 <= self.line
        &&& self.line - 1 <= u32::MAX
        &&& self.end_column() <= u32::MAX
    }

    /// `pos` is on the token's line, between its first column and its end
    /// column, both included.
    pub open spec fn covers(self, pos: Position) -> bool {
        &&& pos.line == self.line - 1
        &&& self.column <= pos.character <= self.end_column()
    }

    /// The range of the name token: from its first column up to its end
    /// column, on the editor's line.
    pub open spec fn span(self) -> Range {
        Range {
            start: Position { line: (self.line - 1) as u32, character: self.column as u32 },
            end: Position { line: (self.line - 1) as u32, character: self.end_column() as u32 },
        }
    }
}

impl ParseResultView {
    /// Every substitution is addressable.
    pub open spec fn addressable(self) -> bool {
        forall|i: int|
            0 <= i < self.substitutions.len() ==> (#[trigger] self.substitutions[i]).addressable()
    }
}

impl View for SubstitutionInfo {
    type V = SubstitutionView;

    open spec fn view(&self) -> SubstitutionView {
        SubstitutionView {
            name: self.name@,
            line: self.lineno as nat,
            column: self.col_offset as nat,
        }
    }
}

impl View for NodeInfo {
    type V = NodeView;

    open spec fn view(&self) -> NodeView {
        NodeView {
            kind: self.type_@,
            arguments: self.args@,
            line: self.lineno as nat,
            column: self.col_offset as nat,
        }
    }
}

/// The models of a list of nodes, in order.
pub open spec fn node_views(nodes: Seq<NodeInfo>) -> Seq<NodeView> {
    Seq::new(nodes.len(), |i: int| nodes[i]@)
}

/// The models of a list of substitutions, in order.
pub open spec fn substitution_views(subs: Seq<SubstitutionInfo>) -> Seq<SubstitutionView> {
    Seq::new(subs.len(), |i: int| subs[i]@)
}

impl View for ParseResult {
    type V = ParseResultView;

    open spec fn view(&self) -> ParseResultView {
        ParseResultView {
            nodes: node_views(self.nodes@),
            substitutions: substitution_views(self.substitutions@),
            variables: self.variables@,
        }
    }
}

impl SubstitutionInfo {
    /// The range of the name token in editor positions.
    pub fn span(&self) -> (r: Range)
        requires
            self@.addressable(),
        ensures
            r == self@.span(),
    {
        let line: u32 = (self.lineno - 1) as u32;
        let width: usize = self.name.as_str().as_bytes().len();
        Range {
            start: Position { line, character: self.col_offset as u32 },
            end: Position { line, character: (self.col_offset + width) as u32 },
        }
    }

    /// Whether `pos` lies on the name token, its end column included.
    pub fn covers(&self, pos: Position) -> (r: bool)
        requires
            self@.addressable(),
        ensures
            r == self@.covers(pos),
    {
        let width: usize = self.name.as_str().as_bytes().len();
        let line: usize = self.lineno - 1;
        let character: usize = pos.character as usize;
        pos.line as usize == line && self.col_offset <= character && character <= self.col_offset
            + width
    }
}

} // verus!
