//! The names that the extractor recognises.

use vstd::prelude::*;

verus! {

/// The recognised constructor names: those of actions and those of
/// substitutions.
#[derive(Clone, Debug)]
pub struct Vocabulary {
    pub actions: Vec<String>,
    pub substitutions: Vec<String>,
}

/// The model of a [`Vocabulary`].
pub struct VocabularyView {
    pub actions: Seq<Seq<char>>,
    pub substitutions: Seq<Seq<char>>,
}

/// The views of a list of strings, in order.
pub open spec fn names_of(names: Seq<String>) -> Seq<Seq<char>> {
    Seq::new(names.len(), |i: int| names[i]@)
}

impl VocabularyView {
    /// `name` is the name of an action constructor.
    pub open spec fn is_action(self, name: Seq<char>) -> bool {
        self.actions.contains(name)
    }

    /// `name` is the name of a substitution constructor.
    pub open spec fn is_substitution(self, name: Seq<char>) -> bool {
        self.substitutions.contains(name)
    }
}

impl View for Vocabulary {
    type V = VocabularyView;

    open spec fn view(&self) -> VocabularyView {
        VocabularyView {
            actions: names_of(self.actions@),
            substitutions: names_of(self.substitutions@),
        }
    }
}

/// Whether `name` is one of `names`.
fn holds(names: &Vec<String>, name: &String) -> (r: bool)
    ensures
        r == names_of(names@).contains(name@),
{
    let mut i: usize = 0;
    while i < names.len()
        invariant
            i <= names@.len(),
            forall|j: int| 0 <= j < i ==> names_of(names@)[j] != name@,
        decreases names@.len() - i,
    {
        if names[i] == *name {
            assert(names_of(names@)[i as int] == name@);
            return true;
        }
        i += 1;
    }
    false
}

impl Vocabulary {
    /// The usual launch vocabulary: the actions `Node` and
    /// `IncludeLaunchDescription`, the substitution `LaunchConfiguration`.
    pub fn standard() -> (v: Vocabulary)
        ensures
            v@.actions == seq!["Node"@, "IncludeLaunchDescription"@],
            v@.substitutions == seq!["LaunchConfiguration"@],
    {
        let mut actions: Vec<String> = Vec::new();
        actions.push("Node".to_owned());
        actions.push("IncludeLaunchDescription".to_owned());
        let mut substitutions: Vec<String> = Vec::new();
        substitutions.push("LaunchConfiguration".to_owned());
        let v = Vocabulary { actions, substitutions };
        assert(v@.actions =~= seq!["Node"@, "IncludeLaunchDescription"@]);
        assert(v@.substitutions =~= seq!["LaunchConfiguration"@]);
        v
    }

    /// Whether `name` names an action constructor.
    pub fn knows_action(&self, name: &String) -> (r: bool)
        ensures
            r == self@.is_action(name@),
    {
        holds(&self.actions, name)
    }

    /// Whether `name` names a substitution constructor.
    pub fn knows_substitution(&self, name: &String) -> (r: bool)
        ensures
            r == self@.is_substitution(name@),
    {
        holds(&self.substitutions, name)
    }
}

} // verus!
