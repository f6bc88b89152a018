//! What the server tells an editor about itself, and how it reads a change
//! notification.

use vstd::prelude::*;
use crate::vocabulary::names_of;

verus! {

/// How an editor is to send the text of a changed document.
#[derive(Clone, Copy, Debug, PartialEq, Eq)]
pub enum TextSync {
    /// Changes are not sent.
    Off,
    /// Every change carries the whole text.
    Full,
    /// A change carries the edited range only.
    Incremental,
}

/// The capabilities that the server advertises.
#[derive(Clone, Debug, PartialEq, Eq)]
pub struct Capabilities {
    pub server_name: String,
    pub text_sync: TextSync,
    pub completion_triggers: Vec<String>,
    pub resolve_completion: bool,
    pub definition: bool,
}

/// The server's capabilities: whole-text synchronisation, completion
/// triggered by `.` and `,` without a resolve step, and definition lookup.
pub fn capabilities() -> (c: Capabilities)
    ensures
        c.server_name@ == "ROS2 Launch LSP"@,
        c.text_sync == TextSync::Full,
        names_of(c.completion_triggers@) == seq!["."@, ","@],
        !c.resolve_completion,
        c.definition,
{
    let mut completion_triggers: Vec<String> = Vec::new();
    completion_triggers.push(".".to_owned());
    completion_triggers.push(",".to_owned());
    assert(names_of(completion_triggers@) =~= seq!["."@, ","@]);
    Capabilities {
        server_name: "ROS2 Launch LSP".to_owned(),
        text_sync: TextSync::Full,
        completion_triggers,
        resolve_completion: false,
        definition: true,
    }
}

/// The text that a change notification leaves the document with: that of
/// its last change, each change carrying the whole text. `None` for a
/// notification without changes.
pub fn latest_change(changes: &Vec<String>) -> (r: Option<&String>)
    ensures
        match r {
            Some(text) => changes@.len() > 0 && *text == changes@.last(),
            None => changes@.len() == 0,
        },
{
    if changes.len() == 0 {
        None
    } else {
        Some(&changes[changes.len() - 1])
    }
}

} // verus!
