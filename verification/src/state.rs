//! The plain value types the controller works with: key events, focus,
//! input mode, tabs, and the kill-confirmation protocol messages.

use vstd::prelude::*;
use crate::node::TreeNode;

verus! {

/// A key event, as the controller sees it.  The embedding program maps
/// raw terminal key presses onto this alphabet; any key the controller
/// does not react to arrives as `Other`.
#[derive(Debug, Clone, Copy, PartialEq, Eq, Structural)]
pub enum Key {
    Up,
    Down,
    Left,
    Right,
    Enter,
    Esc,
    Backspace,
    Tab,
    Delete,
    Char(char),
    Other,
}

/// Which pane currently receives non-global key input.
#[derive(Debug, Clone, Copy, PartialEq, Eq, Structural)]
pub enum Focus {
    Tree,
    Tabs,
}

/// The input mode: normal navigation, or the command line.
#[derive(Debug, Clone, Copy, PartialEq, Eq, Structural)]
pub enum Mode {
    Normal,
    Command,
}

/// An open, stateful view onto one monitor section.
#[derive(Debug, Clone, Copy, PartialEq, Eq, Structural)]
pub struct Tab {
    pub node: TreeNode,
    pub scroll_offset: u16,
    pub selected_item: usize,
}

impl Tab {
    /// A fresh tab for `node` with zeroed scroll and selection state.
    pub fn new(node: TreeNode) -> (r: Tab)
        ensures
            r == (Tab { node, scroll_offset: 0, selected_item: 0 }),
    {
        Tab { node, scroll_offset: 0, selected_item: 0 }
    }
}

/// A confirmed request that the embedding program run the forceful
/// process-termination command for `pid`.  The controller never runs
/// the command itself; it hands this value out and is later told the
/// outcome through [`KillOutcome`].
#[derive(Debug, Clone)]
pub struct KillRequest {
    pub pid: u32,
    pub name: String,
}

/// What became of a [`KillRequest`]: the command ran and succeeded, the
/// command ran and reported failure (with its diagnostic output), or
/// the command could not be run at all (with the reported reason).
#[derive(Debug, Clone)]
pub enum KillOutcome {
    Killed,
    Failed(String),
    Error(String),
}

} // verus!
