//! The mathematical model of the controller: a ghost image of its
//! state, the reachable-state invariant, and the transition function
//! [`step`] that says exactly what one key event does.
//!
//! The executable controller in `app` is proved to follow `step`
//! verbatim; the laws in `laws` are proved about `step` itself.

use vstd::prelude::*;
use crate::node::TreeNode;
use crate::node::tree_order;
use crate::node::from_shortcut_spec;
use crate::state::Focus;
use crate::state::Key;
use crate::state::Mode;
use crate::state::Tab;
use crate::state::KillRequest;
use crate::text::trim_spec;

verus! {

/// The ghost image of one open tab.
#[verifier::ext_equal]
pub ghost struct TabV {
    pub node: TreeNode,
    pub scroll_offset: int,
    pub selected_item: int,
}

/// The ghost image of one process row, as much of it as the controller
/// reads: its pid and display name.
#[verifier::ext_equal]
pub ghost struct ProcEntry {
    pub pid: u32,
    pub name: Seq<char>,
}

/// The ghost image of a [`KillRequest`].
#[verifier::ext_equal]
pub ghost struct KillReqV {
    pub pid: u32,
    pub name: Seq<char>,
}

/// The ghost image of the whole controller state.
#[verifier::ext_equal]
pub ghost struct AppV {
    pub running: bool,
    pub focus: Focus,
    pub mode: Mode,
    pub tree_nodes: Seq<TreeNode>,
    pub selected_tree_index: int,
    pub tabs: Seq<TabV>,
    pub active_tab_index: int,
    pub show_help: bool,
    pub command_buffer: Seq<char>,
    pub command_error: Option<Seq<char>>,
    pub show_device_popup: bool,
    pub selected_device_index: Option<int>,
    pub show_kill_confirm: bool,
    pub kill_target_pid: Option<u32>,
    pub kill_target_name: Option<Seq<char>>,
    pub status_message: Option<Seq<char>>,
    /// How many devices the current snapshot holds.
    pub device_count: int,
    /// The current snapshot's process rows.
    pub procs: Seq<ProcEntry>,
}

impl View for Tab {
    type V = TabV;

    open spec fn view(&self) -> TabV {
        TabV {
            node: self.node,
            scroll_offset: self.scroll_offset as int,
            selected_item: self.selected_item as int,
        }
    }
}

impl View for KillRequest {
    type V = KillReqV;

    open spec fn view(&self) -> KillReqV {
        KillReqV { pid: self.pid, name: self.name@ }
    }
}

/// The view of an optional owned string.
pub open spec fn opt_string_view(o: Option<String>) -> Option<Seq<char>> {
    match o {
        Some(s) => Some(s@),
        None => None,
    }
}

/// The view of an optional index.
pub open spec fn opt_index_view(o: Option<usize>) -> Option<int> {
    match o {
        Some(i) => Some(i as int),
        None => None,
    }
}

/// The ghost image of a process list: the pid and name of each row.
pub open spec fn procs_view(ps: Seq<crate::system::ProcessInfo>) -> Seq<ProcEntry> {
    ps.map_values(|p: crate::system::ProcessInfo| ProcEntry { pid: p.pid, name: p.name@ })
}

/// Field bounds that make a ghost tab representable by a real one.
pub open spec fn tab_wf(t: TabV) -> bool {
    &&& 0 <= t.scroll_offset <= u16::MAX
    &&& 0 <= t.selected_item <= usize::MAX
}

/// At most one of the three modal popups is open.
pub open spec fn modals_exclusive(s: AppV) -> bool {
    &&& !(s.show_help && s.show_device_popup)
    &&& !(s.show_help && s.show_kill_confirm)
    &&& !(s.show_device_popup && s.show_kill_confirm)
}

/// The reachable-state invariant.
pub open spec fn inv(s: AppV) -> bool {
    &&& s.tree_nodes == tree_order()
    &&& 0 <= s.selected_tree_index < s.tree_nodes.len()
    &&& s.tabs.len() >= 1
    &&& 0 <= s.active_tab_index < s.tabs.len()
    &&& forall|i: int| 0 <= i < s.tabs.len() ==> tab_wf(#[trigger] s.tabs[i])
    &&& forall|i: int, j: int|
        0 <= i < j < s.tabs.len() ==> (#[trigger] s.tabs[i]).node != (#[trigger] s.tabs[j]).node
    &&& modals_exclusive(s)
    &&& s.show_kill_confirm == s.kill_target_pid.is_some()
    &&& s.show_kill_confirm == s.kill_target_name.is_some()
    &&& s.show_device_popup == s.selected_device_index.is_some()
    &&& (s.selected_device_index matches Some(i) ==> 0 <= i <= usize::MAX)
    &&& (s.mode == Mode::Command ==> !s.show_device_popup && !s.show_kill_confirm)
    &&& 0 <= s.device_count
}

/// The state the controller starts in: one Overview tab, navigator
/// focus, normal mode, nothing open, an empty snapshot.
pub open spec fn init_state() -> AppV {
    AppV {
        running: true,
        focus: Focus::Tree,
        mode: Mode::Normal,
        tree_nodes: tree_order(),
        selected_tree_index: 0,
        tabs: seq![TabV { node: TreeNode::Overview, scroll_offset: 0, selected_item: 0 }],
        active_tab_index: 0,
        show_help: false,
        command_buffer: Seq::empty(),
        command_error: None,
        show_device_popup: false,
        selected_device_index: None,
        show_kill_confirm: false,
        kill_target_pid: None,
        kill_target_name: None,
        status_message: None,
        device_count: 0,
        procs: Seq::empty(),
    }
}

/// The fixed command vocabulary that requests shutdown.
pub open spec fn is_quit_command(cmd: Seq<char>) -> bool {
    cmd == "q"@ || cmd == "quit"@ || cmd == "q!"@ || cmd == "quit!"@
}

/// The fixed command vocabulary that opens the help overlay.
pub open spec fn is_help_command(cmd: Seq<char>) -> bool {
    cmd == "help"@ || cmd == "h"@
}

/// The status-line message for an unrecognized command.
pub open spec fn unknown_command_error(cmd: Seq<char>) -> Seq<char> {
    "Unknown command: "@ + cmd
}

/// Executing the trimmed command buffer against the fixed vocabulary.
/// Quit commands request shutdown; help opens the overlay and leaves
/// command mode; anything else records an error and stays in command
/// mode with the buffer intact for correction.
pub open spec fn run_command(s: AppV) -> AppV {
    let cmd = trim_spec(s.command_buffer);
    if is_quit_command(cmd) {
        AppV { running: false, ..s }
    } else if is_help_command(cmd) {
        AppV { show_help: true, mode: Mode::Normal, command_buffer: Seq::empty(), ..s }
    } else {
        AppV { command_error: Some(unknown_command_error(cmd)), ..s }
    }
}

/// One key in command mode.
pub open spec fn step_command(s: AppV, k: Key) -> AppV {
    if k == Key::Esc {
        AppV { mode: Mode::Normal, command_buffer: Seq::empty(), command_error: None, ..s }
    } else if k == Key::Enter {
        run_command(s)
    } else if k == Key::Backspace {
        let b = if s.command_buffer.len() > 0 { s.command_buffer.drop_last() } else {
            s.command_buffer
        };
        AppV { command_buffer: b, mode: if b.len() == 0 { Mode::Normal } else { s.mode }, ..s }
    } else if k is Char {
        AppV { command_buffer: s.command_buffer.push(k->Char_0), command_error: None, ..s }
    } else {
        s
    }
}

/// The first tab whose category is `node`, if one is open.
pub open spec fn first_tab_index(tabs: Seq<TabV>, node: TreeNode) -> Option<int>
    decreases tabs.len(),
{
    if tabs.len() == 0 {
        None
    } else if tabs[0].node == node {
        Some(0)
    } else {
        match first_tab_index(tabs.drop_first(), node) {
            Some(i) => Some(i + 1),
            None => None,
        }
    }
}

/// The first position of `node` in the navigator's section list.
pub open spec fn first_node_index(nodes: Seq<TreeNode>, node: TreeNode) -> Option<int>
    decreases nodes.len(),
{
    if nodes.len() == 0 {
        None
    } else if nodes[0] == node {
        Some(0)
    } else {
        match first_node_index(nodes.drop_first(), node) {
            Some(i) => Some(i + 1),
            None => None,
        }
    }
}

/// Opening a category: activate its tab if one exists, otherwise
/// append a fresh tab and activate that.  The navigator selection is
/// moved to the category and focus moves to the tab workspace.  Tab
/// order is strict insertion order; nothing is ever reordered.
pub open spec fn open_tab(s: AppV, node: TreeNode) -> AppV {
    let opened = match first_tab_index(s.tabs, node) {
        Some(i) => AppV { active_tab_index: i, ..s },
        None => AppV {
            tabs: s.tabs.push(TabV { node, scroll_offset: 0, selected_item: 0 }),
            active_tab_index: s.tabs.len() as int,
            ..s
        },
    };
    let sel = match first_node_index(s.tree_nodes, node) {
        Some(i) => i,
        None => s.selected_tree_index,
    };
    AppV { selected_tree_index: sel, focus: Focus::Tabs, ..opened }
}

/// The tab index (1 through 9) a digit key addresses, or 0.
pub open spec fn digit_value(c: char) -> int {
    if c == '1' {
        1
    } else if c == '2' {
        2
    } else if c == '3' {
        3
    } else if c == '4' {
        4
    } else if c == '5' {
        5
    } else if c == '6' {
        6
    } else if c == '7' {
        7
    } else if c == '8' {
        8
    } else if c == '9' {
        9
    } else {
        0
    }
}

/// One key in the navigator pane.
pub open spec fn step_tree(s: AppV, k: Key) -> AppV {
    if k == Key::Up || k == Key::Char('k') {
        if s.selected_tree_index > 0 {
            AppV { selected_tree_index: s.selected_tree_index - 1, ..s }
        } else {
            s
        }
    } else if k == Key::Down || k == Key::Char('j') {
        if s.selected_tree_index < s.tree_nodes.len() - 1 {
            AppV { selected_tree_index: s.selected_tree_index + 1, ..s }
        } else {
            s
        }
    } else if k == Key::Enter || k == Key::Right {
        open_tab(s, s.tree_nodes[s.selected_tree_index])
    } else if k matches Key::Char(c) && 1 <= digit_value(c) <= s.tabs.len() {
        AppV { active_tab_index: digit_value(k->Char_0) - 1, focus: Focus::Tabs, ..s }
    } else {
        s
    }
}

/// Row selection moving up in the active tab: the selection decrements
/// (clamped at 0) and pulls the scroll offset up behind it.
pub open spec fn tab_row_up(s: AppV) -> AppV {
    let t = s.tabs[s.active_tab_index];
    let sel = if t.selected_item > 0 { t.selected_item - 1 } else { t.selected_item };
    let scr = if sel < t.scroll_offset { sel } else { t.scroll_offset };
    AppV {
        tabs: s.tabs.update(
            s.active_tab_index,
            TabV { node: t.node, scroll_offset: scr, selected_item: sel },
        ),
        ..s
    }
}

/// Row selection moving down in the active tab: the selection
/// increments without an upper clamp against the live row count,
/// saturating only at the numeric limit.
pub open spec fn tab_row_down(s: AppV) -> AppV {
    let t = s.tabs[s.active_tab_index];
    let sel = if t.selected_item < usize::MAX { t.selected_item + 1 } else { t.selected_item };
    AppV {
        tabs: s.tabs.update(
            s.active_tab_index,
            TabV { node: t.node, scroll_offset: t.scroll_offset, selected_item: sel },
        ),
        ..s
    }
}

/// Enter on the Devices tab: open the detail popup for the selected
/// row, provided the snapshot has a device at that index.
pub open spec fn try_open_device_popup(s: AppV) -> AppV {
    let t = s.tabs[s.active_tab_index];
    if t.node == TreeNode::Devices && s.device_count > 0 && t.selected_item < s.device_count {
        AppV { show_device_popup: true, selected_device_index: Some(t.selected_item), ..s }
    } else {
        s
    }
}

/// A kill key on the Processes tab: open the confirmation popup,
/// capturing the pid and name of the process at the selected row,
/// provided the snapshot has a process there.
pub open spec fn try_open_kill_confirm(s: AppV) -> AppV {
    let t = s.tabs[s.active_tab_index];
    if t.node == TreeNode::Processes && s.procs.len() > 0 && t.selected_item < s.procs.len() {
        let p = s.procs[t.selected_item];
        AppV {
            show_kill_confirm: true,
            kill_target_pid: Some(p.pid),
            kill_target_name: Some(p.name),
            ..s
        }
    } else {
        s
    }
}

/// Closing the active tab: a no-op when it is the only one; otherwise
/// the tab is removed and the active index is re-targeted to a valid
/// neighbour.
pub open spec fn close_tab(s: AppV) -> AppV {
    if s.tabs.len() > 1 {
        let tabs = s.tabs.remove(s.active_tab_index);
        let active = if s.active_tab_index >= tabs.len() {
            tabs.len() - 1
        } else {
            s.active_tab_index
        };
        AppV { tabs: tabs, active_tab_index: active, ..s }
    } else {
        s
    }
}

/// One key in the tab workspace.
pub open spec fn step_tabs(s: AppV, k: Key) -> AppV {
    if k == Key::Left || k == Key::Char('h') {
        if s.active_tab_index > 0 {
            AppV { active_tab_index: s.active_tab_index - 1, ..s }
        } else {
            s
        }
    } else if k == Key::Right || k == Key::Char('l') {
        if s.active_tab_index < s.tabs.len() - 1 {
            AppV { active_tab_index: s.active_tab_index + 1, ..s }
        } else {
            s
        }
    } else if k == Key::Up || k == Key::Char('k') {
        tab_row_up(s)
    } else if k == Key::Down || k == Key::Char('j') {
        tab_row_down(s)
    } else if k == Key::Enter {
        try_open_device_popup(s)
    } else if k == Key::Char('x') || k == Key::Char('X') || k == Key::Delete {
        try_open_kill_confirm(s)
    } else if k == Key::Char('w') {
        close_tab(s)
    } else if k matches Key::Char(c) && 1 <= digit_value(c) <= s.tabs.len() {
        AppV { active_tab_index: digit_value(k->Char_0) - 1, ..s }
    } else {
        s
    }
}

/// The category a shortcut key addresses, when `k` is a character key.
pub open spec fn shortcut_of(k: Key) -> Option<TreeNode> {
    match k {
        Key::Char(c) => from_shortcut_spec(c),
        _ => None,
    }
}

/// The other pane.
pub open spec fn toggle_focus(f: Focus) -> Focus {
    match f {
        Focus::Tree => Focus::Tabs,
        Focus::Tabs => Focus::Tree,
    }
}

/// One key in normal mode, with the dispatch precedence: the kill
/// confirmation intercepts everything, then the device popup, then the
/// global keys, then the help overlay swallows the rest, then category
/// shortcuts (navigator focus only), then the focused pane's handler.
/// Every key first clears the transient status message.
pub open spec fn step_normal(s: AppV, k: Key) -> (AppV, Option<KillReqV>) {
    let s0 = AppV { status_message: None, ..s };
    if s0.show_kill_confirm {
        if k == Key::Char('y') || k == Key::Char('Y') {
            (
                AppV {
                    show_kill_confirm: false,
                    kill_target_pid: None,
                    kill_target_name: None,
                    ..s0
                },
                Some(
                    KillReqV {
                        pid: s0.kill_target_pid.unwrap(),
                        name: s0.kill_target_name.unwrap(),
                    },
                ),
            )
        } else if k == Key::Char('n') || k == Key::Char('N') || k == Key::Esc {
            (
                AppV {
                    show_kill_confirm: false,
                    kill_target_pid: None,
                    kill_target_name: None,
                    ..s0
                },
                None,
            )
        } else {
            (s0, None)
        }
    } else if s0.show_device_popup {
        if k == Key::Esc || k == Key::Enter || k == Key::Char('q') {
            (AppV { show_device_popup: false, selected_device_index: None, ..s0 }, None)
        } else {
            (s0, None)
        }
    } else if k == Key::Char(':') {
        (
            AppV { mode: Mode::Command, command_buffer: Seq::empty(), command_error: None, ..s0 },
            None,
        )
    } else if k == Key::Char('?') {
        (AppV { show_help: !s0.show_help, ..s0 }, None)
    } else if k == Key::Esc && s0.show_help {
        (AppV { show_help: false, ..s0 }, None)
    } else if k == Key::Tab {
        (AppV { focus: toggle_focus(s0.focus), ..s0 }, None)
    } else if s0.show_help {
        (s0, None)
    } else if s0.focus == Focus::Tree && shortcut_of(k).is_some() {
        (open_tab(s0, shortcut_of(k).unwrap()), None)
    } else if s0.focus == Focus::Tree {
        (step_tree(s0, k), None)
    } else {
        (step_tabs(s0, k), None)
    }
}

/// One key event: command mode reads the command line; normal mode
/// runs the modal/global/pane dispatch.  Beside the successor state,
/// the result carries the kill request handed out when the user
/// confirms the kill dialog — the only effect the controller asks of
/// its embedding.
pub open spec fn step(s: AppV, k: Key) -> (AppV, Option<KillReqV>) {
    match s.mode {
        Mode::Command => (step_command(s, k), None),
        Mode::Normal => step_normal(s, k),
    }
}

/// What [`first_tab_index`] returns: the first matching position, with
/// nothing matching before it, or `None` when no tab matches.
pub proof fn lemma_first_tab_index(tabs: Seq<TabV>, node: TreeNode)
    ensures
        match first_tab_index(tabs, node) {
            Some(i) => 0 <= i < tabs.len() && tabs[i].node == node && (forall|j: int|
                0 <= j < i ==> (#[trigger] tabs[j]).node != node),
            None => forall|j: int| 0 <= j < tabs.len() ==> (#[trigger] tabs[j]).node != node,
        },
    decreases tabs.len(),
{
    if tabs.len() > 0 && tabs[0].node != node {
        let rest = tabs.drop_first();
        lemma_first_tab_index(rest, node);
        match first_tab_index(rest, node) {
            Some(i) => {
                assert(tabs[i + 1] == rest[i]);
                assert forall|j: int| 0 <= j < i + 1 implies (#[trigger] tabs[j]).node
                    != node by {
                    if j > 0 {
                        assert(tabs[j] == rest[j - 1]);
                    }
                }
            },
            None => {
                assert forall|j: int| 0 <= j < tabs.len() implies (#[trigger] tabs[j]).node
                    != node by {
                    if j > 0 {
                        assert(tabs[j] == rest[j - 1]);
                    }
                }
            },
        }
    }
}

/// What [`first_node_index`] returns, in the same shape.
pub proof fn lemma_first_node_index(nodes: Seq<TreeNode>, node: TreeNode)
    ensures
        match first_node_index(nodes, node) {
            Some(i) => 0 <= i < nodes.len() && nodes[i] == node && (forall|j: int|
                0 <= j < i ==> nodes[j] != node),
            None => forall|j: int| 0 <= j < nodes.len() ==> nodes[j] != node,
        },
    decreases nodes.len(),
{
    if nodes.len() > 0 && nodes[0] != node {
        let rest = nodes.drop_first();
        lemma_first_node_index(rest, node);
        match first_node_index(rest, node) {
            Some(i) => {
                assert(nodes[i + 1] == rest[i]);
                assert forall|j: int| 0 <= j < i + 1 implies nodes[j] != node by {
                    if j > 0 {
                        assert(nodes[j] == rest[j - 1]);
                    }
                }
            },
            None => {
                assert forall|j: int| 0 <= j < nodes.len() implies nodes[j] != node by {
                    if j > 0 {
                        assert(nodes[j] == rest[j - 1]);
                    }
                }
            },
        }
    }
}

/// The status-line message recorded for each kill outcome.
pub open spec fn kill_message(pid: u32, name: Seq<char>, outcome: crate::state::KillOutcome)
    -> Seq<char> {
    match outcome {
        crate::state::KillOutcome::Killed => "Killed process "@ + name + " (PID: "@
            + crate::text::dec_spec(pid as nat) + ")"@,
        crate::state::KillOutcome::Failed(err) => "Failed to kill "@ + name + ": "@
            + trim_spec(err@),
        crate::state::KillOutcome::Error(err) => "Error killing "@ + name + ": "@ + err@,
    }
}

} // verus!
