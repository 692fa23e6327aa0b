//! The executable controller: the single consumer that owns all
//! navigation, modal and mode state.
//!
//! Every public method is proved to follow the transition function in
//! [`crate::model`] exactly, and to preserve the reachable-state
//! invariant.  The controller performs no side effect itself: a
//! confirmed kill is handed out as a [`KillRequest`] value, and the
//! embedding program reports back through
//! [`App::apply_kill_outcome`].

use vstd::prelude::*;
use crate::node::TreeNode;
use crate::state::Focus;
use crate::state::Key;
use crate::state::KillOutcome;
use crate::state::KillRequest;
use crate::state::Mode;
use crate::state::Tab;
use crate::system::SystemData;
use crate::model::AppV;
use crate::model::KillReqV;
use crate::model::inv;
use crate::model::init_state;
use crate::model::opt_index_view;
use crate::model::opt_string_view;
use crate::model::procs_view;
use crate::model::first_tab_index;
use crate::model::first_node_index;
use crate::model::lemma_first_tab_index;
use crate::model::lemma_first_node_index;
use crate::model::kill_message;
use crate::model::step;
use crate::model::step_command;
use crate::model::step_normal;
use crate::model::step_tree;
use crate::model::step_tabs;
use crate::model::run_command;
use crate::model::open_tab;
use crate::model::close_tab;
use crate::laws::lemma_step_preserves_inv;
use crate::laws::lemma_init_inv;
use crate::text::pop_char;
use crate::text::push_char;
use crate::text::trim;
use crate::text::u64_to_string;
use vstd::string::StringExecFns;

verus! {

/// The dashboard controller state.
pub struct App {
    pub running: bool,
    pub focus: Focus,
    pub mode: Mode,
    pub tree_nodes: Vec<TreeNode>,
    pub selected_tree_index: usize,
    pub tabs: Vec<Tab>,
    pub active_tab_index: usize,
    pub system_data: SystemData,
    pub show_help: bool,
    pub command_buffer: String,
    pub command_error: Option<String>,
    pub show_device_popup: bool,
    pub selected_device_index: Option<usize>,
    pub show_kill_confirm: bool,
    pub kill_target_pid: Option<u32>,
    pub kill_target_name: Option<String>,
    pub status_message: Option<String>,
}

impl View for App {
    type V = AppV;

    open spec fn view(&self) -> AppV {
        AppV {
            running: self.running,
            focus: self.focus,
            mode: self.mode,
            tree_nodes: self.tree_nodes@,
            selected_tree_index: self.selected_tree_index as int,
            tabs: self.tabs@.map_values(|t: Tab| t@),
            active_tab_index: self.active_tab_index as int,
            show_help: self.show_help,
            command_buffer: self.command_buffer@,
            command_error: opt_string_view(self.command_error),
            show_device_popup: self.show_device_popup,
            selected_device_index: opt_index_view(self.selected_device_index),
            show_kill_confirm: self.show_kill_confirm,
            kill_target_pid: self.kill_target_pid,
            kill_target_name: opt_string_view(self.kill_target_name),
            status_message: opt_string_view(self.status_message),
            device_count: self.system_data.devices@.len() as int,
            procs: procs_view(self.system_data.processes@),
        }
    }
}

impl App {
    /// The reachable-state invariant, on the controller's ghost image.
    pub open spec fn wf(&self) -> bool {
        inv(self@)
    }

    /// The initial controller: one Overview tab, navigator focus,
    /// normal mode, an empty snapshot.  The data provider fills the
    /// snapshot through [`App::set_system_data`].
    pub fn new() -> (r: App)
        ensures
            r@ == init_state(),
            r.wf(),
    {
        let tree_nodes = TreeNode::all();
        let mut tabs: Vec<Tab> = Vec::new();
        tabs.push(Tab::new(TreeNode::Overview));
        let app = App {
            running: true,
            focus: Focus::Tree,
            mode: Mode::Normal,
            tree_nodes,
            selected_tree_index: 0,
            tabs,
            active_tab_index: 0,
            system_data: SystemData::new(),
            show_help: false,
            command_buffer: String::new(),
            command_error: None,
            show_device_popup: false,
            selected_device_index: None,
            show_kill_confirm: false,
            kill_target_pid: None,
            kill_target_name: None,
            status_message: None,
        };
        proof {
            assert(app@ =~~= init_state());
            lemma_init_inv();
        }
        app
    }

    /// Replace the snapshot the controller reads.  Everything but the
    /// snapshot-derived parts of the state is untouched.
    pub fn set_system_data(&mut self, data: SystemData)
        requires
            old(self).wf(),
        ensures
            final(self).wf(),
            final(self)@ == (AppV {
                device_count: data.devices@.len() as int,
                procs: procs_view(data.processes@),
                ..old(self)@
            }),
            final(self).system_data == data,
    {
        self.system_data = data;
        proof {
            assert(self@ =~~= (AppV {
                device_count: self.system_data.devices@.len() as int,
                procs: procs_view(self.system_data.processes@),
                ..old(self)@
            }));
        }
    }

    /// The active tab, present whenever the active index is in range
    /// (the invariant keeps it so).
    pub fn active_tab(&self) -> (r: Option<&Tab>)
        ensures
            (if 0 <= self@.active_tab_index < self@.tabs.len() {
                r matches Some(t) && t@ == self@.tabs[self@.active_tab_index]
            } else {
                r is None
            }),
    {
        if self.active_tab_index < self.tabs.len() {
            Some(&self.tabs[self.active_tab_index])
        } else {
            None
        }
    }

    /// Handle one key event: exactly the transition [`step`] describes.
    /// The result is the kill request handed out when the user
    /// confirms the kill dialog, and `None` otherwise.
    pub fn handle_key(&mut self, key: Key) -> (r: Option<KillRequest>)
        requires
            old(self).wf(),
        ensures
            final(self).wf(),
            final(self)@ == step(old(self)@, key).0,
            (match r {
                Some(kr) => step(old(self)@, key).1 == Some(kr@),
                None => step(old(self)@, key).1 is None,
            }),
    {
        let ghost s_in = self@;
        let r = match self.mode {
            Mode::Command => {
                self.handle_command_key(key);
                None
            },
            Mode::Normal => self.handle_normal_key(key),
        };
        proof {
            lemma_step_preserves_inv(s_in, key);
        }
        r
    }

    /// Report the outcome of a confirmed kill.  The outcome is
    /// recorded as the transient status message; nothing else changes.
    /// The embedding program must follow this with a full data
    /// refresh, whatever the outcome.
    pub fn apply_kill_outcome(&mut self, pid: u32, name: &str, outcome: KillOutcome)
        requires
            old(self).wf(),
        ensures
            final(self).wf(),
            final(self)@ == (AppV {
                status_message: Some(kill_message(pid, name@, outcome)),
                ..old(self)@
            }),
    {
        let msg = match &outcome {
            KillOutcome::Killed => String::from_str("Killed process ").concat(name).concat(
                " (PID: ",
            ).concat(u64_to_string(pid as u64).as_str()).concat(")"),
            KillOutcome::Failed(err) => String::from_str("Failed to kill ").concat(name).concat(
                ": ",
            ).concat(trim(err.as_str())),
            KillOutcome::Error(err) => String::from_str("Error killing ").concat(name).concat(
                ": ",
            ).concat(err.as_str()),
        };
        self.status_message = Some(msg);
        proof {
            assert(self@ =~~= (AppV {
                status_message: Some(kill_message(pid, name@, outcome)),
                ..old(self)@
            }));
        }
    }

    /// One key on the command line.
    fn handle_command_key(&mut self, key: Key)
        requires
            old(self).wf(),
            old(self).mode == Mode::Command,
        ensures
            final(self)@ == step_command(old(self)@, key),
    {
        match key {
            Key::Esc => {
                self.mode = Mode::Normal;
                self.command_buffer = String::new();
                self.command_error = None;
                proof {
                    assert(self@ =~~= step_command(old(self)@, key));
                }
            },
            Key::Enter => {
                self.execute_command();
            },
            Key::Backspace => {
                let _ = pop_char(&mut self.command_buffer);
                if self.command_buffer.as_str().is_empty() {
                    self.mode = Mode::Normal;
                }
                proof {
                    assert(self@ =~~= step_command(old(self)@, key));
                }
            },
            Key::Char(c) => {
                push_char(&mut self.command_buffer, c);
                self.command_error = None;
                proof {
                    assert(self@ =~~= step_command(old(self)@, key));
                }
            },
            _ => {
                proof {
                    assert(self@ =~~= step_command(old(self)@, key));
                }
            },
        }
    }

    /// Execute the trimmed command buffer against the fixed
    /// vocabulary.
    fn execute_command(&mut self)
        requires
            old(self).wf(),
            old(self).mode == Mode::Command,
        ensures
            final(self)@ == run_command(old(self)@),
    {
        let cmd = trim(self.command_buffer.as_str()).to_owned();
        if cmd == String::from_str("q") || cmd == String::from_str("quit") || cmd
            == String::from_str("q!") || cmd == String::from_str("quit!") {
            self.running = false;
        } else if cmd == String::from_str("help") || cmd == String::from_str("h") {
            self.show_help = true;
            self.mode = Mode::Normal;
            self.command_buffer = String::new();
        } else {
            self.command_error = Some(String::from_str("Unknown command: ").concat(cmd.as_str()));
        }
        proof {
            assert(self@ =~~= run_command(old(self)@));
        }
    }

    /// One key in normal mode: the modal/global/pane dispatch.
    fn handle_normal_key(&mut self, key: Key) -> (r: Option<KillRequest>)
        requires
            old(self).wf(),
            old(self).mode == Mode::Normal,
        ensures
            final(self)@ == step_normal(old(self)@, key).0,
            (match r {
                Some(kr) => step_normal(old(self)@, key).1 == Some(kr@),
                None => step_normal(old(self)@, key).1 is None,
            }),
    {
        self.status_message = None;
        proof {
            assert(self@ =~~= (AppV { status_message: None, ..old(self)@ }));
        }

        if self.show_kill_confirm {
            match key {
                Key::Char('y') | Key::Char('Y') => {
                    let pid = match self.kill_target_pid {
                        Some(p) => p,
                        None => {
                            proof {
                                assert(false);
                            }
                            0
                        },
                    };
                    let name = match &self.kill_target_name {
                        Some(n) => n.clone(),
                        None => {
                            proof {
                                assert(false);
                            }
                            String::new()
                        },
                    };
                    self.show_kill_confirm = false;
                    self.kill_target_pid = None;
                    self.kill_target_name = None;
                    proof {
                        assert(self@ =~~= step_normal(old(self)@, key).0);
                        assert(step_normal(old(self)@, key).1 == Some(
                            KillReqV { pid, name: name@ },
                        ));
                    }
                    return Some(KillRequest { pid, name });
                },
                Key::Char('n') | Key::Char('N') | Key::Esc => {
                    self.show_kill_confirm = false;
                    self.kill_target_pid = None;
                    self.kill_target_name = None;
                    proof {
                        assert(self@ =~~= step_normal(old(self)@, key).0);
                    }
                    return None;
                },
                _ => {
                    return None;
                },
            }
        }

        if self.show_device_popup {
            match key {
                Key::Esc | Key::Enter | Key::Char('q') => {
                    self.show_device_popup = false;
                    self.selected_device_index = None;
                    proof {
                        assert(self@ =~~= step_normal(old(self)@, key).0);
                    }
                    return None;
                },
                _ => {
                    return None;
                },
            }
        }

        if key == Key::Char(':') {
            self.mode = Mode::Command;
            self.command_buffer = String::new();
            self.command_error = None;
            proof {
                assert(self@ =~~= step_normal(old(self)@, key).0);
            }
            return None;
        }
        if key == Key::Char('?') {
            self.show_help = !self.show_help;
            proof {
                assert(self@ =~~= step_normal(old(self)@, key).0);
            }
            return None;
        }
        if key == Key::Esc && self.show_help {
            self.show_help = false;
            proof {
                assert(self@ =~~= step_normal(old(self)@, key).0);
            }
            return None;
        }
        if key == Key::Tab {
            self.focus = match self.focus {
                Focus::Tree => Focus::Tabs,
                Focus::Tabs => Focus::Tree,
            };
            proof {
                assert(self@ =~~= step_normal(old(self)@, key).0);
            }
            return None;
        }

        if self.show_help {
            return None;
        }

        if self.focus == Focus::Tree {
            if let Key::Char(c) = key {
                match TreeNode::from_shortcut(c) {
                    Some(node) => {
                        self.open_tab_by_node(node);
                        return None;
                    },
                    None => {},
                }
            }
        }

        match self.focus {
            Focus::Tree => {
                self.handle_tree_key(key);
                None
            },
            Focus::Tabs => {
                self.handle_tabs_key(key);
                None
            },
        }
    }

    /// One key in the navigator pane.
    fn handle_tree_key(&mut self, key: Key)
        requires
            old(self).wf(),
        ensures
            final(self)@ == step_tree(old(self)@, key),
    {
        match key {
            Key::Up | Key::Char('k') => {
                if self.selected_tree_index > 0 {
                    self.selected_tree_index = self.selected_tree_index - 1;
                }
            },
            Key::Down | Key::Char('j') => {
                if self.selected_tree_index < self.tree_nodes.len() - 1 {
                    self.selected_tree_index = self.selected_tree_index + 1;
                }
            },
            Key::Enter | Key::Right => {
                let node = self.tree_nodes[self.selected_tree_index];
                self.open_tab_by_node(node);
            },
            Key::Char(c) => {
                let idx = tab_digit(c);
                if idx > 0 && idx <= self.tabs.len() {
                    self.active_tab_index = idx - 1;
                    self.focus = Focus::Tabs;
                }
            },
            _ => {},
        }
        proof {
            assert(self@ =~~= step_tree(old(self)@, key));
        }
    }

    /// One key in the tab workspace.
    fn handle_tabs_key(&mut self, key: Key)
        requires
            old(self).wf(),
        ensures
            final(self)@ == step_tabs(old(self)@, key),
    {
        match key {
            Key::Left | Key::Char('h') => {
                if self.active_tab_index > 0 {
                    self.active_tab_index = self.active_tab_index - 1;
                }
            },
            Key::Right | Key::Char('l') => {
                if self.active_tab_index < self.tabs.len() - 1 {
                    self.active_tab_index = self.active_tab_index + 1;
                }
            },
            Key::Up | Key::Char('k') => {
                let a = self.active_tab_index;
                let mut t = self.tabs[a];
                if t.selected_item > 0 {
                    t.selected_item = t.selected_item - 1;
                }
                if t.selected_item < t.scroll_offset as usize {
                    t.scroll_offset = t.selected_item as u16;
                }
                self.tabs[a] = t;
            },
            Key::Down | Key::Char('j') => {
                let a = self.active_tab_index;
                let mut t = self.tabs[a];
                if t.selected_item < usize::MAX {
                    t.selected_item = t.selected_item + 1;
                }
                self.tabs[a] = t;
            },
            Key::Enter => {
                let t = self.tabs[self.active_tab_index];
                if t.node == TreeNode::Devices {
                    let device_count = self.system_data.devices.len();
                    if device_count > 0 && t.selected_item < device_count {
                        self.selected_device_index = Some(t.selected_item);
                        self.show_device_popup = true;
                    }
                }
            },
            Key::Char('x') | Key::Char('X') | Key::Delete => {
                let t = self.tabs[self.active_tab_index];
                if t.node == TreeNode::Processes {
                    let process_count = self.system_data.processes.len();
                    if process_count > 0 && t.selected_item < process_count {
                        let pid = self.system_data.processes[t.selected_item].pid;
                        let name = self.system_data.processes[t.selected_item].name.clone();
                        self.kill_target_pid = Some(pid);
                        self.kill_target_name = Some(name);
                        self.show_kill_confirm = true;
                    }
                }
            },
            Key::Char('w') => {
                self.close_current_tab();
            },
            Key::Char(c) => {
                let idx = tab_digit(c);
                if idx > 0 && idx <= self.tabs.len() {
                    self.active_tab_index = idx - 1;
                }
            },
            _ => {},
        }
        proof {
            assert(self@ =~~= step_tabs(old(self)@, key));
        }
    }

    /// Open or activate the tab for `node`, exactly as
    /// [`open_tab`] describes.
    fn open_tab_by_node(&mut self, node: TreeNode)
        requires
            old(self).wf(),
        ensures
            final(self)@ == open_tab(old(self)@, node),
    {
        let ghost s = self@;
        proof {
            lemma_first_tab_index(s.tabs, node);
            lemma_first_node_index(s.tree_nodes, node);
        }

        let n = self.tabs.len();
        let mut i: usize = 0;
        while i < n && !(self.tabs[i].node == node)
            invariant
                0 <= i <= n,
                n == self.tabs.len(),
                self@ == s,
                forall|j: int| 0 <= j < i ==> (#[trigger] s.tabs[j]).node != node,
            decreases n - i,
        {
            proof {
                assert(s.tabs[i as int] == self.tabs@.map_values(|t: Tab| t@)[i as int]);
            }
            i = i + 1;
        }
        if i < n {
            proof {
                assert(s.tabs[i as int].node == node);
                assert(first_tab_index(s.tabs, node) == Some(i as int));
            }
            self.active_tab_index = i;
        } else {
            proof {
                assert(first_tab_index(s.tabs, node) is None);
            }
            self.tabs.push(Tab::new(node));
            self.active_tab_index = self.tabs.len() - 1;
        }

        let m = self.tree_nodes.len();
        let mut j: usize = 0;
        while j < m && !(self.tree_nodes[j] == node)
            invariant
                0 <= j <= m,
                m == self.tree_nodes.len(),
                self.tree_nodes@ == s.tree_nodes,
                forall|k: int| 0 <= k < j ==> s.tree_nodes[k] != node,
            decreases m - j,
        {
            j = j + 1;
        }
        if j < m {
            proof {
                assert(first_node_index(s.tree_nodes, node) == Some(j as int));
            }
            self.selected_tree_index = j;
        } else {
            proof {
                assert(first_node_index(s.tree_nodes, node) is None);
            }
        }

        self.focus = Focus::Tabs;
        proof {
            assert(self@ =~~= open_tab(s, node));
        }
    }

    /// Close the active tab, exactly as [`close_tab`] describes.
    fn close_current_tab(&mut self)
        requires
            old(self).wf(),
        ensures
            final(self)@ == close_tab(old(self)@),
    {
        if self.tabs.len() > 1 {
            self.tabs.remove(self.active_tab_index);
            if self.active_tab_index >= self.tabs.len() {
                self.active_tab_index = self.tabs.len() - 1;
            }
        }
        proof {
            assert(self@ =~~= close_tab(old(self)@));
        }
    }
}

/// The tab index (1 through 9) a digit key addresses, or 0 for any
/// other character.
fn tab_digit(c: char) -> (d: usize)
    ensures
        d == crate::model::digit_value(c),
{
    if c == '1' {
        1
    } else if c == '2' {
        2
    } else if c == '3' {
        3
    } else if c == '4' {
        4
    } else if c == '5' {
        5
    } else if c == '6' {
        6
    } else if c == '7' {
        7
    } else if c == '8' {
        8
    } else if c == '9' {
        9
    } else {
        0
    }
}

} // verus!
