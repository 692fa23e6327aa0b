//! The general laws of the controller, proved once about the
//! transition function [`step`] and therefore holding of every
//! reachable state of the executable controller.

use vstd::prelude::*;
use crate::node::TreeNode;
use crate::state::Key;
use crate::state::Mode;
use crate::model::AppV;
use crate::model::TabV;
use crate::model::inv;
use crate::model::init_state;
use crate::model::step;
use crate::model::step_tree;
use crate::model::open_tab;
use crate::model::close_tab;
use crate::model::first_tab_index;
use crate::model::lemma_first_tab_index;
use crate::model::lemma_first_node_index;

verus! {

/// The initial state satisfies the invariant: one tab is open, the
/// active index is valid, and no modal is shown.
pub proof fn lemma_init_inv()
    ensures
        inv(init_state()),
{
}

/// Opening a category preserves the invariant.
pub proof fn lemma_open_tab_preserves_inv(s: AppV, node: TreeNode)
    requires
        inv(s),
    ensures
        inv(open_tab(s, node)),
{
    lemma_first_tab_index(s.tabs, node);
    lemma_first_node_index(s.tree_nodes, node);
    if first_tab_index(s.tabs, node) is None {
        let tabs2 = open_tab(s, node).tabs;
        assert(forall|i: int, j: int|
            0 <= i < j < tabs2.len() ==> (#[trigger] tabs2[i]).node != (#[trigger] tabs2[j]).node);
    }
}

/// A per-tab update that keeps the tab's category preserves the
/// invariant's conditions on the tab list.
proof fn lemma_update_keeps_nodes(tabs: Seq<TabV>, a: int, t: crate::model::TabV)
    requires
        0 <= a < tabs.len(),
        t.node == tabs[a].node,
        forall|i: int, j: int|
            0 <= i < j < tabs.len() ==> (#[trigger] tabs[i]).node != (#[trigger] tabs[j]).node,
    ensures
        forall|i: int, j: int|
            0 <= i < j < tabs.update(a, t).len() ==> (#[trigger] tabs.update(a, t)[i]).node != (
            #[trigger] tabs.update(a, t)[j]).node,
{
    let tabs2 = tabs.update(a, t);
    assert forall|i: int, j: int| 0 <= i < j < tabs2.len() implies (#[trigger] tabs2[i]).node != (
    #[trigger] tabs2[j]).node by {
        assert(tabs2[i].node == tabs[i].node);
        assert(tabs2[j].node == tabs[j].node);
    }
}

/// One key in the tab workspace preserves the invariant.
proof fn lemma_step_tabs_preserves_inv(s: AppV, k: Key)
    requires
        inv(s),
        s.mode == Mode::Normal,
        !s.show_kill_confirm,
        !s.show_device_popup,
        !s.show_help,
    ensures
        inv(crate::model::step_tabs(s, k)),
{
    let a = s.active_tab_index;
    if k == Key::Up || k == Key::Char('k') {
        let t = s.tabs[a];
        let sel = if t.selected_item > 0 { t.selected_item - 1 } else { t.selected_item };
        let scr = if sel < t.scroll_offset { sel } else { t.scroll_offset };
        lemma_update_keeps_nodes(s.tabs, a, crate::model::TabV { node: t.node, scroll_offset: scr, selected_item: sel });
    } else if k == Key::Down || k == Key::Char('j') {
        let t = s.tabs[a];
        let sel = if t.selected_item < usize::MAX { t.selected_item + 1 } else { t.selected_item };
        lemma_update_keeps_nodes(s.tabs, a, crate::model::TabV { node: t.node, scroll_offset: t.scroll_offset, selected_item: sel });
    } else if k == Key::Char('w') {
        let tabs2 = close_tab(s).tabs;
        if s.tabs.len() > 1 {
            assert forall|i: int, j: int| 0 <= i < j < tabs2.len() implies (
            #[trigger] tabs2[i]).node != (#[trigger] tabs2[j]).node by {
                if i < a {
                    assert(tabs2[i] == s.tabs[i]);
                } else {
                    assert(tabs2[i] == s.tabs[i + 1]);
                }
                if j < a {
                    assert(tabs2[j] == s.tabs[j]);
                } else {
                    assert(tabs2[j] == s.tabs[j + 1]);
                }
            }
        }
    }
}

/// One step from a state satisfying the invariant lands in a state
/// satisfying the invariant.  Together with [`lemma_init_inv`] this
/// gives the two state invariants: every reachable state keeps at
/// least one tab open with a valid active index, and at most one of
/// the help overlay, the device popup and the kill confirmation open.
pub proof fn lemma_step_preserves_inv(s: AppV, k: Key)
    requires
        inv(s),
    ensures
        inv(step(s, k).0),
{
    let s0 = AppV { status_message: None, ..s };
    if s.mode == Mode::Normal && !s0.show_kill_confirm && !s0.show_device_popup
        && !(k == Key::Char(':')) && !(k == Key::Char('?')) && !(k == Key::Esc && s0.show_help)
        && !(k == Key::Tab) && !s0.show_help {
        if s0.focus == crate::state::Focus::Tree {
            match crate::model::shortcut_of(k) {
                Some(node) => {
                    lemma_open_tab_preserves_inv(s0, node);
                },
                None => {
                    if k == Key::Enter || k == Key::Right {
                        lemma_open_tab_preserves_inv(s0, s0.tree_nodes[s0.selected_tree_index]);
                    }
                },
            }
        } else {
            lemma_step_tabs_preserves_inv(s0, k);
        }
    }
}

/// Opening a category whose tab is already open never duplicates the
/// tab: the tab list is unchanged and the existing tab, at its
/// original position, becomes active.
pub proof fn lemma_open_idempotent(s: AppV, node: TreeNode, i: int)
    requires
        inv(s),
        0 <= i < s.tabs.len(),
        s.tabs[i].node == node,
    ensures
        open_tab(s, node).tabs == s.tabs,
        open_tab(s, node).active_tab_index == i,
{
    lemma_first_tab_index(s.tabs, node);
}

/// In the navigator, Up (or `k`) with the selection already at the
/// first entry leaves the state unchanged.
pub proof fn lemma_tree_up_at_top_noop(s: AppV, k: Key)
    requires
        s.selected_tree_index == 0,
        k == Key::Up || k == Key::Char('k'),
    ensures
        step_tree(s, k) == s,
{
}

/// In the navigator, Down (or `j`) with the selection already at the
/// last entry leaves the state unchanged.
pub proof fn lemma_tree_down_at_bottom_noop(s: AppV, k: Key)
    requires
        s.selected_tree_index == s.tree_nodes.len() - 1,
        k == Key::Down || k == Key::Char('j'),
    ensures
        step_tree(s, k) == s,
{
}

/// Closing the sole remaining tab is a no-op.
pub proof fn lemma_close_sole_tab_noop(s: AppV)
    requires
        s.tabs.len() == 1,
    ensures
        close_tab(s) == s,
{
}

} // verus!
