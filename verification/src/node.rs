//! The fixed set of monitor sections and their display metadata.
//!
//! The set is closed: it is defined once and never changes at runtime.
//! Every accessor is a pure lookup with an exact contract.

use vstd::prelude::*;

verus! {

/// One of the monitor sections offered by the navigator tree.
#[derive(Debug, Clone, Copy, PartialEq, Eq, Structural)]
pub enum TreeNode {
    Overview,
    Cpu,
    Memory,
    Disks,
    Network,
    Processes,
    Devices,
    Logs,
}

/// The canonical order in which the sections appear in the navigator.
pub open spec fn tree_order() -> Seq<TreeNode> {
    seq![
        TreeNode::Overview,
        TreeNode::Cpu,
        TreeNode::Memory,
        TreeNode::Disks,
        TreeNode::Network,
        TreeNode::Processes,
        TreeNode::Devices,
        TreeNode::Logs,
    ]
}

/// The display name of a section.
pub open spec fn name_spec(n: TreeNode) -> Seq<char> {
    match n {
        TreeNode::Overview => "Overview"@,
        TreeNode::Cpu => "CPU"@,
        TreeNode::Memory => "Memory"@,
        TreeNode::Disks => "Disks"@,
        TreeNode::Network => "Network"@,
        TreeNode::Processes => "Processes"@,
        TreeNode::Devices => "Devices"@,
        TreeNode::Logs => "Logs"@,
    }
}

/// The icon shown next to a section in the navigator.
pub open spec fn icon_spec(n: TreeNode) -> Seq<char> {
    match n {
        TreeNode::Overview => "[*]"@,
        TreeNode::Cpu => "[C]"@,
        TreeNode::Memory => "[M]"@,
        TreeNode::Disks => "[D]"@,
        TreeNode::Network => "[N]"@,
        TreeNode::Processes => "[P]"@,
        TreeNode::Devices => "[V]"@,
        TreeNode::Logs => "[L]"@,
    }
}

/// The single-character shortcut that opens a section directly.
pub open spec fn shortcut_spec(n: TreeNode) -> char {
    match n {
        TreeNode::Overview => '*',
        TreeNode::Cpu => 'c',
        TreeNode::Memory => 'm',
        TreeNode::Disks => 'd',
        TreeNode::Network => 'n',
        TreeNode::Processes => 'p',
        TreeNode::Devices => 'v',
        TreeNode::Logs => 'l',
    }
}

/// The section a shortcut character selects, if any.  Letter shortcuts
/// are recognized in either case.
pub open spec fn from_shortcut_spec(key: char) -> Option<TreeNode> {
    if key == '*' {
        Some(TreeNode::Overview)
    } else if key == 'c' || key == 'C' {
        Some(TreeNode::Cpu)
    } else if key == 'm' || key == 'M' {
        Some(TreeNode::Memory)
    } else if key == 'd' || key == 'D' {
        Some(TreeNode::Disks)
    } else if key == 'n' || key == 'N' {
        Some(TreeNode::Network)
    } else if key == 'p' || key == 'P' {
        Some(TreeNode::Processes)
    } else if key == 'v' || key == 'V' {
        Some(TreeNode::Devices)
    } else if key == 'l' || key == 'L' {
        Some(TreeNode::Logs)
    } else {
        None
    }
}

impl TreeNode {
    /// Every section, in navigator order.
    pub fn all() -> (r: Vec<TreeNode>)
        ensures
            r@ == tree_order(),
    {
        let mut r: Vec<TreeNode> = Vec::new();
        r.push(TreeNode::Overview);
        r.push(TreeNode::Cpu);
        r.push(TreeNode::Memory);
        r.push(TreeNode::Disks);
        r.push(TreeNode::Network);
        r.push(TreeNode::Processes);
        r.push(TreeNode::Devices);
        r.push(TreeNode::Logs);
        proof {
            assert(r@ =~= tree_order());
        }
        r
    }

    /// The display name of this section.
    pub fn name(&self) -> (r: &'static str)
        ensures
            r@ == name_spec(*self),
    {
        match self {
            TreeNode::Overview => "Overview",
            TreeNode::Cpu => "CPU",
            TreeNode::Memory => "Memory",
            TreeNode::Disks => "Disks",
            TreeNode::Network => "Network",
            TreeNode::Processes => "Processes",
            TreeNode::Devices => "Devices",
            TreeNode::Logs => "Logs",
        }
    }

    /// The icon shown next to this section.
    pub fn icon(&self) -> (r: &'static str)
        ensures
            r@ == icon_spec(*self),
    {
        match self {
            TreeNode::Overview => "[*]",
            TreeNode::Cpu => "[C]",
            TreeNode::Memory => "[M]",
            TreeNode::Disks => "[D]",
            TreeNode::Network => "[N]",
            TreeNode::Processes => "[P]",
            TreeNode::Devices => "[V]",
            TreeNode::Logs => "[L]",
        }
    }

    /// The shortcut character that opens this section.
    pub fn shortcut_key(&self) -> (r: char)
        ensures
            r == shortcut_spec(*self),
    {
        match self {
            TreeNode::Overview => '*',
            TreeNode::Cpu => 'c',
            TreeNode::Memory => 'm',
            TreeNode::Disks => 'd',
            TreeNode::Network => 'n',
            TreeNode::Processes => 'p',
            TreeNode::Devices => 'v',
            TreeNode::Logs => 'l',
        }
    }

    /// The section a shortcut character selects, if any.
    pub fn from_shortcut(key: char) -> (r: Option<TreeNode>)
        ensures
            r == from_shortcut_spec(key),
    {
        match key {
            '*' => Some(TreeNode::Overview),
            'c' | 'C' => Some(TreeNode::Cpu),
            'm' | 'M' => Some(TreeNode::Memory),
            'd' | 'D' => Some(TreeNode::Disks),
            'n' | 'N' => Some(TreeNode::Network),
            'p' | 'P' => Some(TreeNode::Processes),
            'v' | 'V' => Some(TreeNode::Devices),
            'l' | 'L' => Some(TreeNode::Logs),
            _ => None,
        }
    }
}

} // verus!
