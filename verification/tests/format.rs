use syscenter::node::TreeNode;
use syscenter::state::Tab;
use syscenter::system::format_bytes;
use syscenter::system::format_uptime;
use syscenter::system::sort_by_cpu_desc;
use syscenter::system::ProcessInfo;
use syscenter::system::SystemData;
use syscenter::text::u64_to_string;

#[test]
fn bytes_below_one_kilobyte_are_plain() {
    assert_eq!(format_bytes(0), "0 B");
    assert_eq!(format_bytes(1), "1 B");
    assert_eq!(format_bytes(512), "512 B");
    assert_eq!(format_bytes(1023), "1023 B");
}

#[test]
fn bytes_with_binary_units() {
    assert_eq!(format_bytes(1024), "1.00 KB");
    assert_eq!(format_bytes(1536), "1.50 KB");
    assert_eq!(format_bytes(1024 * 1024), "1.00 MB");
    assert_eq!(format_bytes(5 * 1024 * 1024 + 256 * 1024), "5.25 MB");
    assert_eq!(format_bytes(1024 * 1024 * 1024), "1.00 GB");
    assert_eq!(format_bytes(1024 * 1024 * 1024 * 1024), "1.00 TB");
}

#[test]
fn bytes_round_to_two_places() {
    // 1.999… KB rounds up and carries into the whole part.
    assert_eq!(format_bytes(2047), "2.00 KB");
    // 1.25 KB exactly.
    assert_eq!(format_bytes(1280), "1.25 KB");
    // Largest value stays within the TB branch.
    assert_eq!(format_bytes(u64::MAX), "16777216.00 TB");
}

#[test]
fn uptime_drops_leading_zero_parts() {
    assert_eq!(format_uptime(0), "0s");
    assert_eq!(format_uptime(59), "59s");
    assert_eq!(format_uptime(60), "1m 0s");
    assert_eq!(format_uptime(61), "1m 1s");
    assert_eq!(format_uptime(3600), "1h 0m 0s");
    assert_eq!(format_uptime(3661), "1h 1m 1s");
    assert_eq!(format_uptime(86400), "1d 0h 0m 0s");
    assert_eq!(format_uptime(90061), "1d 1h 1m 1s");
    assert_eq!(format_uptime(2 * 86400 + 3 * 3600 + 4 * 60 + 5), "2d 3h 4m 5s");
}

#[test]
fn decimal_rendering() {
    assert_eq!(u64_to_string(0), "0");
    assert_eq!(u64_to_string(7), "7");
    assert_eq!(u64_to_string(10), "10");
    assert_eq!(u64_to_string(90210), "90210");
    assert_eq!(u64_to_string(u64::MAX), "18446744073709551615");
}

fn proc(pid: u32, cpu: u32) -> ProcessInfo {
    ProcessInfo {
        pid,
        name: format!("p{}", pid),
        cpu_usage_hundredths: cpu,
        memory: 0,
        status: "Run".to_string(),
    }
}

#[test]
fn processes_sort_by_falling_cpu() {
    let mut v = vec![proc(1, 100), proc(2, 300), proc(3, 200), proc(4, 300)];
    sort_by_cpu_desc(&mut v);
    assert_eq!(v.len(), 4);
    let cpus: Vec<u32> = v.iter().map(|p| p.cpu_usage_hundredths).collect();
    assert_eq!(cpus, vec![300, 300, 200, 100]);
    let mut pids: Vec<u32> = v.iter().map(|p| p.pid).collect();
    pids.sort();
    assert_eq!(pids, vec![1, 2, 3, 4]);
}

#[test]
fn sorting_empty_and_single() {
    let mut v: Vec<ProcessInfo> = Vec::new();
    sort_by_cpu_desc(&mut v);
    assert!(v.is_empty());
    let mut one = vec![proc(9, 50)];
    sort_by_cpu_desc(&mut one);
    assert_eq!(one[0].pid, 9);
}

#[test]
fn empty_snapshot() {
    let data = SystemData::new();
    assert!(data.cpus.is_empty());
    assert!(data.processes.is_empty());
    assert!(data.devices.is_empty());
    assert!(data.logs.is_empty());
    assert_eq!(data.memory.total, 0);
    assert_eq!(data.overview.cpu_count, 0);
}

#[test]
fn fresh_tab_is_zeroed() {
    let t = Tab::new(TreeNode::Disks);
    assert_eq!(t.node, TreeNode::Disks);
    assert_eq!(t.scroll_offset, 0);
    assert_eq!(t.selected_item, 0);
}

#[test]
fn node_metadata() {
    let all = TreeNode::all();
    assert_eq!(all.len(), 8);
    assert_eq!(all[0], TreeNode::Overview);
    assert_eq!(all[7], TreeNode::Logs);
    assert_eq!(TreeNode::Cpu.name(), "CPU");
    assert_eq!(TreeNode::Devices.icon(), "[V]");
    assert_eq!(TreeNode::Processes.shortcut_key(), 'p');
    assert_eq!(TreeNode::from_shortcut('c'), Some(TreeNode::Cpu));
    assert_eq!(TreeNode::from_shortcut('C'), Some(TreeNode::Cpu));
    assert_eq!(TreeNode::from_shortcut('*'), Some(TreeNode::Overview));
    assert_eq!(TreeNode::from_shortcut('z'), None);
    for node in TreeNode::all() {
        assert_eq!(TreeNode::from_shortcut(node.shortcut_key()), Some(node));
    }
}
