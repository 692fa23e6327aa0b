use syscenter::app::App;
use syscenter::node::TreeNode;
use syscenter::state::Focus;
use syscenter::state::Key;
use syscenter::state::KillOutcome;
use syscenter::state::Mode;
use syscenter::system::ProcessInfo;
use syscenter::system::SystemData;

fn open_category(app: &mut App, c: char) {
    if app.focus != Focus::Tree {
        app.handle_key(Key::Tab);
    }
    app.handle_key(Key::Char(c));
}

fn type_command(app: &mut App, text: &str) {
    assert!(app.handle_key(Key::Char(':')).is_none());
    for c in text.chars() {
        assert!(app.handle_key(Key::Char(c)).is_none());
    }
}

#[test]
fn initial_state() {
    let app = App::new();
    assert!(app.running);
    assert_eq!(app.focus, Focus::Tree);
    assert_eq!(app.mode, Mode::Normal);
    assert_eq!(app.tabs.len(), 1);
    assert_eq!(app.tabs[0].node, TreeNode::Overview);
    assert_eq!(app.active_tab_index, 0);
    assert_eq!(app.selected_tree_index, 0);
    assert!(!app.show_help);
    assert!(!app.show_kill_confirm);
    assert!(!app.show_device_popup);
    assert!(app.command_buffer.is_empty());
    assert!(app.status_message.is_none());
}

#[test]
fn shortcut_opens_cpu_tab() {
    let mut app = App::new();
    assert!(app.handle_key(Key::Char('c')).is_none());
    assert_eq!(app.tabs.len(), 2);
    assert_eq!(app.tabs[0].node, TreeNode::Overview);
    assert_eq!(app.tabs[1].node, TreeNode::Cpu);
    assert_eq!(app.active_tab_index, 1);
    assert_eq!(app.focus, Focus::Tabs);
}

#[test]
fn digit_switches_tab_keeping_focus() {
    let mut app = App::new();
    app.handle_key(Key::Char('c'));
    assert_eq!(app.focus, Focus::Tabs);
    app.handle_key(Key::Char('1'));
    assert_eq!(app.active_tab_index, 0);
    assert_eq!(app.tabs[app.active_tab_index].node, TreeNode::Overview);
    assert_eq!(app.focus, Focus::Tabs);
}

#[test]
fn quit_command_requests_shutdown() {
    let mut app = App::new();
    type_command(&mut app, "quit");
    assert!(app.handle_key(Key::Enter).is_none());
    assert!(!app.running);
}

#[test]
fn short_quit_and_forced_quit() {
    for cmd in ["q", "q!", "quit!"] {
        let mut app = App::new();
        type_command(&mut app, cmd);
        app.handle_key(Key::Enter);
        assert!(!app.running);
    }
}

#[test]
fn quit_command_is_trimmed() {
    let mut app = App::new();
    type_command(&mut app, "  quit  ");
    app.handle_key(Key::Enter);
    assert!(!app.running);
}

#[test]
fn unknown_command_keeps_buffer_and_reports() {
    let mut app = App::new();
    type_command(&mut app, "bogus");
    app.handle_key(Key::Enter);
    assert!(app.running);
    assert_eq!(app.mode, Mode::Command);
    assert_eq!(app.command_buffer, "bogus");
    assert_eq!(app.command_error.as_deref(), Some("Unknown command: bogus"));
}

#[test]
fn typing_after_error_clears_it() {
    let mut app = App::new();
    type_command(&mut app, "bogus");
    app.handle_key(Key::Enter);
    assert!(app.command_error.is_some());
    app.handle_key(Key::Char('x'));
    assert!(app.command_error.is_none());
    assert_eq!(app.command_buffer, "bogusx");
}

#[test]
fn help_command_opens_overlay() {
    let mut app = App::new();
    type_command(&mut app, "help");
    app.handle_key(Key::Enter);
    assert!(app.show_help);
    assert_eq!(app.mode, Mode::Normal);
    assert!(app.command_buffer.is_empty());
}

#[test]
fn backspace_on_empty_buffer_leaves_command_mode() {
    let mut app = App::new();
    type_command(&mut app, "a");
    app.handle_key(Key::Backspace);
    assert_eq!(app.mode, Mode::Normal);
    assert!(app.command_buffer.is_empty());
}

#[test]
fn escape_cancels_command_mode() {
    let mut app = App::new();
    type_command(&mut app, "bogus");
    app.handle_key(Key::Esc);
    assert_eq!(app.mode, Mode::Normal);
    assert!(app.command_buffer.is_empty());
    assert!(app.command_error.is_none());
}

#[test]
fn help_toggles_and_swallows_keys() {
    let mut app = App::new();
    app.handle_key(Key::Char('?'));
    assert!(app.show_help);
    // Non-global keys are swallowed while help is open.
    app.handle_key(Key::Char('c'));
    assert_eq!(app.tabs.len(), 1);
    // Esc closes help.
    app.handle_key(Key::Esc);
    assert!(!app.show_help);
}

#[test]
fn tab_toggles_focus() {
    let mut app = App::new();
    assert_eq!(app.focus, Focus::Tree);
    app.handle_key(Key::Tab);
    assert_eq!(app.focus, Focus::Tabs);
    app.handle_key(Key::Tab);
    assert_eq!(app.focus, Focus::Tree);
}

#[test]
fn tree_navigation_clamps_at_both_ends() {
    let mut app = App::new();
    assert_eq!(app.selected_tree_index, 0);
    app.handle_key(Key::Up);
    assert_eq!(app.selected_tree_index, 0);
    app.handle_key(Key::Char('k'));
    assert_eq!(app.selected_tree_index, 0);
    for _ in 0..7 {
        app.handle_key(Key::Down);
    }
    assert_eq!(app.selected_tree_index, 7);
    app.handle_key(Key::Down);
    assert_eq!(app.selected_tree_index, 7);
    app.handle_key(Key::Char('j'));
    assert_eq!(app.selected_tree_index, 7);
}

#[test]
fn enter_opens_selected_category() {
    let mut app = App::new();
    app.handle_key(Key::Down);
    app.handle_key(Key::Enter);
    assert_eq!(app.tabs.len(), 2);
    assert_eq!(app.tabs[1].node, TreeNode::Cpu);
    assert_eq!(app.active_tab_index, 1);
    assert_eq!(app.focus, Focus::Tabs);
}

#[test]
fn reopening_category_activates_existing_tab() {
    let mut app = App::new();
    open_category(&mut app, 'c');
    open_category(&mut app, 'm');
    assert_eq!(app.tabs.len(), 3);
    // Open CPU again.
    open_category(&mut app, 'c');
    assert_eq!(app.tabs.len(), 3);
    assert_eq!(app.active_tab_index, 1);
    assert_eq!(app.tabs[1].node, TreeNode::Cpu);
    assert_eq!(app.selected_tree_index, 1);
}

#[test]
fn closing_sole_tab_is_noop() {
    let mut app = App::new();
    app.handle_key(Key::Tab);
    assert_eq!(app.focus, Focus::Tabs);
    app.handle_key(Key::Char('w'));
    assert_eq!(app.tabs.len(), 1);
    assert_eq!(app.active_tab_index, 0);
}

#[test]
fn open_all_categories_then_close_seven() {
    let mut app = App::new();
    for c in ['*', 'c', 'm', 'd', 'n', 'p', 'v', 'l'] {
        open_category(&mut app, c);
    }
    assert_eq!(app.focus, Focus::Tabs);
    assert_eq!(app.tabs.len(), 8);
    for expected_len in (1..8).rev() {
        app.handle_key(Key::Char('w'));
        assert_eq!(app.tabs.len(), expected_len);
        assert!(app.tabs.len() >= 1);
        assert!(app.active_tab_index < app.tabs.len());
    }
    assert_eq!(app.tabs.len(), 1);
    app.handle_key(Key::Char('w'));
    assert_eq!(app.tabs.len(), 1);
}

#[test]
fn tab_workspace_left_right_and_rows() {
    let mut app = App::new();
    open_category(&mut app, 'c');
    open_category(&mut app, 'm');
    assert_eq!(app.active_tab_index, 2);
    app.handle_key(Key::Left);
    assert_eq!(app.active_tab_index, 1);
    app.handle_key(Key::Char('h'));
    assert_eq!(app.active_tab_index, 0);
    app.handle_key(Key::Char('h'));
    assert_eq!(app.active_tab_index, 0);
    app.handle_key(Key::Char('l'));
    assert_eq!(app.active_tab_index, 1);
    app.handle_key(Key::Right);
    assert_eq!(app.active_tab_index, 2);
    app.handle_key(Key::Right);
    assert_eq!(app.active_tab_index, 2);
    // Row selection: down twice, up once.
    app.handle_key(Key::Char('j'));
    app.handle_key(Key::Char('j'));
    assert_eq!(app.tabs[2].selected_item, 2);
    app.handle_key(Key::Char('k'));
    assert_eq!(app.tabs[2].selected_item, 1);
    // Up at zero clamps.
    app.handle_key(Key::Char('k'));
    app.handle_key(Key::Char('k'));
    assert_eq!(app.tabs[2].selected_item, 0);
}

fn sample_process(pid: u32, name: &str, cpu: u32) -> ProcessInfo {
    ProcessInfo {
        pid,
        name: name.to_string(),
        cpu_usage_hundredths: cpu,
        memory: 1024,
        status: "Run".to_string(),
    }
}

#[test]
fn kill_flow_cancel_then_confirm() {
    let mut app = App::new();
    let mut data = SystemData::new();
    data.processes.push(sample_process(4242, "workerd", 5000));
    app.set_system_data(data);

    app.handle_key(Key::Char('p'));
    assert_eq!(app.tabs[app.active_tab_index].node, TreeNode::Processes);
    assert_eq!(app.focus, Focus::Tabs);
    assert_eq!(app.tabs[app.active_tab_index].selected_item, 0);

    // Request the kill dialog.
    assert!(app.handle_key(Key::Char('x')).is_none());
    assert!(app.show_kill_confirm);
    assert_eq!(app.kill_target_pid, Some(4242));
    assert_eq!(app.kill_target_name.as_deref(), Some("workerd"));

    // Cancel: no request handed out, targets cleared.
    assert!(app.handle_key(Key::Char('n')).is_none());
    assert!(!app.show_kill_confirm);
    assert!(app.kill_target_pid.is_none());
    assert!(app.kill_target_name.is_none());
    assert_eq!(app.system_data.processes.len(), 1);

    // Again, and confirm: exactly one kill request comes back.
    app.handle_key(Key::Char('x'));
    assert!(app.show_kill_confirm);
    let req = app.handle_key(Key::Char('y')).expect("confirmed kill must hand out a request");
    assert_eq!(req.pid, 4242);
    assert_eq!(req.name, "workerd");
    assert!(!app.show_kill_confirm);
    assert!(app.kill_target_pid.is_none());
    assert!(app.kill_target_name.is_none());

    app.apply_kill_outcome(req.pid, &req.name, KillOutcome::Killed);
    assert_eq!(
        app.status_message.as_deref(),
        Some("Killed process workerd (PID: 4242)")
    );
}

#[test]
fn kill_dialog_swallows_other_keys() {
    let mut app = App::new();
    let mut data = SystemData::new();
    data.processes.push(sample_process(7, "idle", 0));
    app.set_system_data(data);
    app.handle_key(Key::Char('p'));
    app.handle_key(Key::Char('x'));
    assert!(app.show_kill_confirm);
    assert!(app.handle_key(Key::Char('c')).is_none());
    assert!(app.show_kill_confirm);
    assert_eq!(app.tabs.len(), 2);
    assert!(app.handle_key(Key::Esc).is_none());
    assert!(!app.show_kill_confirm);
}

#[test]
fn kill_ignored_without_matching_row() {
    let mut app = App::new();
    app.handle_key(Key::Char('p'));
    // No processes in the snapshot: nothing opens.
    app.handle_key(Key::Char('x'));
    assert!(!app.show_kill_confirm);
}

#[test]
fn kill_outcome_messages() {
    let mut app = App::new();
    app.apply_kill_outcome(9, "svc", KillOutcome::Failed("permission denied\n".to_string()));
    assert_eq!(
        app.status_message.as_deref(),
        Some("Failed to kill svc: permission denied")
    );
    app.apply_kill_outcome(9, "svc", KillOutcome::Error("no such tool".to_string()));
    assert_eq!(app.status_message.as_deref(), Some("Error killing svc: no such tool"));
    // Any following key clears the transient message.
    app.handle_key(Key::Other);
    assert!(app.status_message.is_none());
}

#[test]
fn device_popup_opens_and_closes() {
    let mut app = App::new();
    let mut data = SystemData::new();
    data.devices.push(syscenter::system::DeviceInfo {
        name: "sda".to_string(),
        device_type: "disk".to_string(),
        size: "100G".to_string(),
        mountpoint: None,
        model: None,
        vendor: None,
        serial: None,
        state: None,
        subsystem: "block".to_string(),
    });
    app.set_system_data(data);
    app.handle_key(Key::Char('v'));
    assert_eq!(app.tabs[app.active_tab_index].node, TreeNode::Devices);
    app.handle_key(Key::Enter);
    assert!(app.show_device_popup);
    assert_eq!(app.selected_device_index, Some(0));
    // Other keys are swallowed.
    app.handle_key(Key::Char('c'));
    assert!(app.show_device_popup);
    assert_eq!(app.tabs.len(), 2);
    app.handle_key(Key::Char('q'));
    assert!(!app.show_device_popup);
    assert!(app.selected_device_index.is_none());
}

#[test]
fn device_popup_needs_valid_row() {
    let mut app = App::new();
    app.handle_key(Key::Char('v'));
    app.handle_key(Key::Enter);
    assert!(!app.show_device_popup);
}

#[test]
fn active_tab_accessor() {
    let mut app = App::new();
    let t = app.active_tab().expect("a tab is always open");
    assert_eq!(t.node, TreeNode::Overview);
    app.handle_key(Key::Char('l'));
    assert_eq!(app.active_tab().unwrap().node, TreeNode::Logs);
}
