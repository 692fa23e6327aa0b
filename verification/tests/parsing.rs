use syscenter::devices::is_input_device_name;
use syscenter::devices::make_input_device;
use syscenter::devices::parse_lsblk_output;
use syscenter::devices::parse_pci_line;
use syscenter::devices::parse_pci_output;
use syscenter::devices::parse_usb_line;
use syscenter::devices::parse_usb_output;
use syscenter::logs::fallback_log_lines;
use syscenter::logs::is_blank;
use syscenter::logs::tail_lines;
use syscenter::text::split_lines;
use syscenter::text::split_on_char;
use syscenter::text::str_starts_with;
use syscenter::text::trim;

#[test]
fn trim_both_ends() {
    assert_eq!(trim("  hello  "), "hello");
    assert_eq!(trim("\t x \r\n"), "x");
    assert_eq!(trim("plain"), "plain");
    assert_eq!(trim("   "), "");
    assert_eq!(trim(""), "");
}

#[test]
fn split_lines_matches_std() {
    let text = "a\nb\r\nc\n";
    let got = split_lines(text);
    assert_eq!(got, vec!["a".to_string(), "b".to_string(), "c".to_string()]);
    assert_eq!(got, text.lines().map(|l| l.to_string()).collect::<Vec<_>>());

    assert!(split_lines("").is_empty());
    assert_eq!(split_lines("x\r"), vec!["x\r".to_string()]);
    assert_eq!(split_lines("\n\n"), vec!["".to_string(), "".to_string()]);
    let odd = "one\rtwo\nlast";
    assert_eq!(
        split_lines(odd),
        odd.lines().map(|l| l.to_string()).collect::<Vec<_>>()
    );
}

#[test]
fn split_on_char_matches_std() {
    let line = "a\"b\"\"c";
    assert_eq!(
        split_on_char(line, '"'),
        line.split('"').map(|p| p.to_string()).collect::<Vec<_>>()
    );
    assert_eq!(split_on_char("", ','), vec!["".to_string()]);
    assert_eq!(
        split_on_char("x,y", ','),
        vec!["x".to_string(), "y".to_string()]
    );
}

#[test]
fn starts_with_matches_std() {
    assert!(str_starts_with("event3", "event"));
    assert!(!str_starts_with("ev", "event"));
    assert!(str_starts_with("anything", ""));
}

#[test]
fn blankness() {
    assert!(is_blank(""));
    assert!(is_blank(" \t\r\n "));
    assert!(!is_blank(" log line "));
}

#[test]
fn tail_keeps_last_lines_in_order() {
    let text = "l1\nl2\nl3\nl4\nl5";
    assert_eq!(
        tail_lines(text, 3),
        vec!["l3".to_string(), "l4".to_string(), "l5".to_string()]
    );
    assert_eq!(tail_lines(text, 100).len(), 5);
    assert_eq!(tail_lines(text, 0).len(), 0);
}

#[test]
fn fallback_lines_shape() {
    let lines = fallback_log_lines();
    assert_eq!(lines.len(), 6);
    assert_eq!(lines[0], "Unable to read system logs.");
    assert_eq!(lines[5], "    sudo usermod -aG systemd-journal $USER");
}

#[test]
fn usb_line_well_formed() {
    let line = "Bus 001 Device 002: ID 1d6b:0002 Linux Foundation 2.0 root hub";
    let d = parse_usb_line(line).expect("line is well formed");
    assert_eq!(d.name, "Linux Foundation 2.0 root hub");
    assert_eq!(d.vendor.as_deref(), Some("1d6b:0002"));
    assert_eq!(d.device_type, "usb");
    assert_eq!(d.size, "-");
    assert_eq!(d.state.as_deref(), Some("connected"));
    assert_eq!(d.subsystem, "usb");
    assert!(d.mountpoint.is_none());
    assert!(d.model.is_none());
    assert!(d.serial.is_none());
}

#[test]
fn usb_line_malformed() {
    assert!(parse_usb_line("no marker here").is_none());
    assert!(parse_usb_line("Bus 001: ID nospaceafter").is_none());
    assert!(parse_usb_line("").is_none());
}

#[test]
fn usb_output_collects_good_lines() {
    let text = "Bus 001 Device 001: ID 1111:2222 First Device\njunk\nBus 002 Device 003: ID 3333:4444 Second Device\n";
    let devices = parse_usb_output(text);
    assert_eq!(devices.len(), 2);
    assert_eq!(devices[0].name, "First Device");
    assert_eq!(devices[1].name, "Second Device");
}

#[test]
fn pci_line_well_formed() {
    let line = "00:02.0 \"VGA compatible controller\" \"Intel Corporation\" \"HD Graphics 620\" -r02 \"Lenovo\" \"HD Graphics 620\"";
    let d = parse_pci_line(line).expect("line is well formed");
    assert_eq!(d.device_type, "VGA compatible controller");
    assert_eq!(d.vendor.as_deref(), Some("Intel Corporation"));
    assert_eq!(d.name, "HD Graphics 620");
    assert_eq!(d.subsystem, "pci");
    assert!(d.state.is_none());
}

#[test]
fn pci_line_too_few_fields() {
    assert!(parse_pci_line("no quotes at all").is_none());
    assert!(parse_pci_line("\"one\" \"two\"").is_none());
}

#[test]
fn pci_output_respects_line_limit() {
    let good = "00:00.0 \"Bridge\" \"Vendor\" \"Name\"";
    let mut text = String::new();
    for _ in 0..25 {
        text.push_str(good);
        text.push('\n');
    }
    let devices = parse_pci_output(&text, 20);
    assert_eq!(devices.len(), 20);
    assert_eq!(devices[0].device_type, "Bridge");
}

#[test]
fn input_device_names() {
    assert!(is_input_device_name("event0"));
    assert!(is_input_device_name("mouse2"));
    assert!(is_input_device_name("js1"));
    assert!(!is_input_device_name("by-id"));
    assert!(!is_input_device_name("kbd"));

    let d = make_input_device("AT Translated Set 2 keyboard");
    assert_eq!(d.name, "AT Translated Set 2 keyboard");
    assert_eq!(d.device_type, "input");
    assert_eq!(d.subsystem, "input");
    assert_eq!(d.state.as_deref(), Some("active"));
    assert_eq!(d.size, "-");
}

#[test]
fn lsblk_document_flattens_children() {
    let text = "{\"blockdevices\": [\
        {\"name\": \"sda\", \"type\": \"disk\", \"size\": \"931.5G\",\
         \"mountpoint\": null, \"model\": \" Samsung SSD 870 \", \"vendor\": \" ATA \",\
         \"serial\": \"S1234\", \"state\": \"running\",\
         \"children\": [\
            {\"name\": \"sda1\", \"type\": \"part\", \"size\": \"512M\", \"mountpoint\": \"/boot\"},\
            {\"name\": \"sda2\", \"type\": \"part\", \"size\": \"931G\", \"mountpoint\": \"/\"}\
         ]},\
        {\"name\": \"sr0\", \"type\": \"rom\", \"size\": \"1024M\"}\
    ]}";
    let devices = parse_lsblk_output(text);
    assert_eq!(devices.len(), 4);

    assert_eq!(devices[0].name, "sda");
    assert_eq!(devices[0].device_type, "disk");
    assert_eq!(devices[0].size, "931.5G");
    assert!(devices[0].mountpoint.is_none());
    assert_eq!(devices[0].model.as_deref(), Some("Samsung SSD 870"));
    assert_eq!(devices[0].vendor.as_deref(), Some("ATA"));
    assert_eq!(devices[0].serial.as_deref(), Some("S1234"));
    assert_eq!(devices[0].state.as_deref(), Some("running"));
    assert_eq!(devices[0].subsystem, "block");

    assert_eq!(devices[1].name, "sda1");
    assert_eq!(devices[1].mountpoint.as_deref(), Some("/boot"));
    assert_eq!(devices[2].name, "sda2");
    assert_eq!(devices[2].mountpoint.as_deref(), Some("/"));

    assert_eq!(devices[3].name, "sr0");
    assert_eq!(devices[3].device_type, "rom");
    assert!(devices[3].serial.is_none());
}

#[test]
fn lsblk_rejects_other_shapes() {
    assert!(parse_lsblk_output("not json at all").is_empty());
    assert!(parse_lsblk_output("{}").is_empty());
    assert!(parse_lsblk_output("{\"blockdevices\": 3}").is_empty());
    assert!(parse_lsblk_output("[1, 2, 3]").is_empty());
}

#[test]
fn lsblk_missing_fields_get_defaults() {
    let devices = parse_lsblk_output("{\"blockdevices\": [{}]}");
    assert_eq!(devices.len(), 1);
    assert_eq!(devices[0].name, "unknown");
    assert_eq!(devices[0].device_type, "unknown");
    assert_eq!(devices[0].size, "-");
    assert!(devices[0].mountpoint.is_none());
}
