//! Verified parsing of the device-enumeration output the data
//! provider collects: the JSON document of the block-device lister,
//! the one-line-per-device output of the USB lister, the
//! machine-readable output of the PCI lister, and the names under the
//! input-device class directory.  Running those commands is the
//! provider's job outside this library; their text is parsed here.

use vstd::prelude::*;
use vstd::string::StrSliceExecFns;
use vstd::string::StringExecFns;
use crate::json::json_as_array;
use crate::json::json_as_str;
use crate::json::json_field;
use crate::json::json_get;
use crate::json::json_parse;
use crate::json::json_size;
use crate::json::json_str;
use crate::system::DeviceInfo;
use crate::text::find_char;
use crate::text::find_sub;
use crate::text::lemma_find_char;
use crate::text::lemma_find_sub;
use crate::text::lines_spec;
use crate::text::split_char_spec;
use crate::text::split_lines;
use crate::text::split_on_char;
use crate::text::starts_with_spec;
use crate::text::str_starts_with;
use crate::text::strings_view;
use crate::text::trim_spec;
use crate::text::trim;

verus! {

/// The ghost image of one device record.
#[verifier::ext_equal]
pub ghost struct DeviceV {
    pub name: Seq<char>,
    pub device_type: Seq<char>,
    pub size: Seq<char>,
    pub mountpoint: Option<Seq<char>>,
    pub model: Option<Seq<char>>,
    pub vendor: Option<Seq<char>>,
    pub serial: Option<Seq<char>>,
    pub state: Option<Seq<char>>,
    pub subsystem: Seq<char>,
}

impl View for DeviceInfo {
    type V = DeviceV;

    open spec fn view(&self) -> DeviceV {
        DeviceV {
            name: self.name@,
            device_type: self.device_type@,
            size: self.size@,
            mountpoint: crate::model::opt_string_view(self.mountpoint),
            model: crate::model::opt_string_view(self.model),
            vendor: crate::model::opt_string_view(self.vendor),
            serial: crate::model::opt_string_view(self.serial),
            state: crate::model::opt_string_view(self.state),
            subsystem: self.subsystem@,
        }
    }
}

/// The records among `s` that are present, in order.
pub open spec fn collect_some<T>(s: Seq<Option<T>>) -> Seq<T>
    decreases s.len(),
{
    if s.len() == 0 {
        Seq::empty()
    } else {
        match s[0] {
            Some(x) => seq![x] + collect_some(s.drop_first()),
            None => collect_some(s.drop_first()),
        }
    }
}

/// One unfolding of [`collect_some`] at the end of the sequence.
proof fn lemma_collect_some_push<T>(s: Seq<Option<T>>, x: Option<T>)
    ensures
        collect_some(s.push(x)) == (match x {
            Some(v) => collect_some(s).push(v),
            None => collect_some(s),
        }),
    decreases s.len(),
{
    if s.len() == 0 {
        assert(s.push(x).drop_first() =~= s);
        match x {
            Some(v) => {
                assert(collect_some(s.push(x)) =~= collect_some(s).push(v));
            },
            None => {},
        }
    } else {
        assert(s.push(x).drop_first() =~= s.drop_first().push(x));
        lemma_collect_some_push(s.drop_first(), x);
        match x {
            Some(v) => {
                assert(collect_some(s.push(x)) =~= collect_some(s).push(v));
            },
            None => {},
        }
    }
}

/// What one line of the USB lister yields: the text after `": ID "`
/// splits at its first blank into the bus identifier and the display
/// name; a line without that shape yields nothing.
pub open spec fn usb_line_spec(l: Seq<char>) -> Option<DeviceV> {
    match find_sub(l, ": ID "@) {
        Some(i) => {
            let after = l.subrange(i + 5, l.len() as int);
            match find_char(after, ' ') {
                Some(j) => Some(
                    DeviceV {
                        name: after.subrange(j + 1, after.len() as int),
                        device_type: "usb"@,
                        size: "-"@,
                        mountpoint: None,
                        model: None,
                        vendor: Some(after.subrange(0, j)),
                        serial: None,
                        state: Some("connected"@),
                        subsystem: "usb"@,
                    },
                ),
                None => None,
            }
        },
        None => None,
    }
}

/// Parse one line of the USB lister's output.
pub fn parse_usb_line(line: &str) -> (r: Option<DeviceInfo>)
    ensures
        (match r {
            Some(d) => usb_line_spec(line@) == Some(d@),
            None => usb_line_spec(line@) is None,
        }),
{
    proof {
        reveal_strlit(": ID ");
        lemma_find_sub(line@, ": ID "@);
        assert((": ID "@).len() == 5);
    }
    let n = line.unicode_len();
    let mut i: usize = 0;
    let mut found: bool = false;
    if n >= 5 {
        while !found && i <= n - 5
            invariant
                0 <= i,
                5 <= n,
                !found ==> i <= n - 4,
                n == line@.len(),
                found ==> i + 5 <= n && line@.subrange(i as int, i + 5) == ": ID "@,
                forall|j: int| 0 <= j < i ==> #[trigger] line@.subrange(j, j + 5) != ": ID "@,
            decreases n - i, (if found { 0int } else { 1int }),
        {
            let ghost sub = line@.subrange(i as int, i + 5);
            proof {
                reveal_strlit(": ID ");
                assert(sub[0] == line@[i as int]);
                assert(sub[1] == line@[i as int + 1]);
                assert(sub[2] == line@[i as int + 2]);
                assert(sub[3] == line@[i as int + 3]);
                assert(sub[4] == line@[i as int + 4]);
            }
            if line.get_char(i) == ':' && line.get_char(i + 1) == ' ' && line.get_char(i + 2)
                == 'I' && line.get_char(i + 3) == 'D' && line.get_char(i + 4) == ' ' {
                found = true;
                proof {
                    assert(sub =~= ": ID "@);
                }
            } else {
                proof {
                    assert(sub != ": ID "@);
                }
                i = i + 1;
            }
        }
    }
    if !found {
        proof {
            match find_sub(line@, ": ID "@) {
                Some(fi) => {
                    assert(line@.subrange(fi, fi + 5) == ": ID "@);
                    assert(false);
                },
                None => {},
            }
        }
        return None;
    }
    proof {
        match find_sub(line@, ": ID "@) {
            Some(fi) => {
                assert(fi == i as int);
            },
            None => {
                assert(line@.subrange(i as int, i + 5) != ": ID "@);
                assert(false);
            },
        }
    }
    let after = line.substring_char(i + 5, n);
    proof {
        assert(after@ =~= line@.subrange(i + 5, n as int));
        lemma_find_char(after@, ' ');
    }
    let m = after.unicode_len();
    let mut j: usize = 0;
    while j < m && !(after.get_char(j) == ' ')
        invariant
            0 <= j <= m,
            m == after@.len(),
            forall|k: int| 0 <= k < j ==> after@[k] != ' ',
        decreases m - j,
    {
        j = j + 1;
    }
    if j == m {
        proof {
            match find_char(after@, ' ') {
                Some(fj) => {
                    assert(false);
                },
                None => {},
            }
        }
        return None;
    }
    proof {
        match find_char(after@, ' ') {
            Some(fj) => {
                assert(fj == j as int);
            },
            None => {
                assert(false);
            },
        }
    }
    let id = after.substring_char(0, j);
    let device_name = after.substring_char(j + 1, m);
    let d = DeviceInfo {
        name: device_name.to_owned(),
        device_type: String::from_str("usb"),
        size: String::from_str("-"),
        mountpoint: None,
        model: None,
        vendor: Some(id.to_owned()),
        serial: None,
        state: Some(String::from_str("connected")),
        subsystem: String::from_str("usb"),
    };
    proof {
        assert(usb_line_spec(line@) == Some(d@)) by {
            assert(d@ =~~= usb_line_spec(line@).unwrap());
        }
    }
    Some(d)
}

/// What the whole USB lister output yields: the records of its lines
/// that parse, in order.
pub open spec fn usb_output_spec(s: Seq<char>) -> Seq<DeviceV> {
    collect_some(lines_spec(s).map_values(|l: Seq<char>| usb_line_spec(l)))
}

/// The view of a vector of device records.
pub open spec fn devices_view(v: Seq<DeviceInfo>) -> Seq<DeviceV> {
    v.map_values(|d: DeviceInfo| d@)
}

/// Parse the whole USB lister output, one device per well-formed
/// line.
pub fn parse_usb_output(s: &str) -> (r: Vec<DeviceInfo>)
    ensures
        devices_view(r@) == usb_output_spec(s@),
{
    let lines = split_lines(s);
    let mut r: Vec<DeviceInfo> = Vec::new();
    let mut i: usize = 0;
    proof {
        assert(lines_spec(s@).map_values(|l: Seq<char>| usb_line_spec(l)).subrange(0, 0)
            =~= Seq::<Option<DeviceV>>::empty());
        assert(devices_view(r@) =~= collect_some(Seq::<Option<DeviceV>>::empty()));
    }
    while i < lines.len()
        invariant
            0 <= i <= lines@.len(),
            strings_view(lines@) == lines_spec(s@),
            devices_view(r@) == collect_some(
                lines_spec(s@).map_values(|l: Seq<char>| usb_line_spec(l)).subrange(0, i as int),
            ),
        decreases lines@.len() - i,
    {
        let ghost opts = lines_spec(s@).map_values(|l: Seq<char>| usb_line_spec(l));
        match parse_usb_line(lines[i].as_str()) {
            Some(d) => {
                r.push(d);
                proof {
                    assert(opts.subrange(0, i + 1) =~= opts.subrange(0, i as int).push(
                        opts[i as int],
                    ));
                    lemma_collect_some_push(opts.subrange(0, i as int), opts[i as int]);
                    assert(devices_view(r@) =~= devices_view(r@.drop_last()).push(
                        r@.last()@,
                    ));
                }
            },
            None => {
                proof {
                    assert(opts.subrange(0, i + 1) =~= opts.subrange(0, i as int).push(
                        opts[i as int],
                    ));
                    lemma_collect_some_push(opts.subrange(0, i as int), opts[i as int]);
                }
            },
        }
        i = i + 1;
    }
    proof {
        let opts = lines_spec(s@).map_values(|l: Seq<char>| usb_line_spec(l));
        assert(opts.subrange(0, opts.len() as int) =~= opts);
    }
    r
}

/// What one line of the PCI lister yields: split on double quotes,
/// a line with at least six parts names the class, vendor and device
/// in the second, fourth and sixth; others yield nothing.
pub open spec fn pci_line_spec(l: Seq<char>) -> Option<DeviceV> {
    let parts = split_char_spec(l, '"');
    if parts.len() >= 6 {
        Some(
            DeviceV {
                name: parts[5],
                device_type: parts[1],
                size: "-"@,
                mountpoint: None,
                model: None,
                vendor: Some(parts[3]),
                serial: None,
                state: None,
                subsystem: "pci"@,
            },
        )
    } else {
        None
    }
}

/// Parse one line of the PCI lister's output.
pub fn parse_pci_line(line: &str) -> (r: Option<DeviceInfo>)
    ensures
        (match r {
            Some(d) => pci_line_spec(line@) == Some(d@),
            None => pci_line_spec(line@) is None,
        }),
{
    let parts = split_on_char(line, '"');
    if parts.len() >= 6 {
        let d = DeviceInfo {
            name: parts[5].clone(),
            device_type: parts[1].clone(),
            size: String::from_str("-"),
            mountpoint: None,
            model: None,
            vendor: Some(parts[3].clone()),
            serial: None,
            state: None,
            subsystem: String::from_str("pci"),
        };
        proof {
            assert(d@ =~~= pci_line_spec(line@).unwrap());
        }
        Some(d)
    } else {
        None
    }
}

/// What the PCI lister output yields: the records of its first
/// `limit` lines that parse, in order.
pub open spec fn pci_output_spec(s: Seq<char>, limit: int) -> Seq<DeviceV> {
    let taken = if lines_spec(s).len() <= limit {
        lines_spec(s)
    } else {
        lines_spec(s).subrange(0, limit)
    };
    collect_some(taken.map_values(|l: Seq<char>| pci_line_spec(l)))
}

/// Parse the PCI lister output, looking only at the first `limit`
/// lines.
pub fn parse_pci_output(s: &str, limit: usize) -> (r: Vec<DeviceInfo>)
    ensures
        devices_view(r@) == pci_output_spec(s@, limit as int),
{
    let lines = split_lines(s);
    let count = if lines.len() <= limit {
        lines.len()
    } else {
        limit
    };
    let ghost taken = if lines_spec(s@).len() <= limit as int {
        lines_spec(s@)
    } else {
        lines_spec(s@).subrange(0, limit as int)
    };
    let ghost opts = taken.map_values(|l: Seq<char>| pci_line_spec(l));
    let mut r: Vec<DeviceInfo> = Vec::new();
    let mut i: usize = 0;
    proof {
        assert(devices_view(r@) =~= collect_some(opts.subrange(0, 0)));
    }
    while i < count
        invariant
            0 <= i <= count,
            count == (if lines@.len() <= limit {
                lines@.len() as int
            } else {
                limit as int
            }),
            strings_view(lines@) == lines_spec(s@),
            taken == (if lines_spec(s@).len() <= limit as int {
                lines_spec(s@)
            } else {
                lines_spec(s@).subrange(0, limit as int)
            }),
            opts == taken.map_values(|l: Seq<char>| pci_line_spec(l)),
            count == taken.len(),
            devices_view(r@) == collect_some(opts.subrange(0, i as int)),
        decreases count - i,
    {
        proof {
            assert(taken[i as int] == lines_spec(s@)[i as int]);
        }
        match parse_pci_line(lines[i].as_str()) {
            Some(d) => {
                r.push(d);
                proof {
                    assert(opts.subrange(0, i + 1) =~= opts.subrange(0, i as int).push(
                        opts[i as int],
                    ));
                    lemma_collect_some_push(opts.subrange(0, i as int), opts[i as int]);
                    assert(devices_view(r@) =~= devices_view(r@.drop_last()).push(
                        r@.last()@,
                    ));
                }
            },
            None => {
                proof {
                    assert(opts.subrange(0, i + 1) =~= opts.subrange(0, i as int).push(
                        opts[i as int],
                    ));
                    lemma_collect_some_push(opts.subrange(0, i as int), opts[i as int]);
                }
            },
        }
        i = i + 1;
    }
    proof {
        assert(opts.subrange(0, opts.len() as int) =~= opts);
    }
    r
}

/// Whether a name under the input-device class directory is an event,
/// mouse or joystick node.
pub open spec fn input_name_spec(name: Seq<char>) -> bool {
    starts_with_spec(name, "event"@) || starts_with_spec(name, "mouse"@) || starts_with_spec(
        name,
        "js"@,
    )
}

/// Executable test for [`input_name_spec`].
pub fn is_input_device_name(name: &str) -> (r: bool)
    ensures
        r == input_name_spec(name@),
{
    str_starts_with(name, "event") || str_starts_with(name, "mouse") || str_starts_with(name, "js")
}

/// The record for one input device with the given display name.
pub open spec fn input_device_spec(device_name: Seq<char>) -> DeviceV {
    DeviceV {
        name: device_name,
        device_type: "input"@,
        size: "-"@,
        mountpoint: None,
        model: None,
        vendor: None,
        serial: None,
        state: Some("active"@),
        subsystem: "input"@,
    }
}

/// Build the record for one input device.
pub fn make_input_device(device_name: &str) -> (r: DeviceInfo)
    ensures
        r@ == input_device_spec(device_name@),
{
    let r = DeviceInfo {
        name: device_name.to_owned(),
        device_type: String::from_str("input"),
        size: String::from_str("-"),
        mountpoint: None,
        model: None,
        vendor: None,
        serial: None,
        state: Some(String::from_str("active")),
        subsystem: String::from_str("input"),
    };
    proof {
        assert(r@ =~~= input_device_spec(device_name@));
    }
    r
}

/// The string member of a JSON object under `key`, if there is one.
pub open spec fn json_field_str(v: serde_json::Value, key: Seq<char>) -> Option<Seq<char>> {
    match json_field(v, key) {
        Some(f) => json_str(f),
        None => None,
    }
}

/// An optional string with a default.
pub open spec fn str_or(o: Option<Seq<char>>, d: Seq<char>) -> Seq<char> {
    match o {
        Some(s) => s,
        None => d,
    }
}

/// An optional string, trimmed when present.
pub open spec fn trimmed_opt(o: Option<Seq<char>>) -> Option<Seq<char>> {
    match o {
        Some(s) => Some(trim_spec(s)),
        None => None,
    }
}

/// The record one node of the block-device JSON document yields.
pub open spec fn block_device_spec(v: serde_json::Value, subsystem: Seq<char>) -> DeviceV {
    DeviceV {
        name: str_or(json_field_str(v, "name"@), "unknown"@),
        device_type: str_or(json_field_str(v, "type"@), "unknown"@),
        size: str_or(json_field_str(v, "size"@), "-"@),
        mountpoint: json_field_str(v, "mountpoint"@),
        model: trimmed_opt(json_field_str(v, "model"@)),
        vendor: trimmed_opt(json_field_str(v, "vendor"@)),
        serial: json_field_str(v, "serial"@),
        state: json_field_str(v, "state"@),
        subsystem: subsystem,
    }
}

/// The string member under `key`, or `default` when the key is absent
/// or not a string.
fn get_str_or(v: &serde_json::Value, key: &str, default: &str) -> (r: String)
    ensures
        r@ == str_or(json_field_str(*v, key@), default@),
{
    match json_get(v, key) {
        Some(f) => match json_as_str(f) {
            Some(s) => s.to_owned(),
            None => default.to_owned(),
        },
        None => default.to_owned(),
    }
}

/// The string member under `key`, if there is one.
fn get_str_opt(v: &serde_json::Value, key: &str) -> (r: Option<String>)
    ensures
        crate::model::opt_string_view(r) == json_field_str(*v, key@),
{
    match json_get(v, key) {
        Some(f) => match json_as_str(f) {
            Some(s) => Some(s.to_owned()),
            None => None,
        },
        None => None,
    }
}

/// The string member under `key`, trimmed, if there is one.
fn get_str_opt_trimmed(v: &serde_json::Value, key: &str) -> (r: Option<String>)
    ensures
        crate::model::opt_string_view(r) == trimmed_opt(json_field_str(*v, key@)),
{
    match json_get(v, key) {
        Some(f) => match json_as_str(f) {
            Some(s) => Some(trim(s).to_owned()),
            None => None,
        },
        None => None,
    }
}

/// Append the record for this node of the block-device document, then
/// the records of its children, recursively.  The earlier contents of
/// `out` stay in place; every appended record carries `subsystem`.
pub fn parse_block_device(v: &serde_json::Value, subsystem: &str, out: &mut Vec<DeviceInfo>)
    ensures
        final(out)@.len() > old(out)@.len(),
        final(out)@.subrange(0, old(out)@.len() as int) == old(out)@,
        final(out)@[old(out)@.len() as int]@ == block_device_spec(*v, subsystem@),
        forall|i: int|
            old(out)@.len() <= i < final(out)@.len() ==> (#[trigger] final(out)@[i])@.subsystem
                == subsystem@,
    decreases json_size(*v),
{
    let d = DeviceInfo {
        name: get_str_or(v, "name", "unknown"),
        device_type: get_str_or(v, "type", "unknown"),
        size: get_str_or(v, "size", "-"),
        mountpoint: get_str_opt(v, "mountpoint"),
        model: get_str_opt_trimmed(v, "model"),
        vendor: get_str_opt_trimmed(v, "vendor"),
        serial: get_str_opt(v, "serial"),
        state: get_str_opt(v, "state"),
        subsystem: subsystem.to_owned(),
    };
    proof {
        assert(d@ =~~= block_device_spec(*v, subsystem@));
    }
    out.push(d);
    let ghost base = out@;
    match json_get(v, "children") {
        Some(children) => {
            match json_as_array(children) {
                Some(arr) => {
                    let n = arr.len();
                    let mut i: usize = 0;
                    while i < n
                        invariant
                            0 <= i <= n,
                            n == arr@.len(),
                            forall|k: int|
                                0 <= k < n ==> json_size(#[trigger] arr@[k]) < json_size(
                                    *children,
                                ),
                            json_size(*children) < json_size(*v),
                            out@.len() >= base.len(),
                            out@.subrange(0, base.len() as int) == base,
                            forall|k: int|
                                base.len() <= k < out@.len() ==> (
                                #[trigger] out@[k])@.subsystem == subsystem@,
                        decreases n - i,
                    {
                        let ghost before = out@;
                        parse_block_device(&arr[i], subsystem, out);
                        proof {
                            assert(out@.subrange(0, base.len() as int) =~= before.subrange(
                                0,
                                base.len() as int,
                            ));
                            assert forall|k: int|
                                base.len() <= k < out@.len() implies (
                            #[trigger] out@[k])@.subsystem == subsystem@ by {
                                if k < before.len() {
                                    assert(out@[k] == out@.subrange(
                                        0,
                                        before.len() as int,
                                    )[k]);
                                }
                            }
                        }
                        i = i + 1;
                    }
                },
                None => {},
            }
        },
        None => {},
    }
    proof {
        assert(out@.subrange(0, old(out)@.len() as int) =~= old(out)@);
        assert(out@[old(out)@.len() as int] == base[base.len() - 1]);
    }
}

/// Parse the block-device lister's JSON output: every record of the
/// `blockdevices` array and their nested children, in document order,
/// all carrying the `block` subsystem.  Output that is not a JSON
/// object of that shape yields no records.
pub fn parse_lsblk_output(text: &str) -> (r: Vec<DeviceInfo>)
    ensures
        forall|i: int| 0 <= i < r@.len() ==> (#[trigger] r@[i])@.subsystem == "block"@,
{
    let mut r: Vec<DeviceInfo> = Vec::new();
    match json_parse(text) {
        Some(root) => {
            match json_get(&root, "blockdevices") {
                Some(devs) => {
                    match json_as_array(devs) {
                        Some(arr) => {
                            let n = arr.len();
                            let mut i: usize = 0;
                            while i < n
                                invariant
                                    0 <= i <= n,
                                    n == arr@.len(),
                                    forall|k: int|
                                        0 <= k < r@.len() ==> (#[trigger] r@[k])@.subsystem
                                            == "block"@,
                                decreases n - i,
                            {
                                let ghost before = r@;
                                parse_block_device(&arr[i], "block", &mut r);
                                proof {
                                    assert forall|k: int|
                                        0 <= k < r@.len() implies (
                                    #[trigger] r@[k])@.subsystem == "block"@ by {
                                        if k < before.len() {
                                            assert(r@[k] == r@.subrange(
                                                0,
                                                before.len() as int,
                                            )[k]);
                                        }
                                    }
                                }
                                i = i + 1;
                            }
                        },
                        None => {},
                    }
                },
                None => {},
            }
        },
        None => {},
    }
    r
}

} // verus!
