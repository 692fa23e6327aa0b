//! The snapshot of collected system state that the controller reads.
//!
//! Collection itself (reading the OS, running enumeration commands) is
//! the data provider's job and happens outside this library; the
//! provider fills a [`SystemData`] value with plain data and hands it
//! to the controller.  Fractional CPU loads are carried in hundredths
//! of a percent so that every field is an integer.

use vstd::prelude::*;
use vstd::multiset::Multiset;
use vstd::string::StringExecFns;

verus! {

/// One logical CPU.
#[derive(Debug, Clone)]
pub struct CpuInfo {
    pub name: String,
    /// Usage in hundredths of a percent (0 .. 10000).
    pub usage_hundredths: u32,
    /// Frequency in MHz.
    pub frequency: u64,
}

/// Memory and swap totals, in bytes.
#[derive(Debug, Clone)]
pub struct MemoryInfo {
    pub total: u64,
    pub used: u64,
    pub available: u64,
    pub swap_total: u64,
    pub swap_used: u64,
}

/// One mounted disk.
#[derive(Debug, Clone)]
pub struct DiskInfo {
    pub name: String,
    pub mount_point: String,
    pub total: u64,
    pub available: u64,
    pub file_system: String,
}

/// One network interface with its transfer totals, in bytes.
#[derive(Debug, Clone)]
pub struct NetworkInfo {
    pub name: String,
    pub received: u64,
    pub transmitted: u64,
}

/// One running process.
#[derive(Debug, Clone)]
pub struct ProcessInfo {
    pub pid: u32,
    pub name: String,
    /// CPU usage in hundredths of a percent.
    pub cpu_usage_hundredths: u32,
    /// Resident memory in bytes.
    pub memory: u64,
    pub status: String,
}

/// One enumerated device (block, input, USB or PCI).
#[derive(Debug, Clone)]
pub struct DeviceInfo {
    pub name: String,
    pub device_type: String,
    pub size: String,
    pub mountpoint: Option<String>,
    pub model: Option<String>,
    pub vendor: Option<String>,
    pub serial: Option<String>,
    pub state: Option<String>,
    pub subsystem: String,
}

/// Host-wide identification and totals.
#[derive(Debug, Clone)]
pub struct OverviewInfo {
    pub hostname: String,
    pub os_name: String,
    pub os_version: String,
    pub kernel_version: String,
    /// Uptime in seconds.
    pub uptime: u64,
    pub cpu_count: usize,
    pub total_memory: u64,
}

/// A point-in-time snapshot of everything the dashboard shows.
#[derive(Debug, Clone)]
pub struct SystemData {
    pub overview: OverviewInfo,
    pub cpus: Vec<CpuInfo>,
    pub memory: MemoryInfo,
    pub disk_list: Vec<DiskInfo>,
    pub network_list: Vec<NetworkInfo>,
    /// Sorted descending by CPU usage.
    pub processes: Vec<ProcessInfo>,
    pub devices: Vec<DeviceInfo>,
    /// Recent log lines, newest last.
    pub logs: Vec<String>,
}

impl SystemData {
    /// An empty snapshot: every list empty, every number zero, every
    /// name blank.  The data provider replaces it on the first refresh.
    pub fn new() -> (r: SystemData)
        ensures
            r.cpus@.len() == 0,
            r.disk_list@.len() == 0,
            r.network_list@.len() == 0,
            r.processes@.len() == 0,
            r.devices@.len() == 0,
            r.logs@.len() == 0,
            r.overview.uptime == 0,
            r.overview.cpu_count == 0,
            r.overview.total_memory == 0,
            r.memory.total == 0,
            r.memory.used == 0,
            r.memory.available == 0,
            r.memory.swap_total == 0,
            r.memory.swap_used == 0,
    {
        SystemData {
            overview: OverviewInfo {
                hostname: String::new(),
                os_name: String::new(),
                os_version: String::new(),
                kernel_version: String::new(),
                uptime: 0,
                cpu_count: 0,
                total_memory: 0,
            },
            cpus: Vec::new(),
            memory: MemoryInfo { total: 0, used: 0, available: 0, swap_total: 0, swap_used: 0 },
            disk_list: Vec::new(),
            network_list: Vec::new(),
            processes: Vec::new(),
            devices: Vec::new(),
            logs: Vec::new(),
        }
    }
}

/// Process rows ordered by falling CPU usage.
pub open spec fn sorted_by_cpu_desc(s: Seq<ProcessInfo>) -> bool {
    forall|i: int, j: int|
        0 <= i < j < s.len() ==> (#[trigger] s[i]).cpu_usage_hundredths >= (
        #[trigger] s[j]).cpu_usage_hundredths
}

/// Sort the process list by falling CPU usage.  The rows are permuted,
/// never changed.
pub fn sort_by_cpu_desc(procs: &mut Vec<ProcessInfo>)
    ensures
        sorted_by_cpu_desc(final(procs)@),
        final(procs)@.to_multiset() == old(procs)@.to_multiset(),
        final(procs)@.len() == old(procs)@.len(),
{
    broadcast use vstd::multiset::group_multiset_axioms;
    broadcast use vstd::multiset::group_multiset_properties;
    broadcast use vstd::seq_lib::group_to_multiset_ensures;

    let ghost orig = procs@;
    let mut out: Vec<ProcessInfo> = Vec::new();
    proof {
        assert(out@.to_multiset().add(procs@.to_multiset()) =~= orig.to_multiset());
    }
    while procs.len() > 0
        invariant
            out@.to_multiset().add(procs@.to_multiset()) == orig.to_multiset(),
            out@.len() + procs@.len() == orig.len(),
            sorted_by_cpu_desc(out@),
            forall|i: int, j: int|
                0 <= i < out@.len() && 0 <= j < procs@.len() ==> (
                #[trigger] out@[i]).cpu_usage_hundredths >= (
                #[trigger] procs@[j]).cpu_usage_hundredths,
        decreases procs.len(),
    {
        let mut best: usize = 0;
        let mut k: usize = 1;
        while k < procs.len()
            invariant
                1 <= k <= procs.len(),
                0 <= best < k,
                forall|i: int|
                    0 <= i < k ==> procs@[best as int].cpu_usage_hundredths >= (
                    #[trigger] procs@[i]).cpu_usage_hundredths,
            decreases procs.len() - k,
        {
            if procs[k].cpu_usage_hundredths > procs[best].cpu_usage_hundredths {
                best = k;
            }
            k = k + 1;
        }
        let ghost before = procs@;
        let ghost out_before = out@;
        let ghost a = out_before.to_multiset();
        let ghost b = before.to_multiset();
        let p = procs.remove(best);
        out.push(p);
        proof {
            before.to_multiset_ensures();
            out_before.to_multiset_ensures();
            assert(before[best as int] == p);
            assert(before.contains(p));
            assert(before.to_multiset().count(p) > 0);
            assert(b.count(p) > 0);
            assert(procs@ == before.remove(best as int));
            assert(before.remove(best as int).to_multiset() =~= before.to_multiset().remove(p));
            assert(procs@.to_multiset() =~= b.remove(p));
            assert(out_before.push(p).to_multiset() =~= out_before.to_multiset().insert(p));
            assert(out@.to_multiset() =~= a.insert(p));
            assert forall|x: ProcessInfo|
                #[trigger] out@.to_multiset().add(procs@.to_multiset()).count(x) == orig
                    .to_multiset().count(x) by {
                if x == p {
                    assert(a.insert(p).count(p) == a.count(p) + 1);
                    assert(b.remove(p).count(p) == (b.count(p) - 1) as nat);
                } else {
                    assert(a.insert(p).count(x) == a.count(x));
                    assert(b.remove(p).count(x) == b.count(x));
                }
            }
            assert(out@.to_multiset().add(procs@.to_multiset()) =~= orig.to_multiset());
            assert forall|i: int, j: int|
                0 <= i < out@.len() && 0 <= j < procs@.len() implies (
            #[trigger] out@[i]).cpu_usage_hundredths >= (
            #[trigger] procs@[j]).cpu_usage_hundredths by {
                if j < best as int {
                    assert(procs@[j] == before[j]);
                } else {
                    assert(procs@[j] == before[j + 1]);
                }
                if i < out_before.len() {
                    assert(out@[i] == out_before[i]);
                } else {
                    assert(out@[i] == p);
                }
            }
            assert forall|i: int, j: int| 0 <= i < j < out@.len() implies (
            #[trigger] out@[i]).cpu_usage_hundredths >= (
            #[trigger] out@[j]).cpu_usage_hundredths by {
                if j < out_before.len() {
                    assert(out@[i] == out_before[i]);
                    assert(out@[j] == out_before[j]);
                } else {
                    assert(out@[i] == out_before[i]);
                    assert(out@[j] == p);
                }
            }
        }
    }
    proof {
        assert(procs@.to_multiset().len() == 0);
        assert(procs@.to_multiset() =~= Multiset::empty());
        assert(out@.to_multiset() =~= orig.to_multiset());
    }
    *procs = out;
}

pub const KB: u64 = 1024;

pub const MB: u64 = KB * 1024;

pub const GB: u64 = MB * 1024;

pub const TB: u64 = GB * 1024;

/// A quantity scaled by `unit`, written with two decimal places; the
/// fraction is rounded half away from zero, carrying into the whole
/// part when it rounds up to one.
pub open spec fn fixed2_spec(bytes: u64, unit: u64) -> Seq<char> {
    let whole = bytes as int / unit as int;
    let frac = ((bytes as int % unit as int) * 200 / unit as int + 1) / 2;
    if frac == 100 {
        crate::text::dec_spec((whole + 1) as nat) + ".00"@
    } else {
        crate::text::dec_spec(whole as nat) + "."@ + seq![
            crate::text::digit_char(frac / 10),
            crate::text::digit_char(frac % 10),
        ]
    }
}

/// A byte count written with a binary-unit suffix and two decimal
/// places, plain bytes below 1024.
pub open spec fn format_bytes_spec(bytes: u64) -> Seq<char> {
    if bytes >= TB {
        fixed2_spec(bytes, TB) + " TB"@
    } else if bytes >= GB {
        fixed2_spec(bytes, GB) + " GB"@
    } else if bytes >= MB {
        fixed2_spec(bytes, MB) + " MB"@
    } else if bytes >= KB {
        fixed2_spec(bytes, KB) + " KB"@
    } else {
        crate::text::dec_spec(bytes as nat) + " B"@
    }
}

fn fixed2(bytes: u64, unit: u64) -> (r: String)
    requires
        unit == KB || unit == MB || unit == GB || unit == TB,
    ensures
        r@ == fixed2_spec(bytes, unit),
{
    let whole = bytes / unit;
    let rem = bytes % unit;
    proof {
        assert(rem < unit);
        assert(rem * 200 <= (unit - 1) * 200) by (nonlinear_arith)
            requires
                rem <= unit - 1,
        ;
        vstd::arithmetic::div_mod::lemma_div_is_ordered(
            (rem * 200) as int,
            ((unit - 1) * 200) as int,
            unit as int,
        );
        assert(((unit - 1) as int * 200) / (unit as int) <= 199) by (nonlinear_arith)
            requires
                unit >= 1024,
        ;
        vstd::arithmetic::div_mod::lemma_div_is_ordered_by_denominator(
            bytes as int,
            1024,
            unit as int,
        );
        vstd::arithmetic::div_mod::lemma_div_is_ordered(bytes as int, u64::MAX as int, 1024);
    }
    let frac = (rem * 200 / unit + 1) / 2;
    if frac == 100 {
        let mut r = crate::text::u64_to_string(whole + 1);
        r.append(".00");
        proof {
            assert(r@ =~= fixed2_spec(bytes, unit));
        }
        r
    } else {
        let mut r = crate::text::u64_to_string(whole);
        crate::text::push_char(&mut r, '.');
        crate::text::push_char(&mut r, digit_exec(frac / 10));
        crate::text::push_char(&mut r, digit_exec(frac % 10));
        proof {
            reveal_strlit(".");
            assert(r@ =~= fixed2_spec(bytes, unit));
        }
        r
    }
}

fn digit_exec(d: u64) -> (c: char)
    requires
        d < 10,
    ensures
        c == crate::text::digit_char(d as int),
{
    if d == 0 {
        '0'
    } else if d == 1 {
        '1'
    } else if d == 2 {
        '2'
    } else if d == 3 {
        '3'
    } else if d == 4 {
        '4'
    } else if d == 5 {
        '5'
    } else if d == 6 {
        '6'
    } else if d == 7 {
        '7'
    } else if d == 8 {
        '8'
    } else {
        '9'
    }
}

/// A byte count written for display, as [`format_bytes_spec`] says.
pub fn format_bytes(bytes: u64) -> (r: String)
    ensures
        r@ == format_bytes_spec(bytes),
{
    if bytes >= TB {
        let mut r = fixed2(bytes, TB);
        r.append(" TB");
        r
    } else if bytes >= GB {
        let mut r = fixed2(bytes, GB);
        r.append(" GB");
        r
    } else if bytes >= MB {
        let mut r = fixed2(bytes, MB);
        r.append(" MB");
        r
    } else if bytes >= KB {
        let mut r = fixed2(bytes, KB);
        r.append(" KB");
        r
    } else {
        let mut r = crate::text::u64_to_string(bytes);
        r.append(" B");
        r
    }
}

/// An uptime in seconds split into days, hours, minutes and seconds,
/// dropping the leading parts that are zero.
pub open spec fn format_uptime_spec(seconds: u64) -> Seq<char> {
    let days = seconds as int / 86400;
    let hours = (seconds as int % 86400) / 3600;
    let minutes = (seconds as int % 3600) / 60;
    let secs = seconds as int % 60;
    if days > 0 {
        crate::text::dec_spec(days as nat) + "d "@ + crate::text::dec_spec(hours as nat) + "h "@
            + crate::text::dec_spec(minutes as nat) + "m "@ + crate::text::dec_spec(secs as nat)
            + "s"@
    } else if hours > 0 {
        crate::text::dec_spec(hours as nat) + "h "@ + crate::text::dec_spec(minutes as nat)
            + "m "@ + crate::text::dec_spec(secs as nat) + "s"@
    } else if minutes > 0 {
        crate::text::dec_spec(minutes as nat) + "m "@ + crate::text::dec_spec(secs as nat) + "s"@
    } else {
        crate::text::dec_spec(secs as nat) + "s"@
    }
}

/// An uptime written for display, as [`format_uptime_spec`] says.
pub fn format_uptime(seconds: u64) -> (r: String)
    ensures
        r@ == format_uptime_spec(seconds),
{
    let days = seconds / 86400;
    let hours = (seconds % 86400) / 3600;
    let minutes = (seconds % 3600) / 60;
    let secs = seconds % 60;
    if days > 0 {
        let mut r = crate::text::u64_to_string(days);
        r.append("d ");
        r.append(crate::text::u64_to_string(hours).as_str());
        r.append("h ");
        r.append(crate::text::u64_to_string(minutes).as_str());
        r.append("m ");
        r.append(crate::text::u64_to_string(secs).as_str());
        r.append("s");
        r
    } else if hours > 0 {
        let mut r = crate::text::u64_to_string(hours);
        r.append("h ");
        r.append(crate::text::u64_to_string(minutes).as_str());
        r.append("m ");
        r.append(crate::text::u64_to_string(secs).as_str());
        r.append("s");
        r
    } else if minutes > 0 {
        let mut r = crate::text::u64_to_string(minutes);
        r.append("m ");
        r.append(crate::text::u64_to_string(secs).as_str());
        r.append("s");
        r
    } else {
        let mut r = crate::text::u64_to_string(secs);
        r.append("s");
        r
    }
}

} // verus!
