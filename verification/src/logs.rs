//! Verified log-line handling: the recent window kept from a log
//! source's output, and the placeholder shown when no source could be
//! read.  Running the log commands is the data provider's job outside
//! this library; the text that comes back is processed here.

use vstd::prelude::*;
use vstd::string::StringExecFns;
use crate::text::lines_spec;
use crate::text::split_lines;
use crate::text::strings_view;
use crate::text::trim_spec;
use crate::text::trim;

verus! {

/// Whether the text holds nothing but white space.
pub fn is_blank(s: &str) -> (r: bool)
    ensures
        r == (trim_spec(s@).len() == 0),
{
    trim(s).is_empty()
}

/// The last `keep` lines of `s` (all of them when there are fewer),
/// oldest first.
pub fn tail_lines(s: &str, keep: usize) -> (r: Vec<String>)
    ensures
        strings_view(r@) == lines_spec(s@).subrange(
            if lines_spec(s@).len() <= keep {
                0
            } else {
                lines_spec(s@).len() - keep
            },
            lines_spec(s@).len() as int,
        ),
{
    let all = split_lines(s);
    if all.len() <= keep {
        proof {
            assert(strings_view(all@) =~= lines_spec(s@).subrange(0, lines_spec(s@).len() as int));
        }
        return all;
    }
    let start = all.len() - keep;
    let mut r: Vec<String> = Vec::new();
    let mut i: usize = start;
    while i < all.len()
        invariant
            start <= i <= all@.len(),
            start == all@.len() - keep,
            strings_view(r@) =~= strings_view(all@).subrange(start as int, i as int),
        decreases all@.len() - i,
    {
        r.push(all[i].clone());
        proof {
            assert(strings_view(r@) =~= strings_view(r@.drop_last()).push(all@[i as int]@));
            assert(strings_view(all@).subrange(start as int, i + 1) =~= strings_view(
                all@,
            ).subrange(start as int, i as int).push(all@[i as int]@));
        }
        i = i + 1;
    }
    proof {
        assert(strings_view(r@) =~= lines_spec(s@).subrange(
            lines_spec(s@).len() - keep,
            lines_spec(s@).len() as int,
        ));
    }
    r
}

/// The placeholder lines shown when no log source could be read.
pub open spec fn fallback_lines_spec() -> Seq<Seq<char>> {
    seq![
        "Unable to read system logs."@,
        ""@,
        "Try one of:"@,
        "  - Run with sudo: sudo cargo run"@,
        "  - Add user to systemd-journal group:"@,
        "    sudo usermod -aG systemd-journal $USER"@,
    ]
}

/// The placeholder shown when no log source could be read.
pub fn fallback_log_lines() -> (r: Vec<String>)
    ensures
        strings_view(r@) == fallback_lines_spec(),
{
    let mut r: Vec<String> = Vec::new();
    r.push(String::from_str("Unable to read system logs."));
    r.push(String::from_str(""));
    r.push(String::from_str("Try one of:"));
    r.push(String::from_str("  - Run with sudo: sudo cargo run"));
    r.push(String::from_str("  - Add user to systemd-journal group:"));
    r.push(String::from_str("    sudo usermod -aG systemd-journal $USER"));
    proof {
        assert(strings_view(r@) =~= fallback_lines_spec());
    }
    r
}

} // verus!
