//! Machine facts read from `/proc` and `/etc` texts.

use vstd::prelude::*;
use vstd::string::*;
use crate::proto::{StaticConfig, SysInfo};
use crate::text::{is_digit, parse_u64, spec_parse_u64, spec_starts_with, spec_trim, split_on, split_on_char, split_words, lemma_split_on_nonempty, starts_with, string_of, trim, views, words};

verus! {

pub open spec fn all_digits(s: Seq<char>) -> bool {
    forall|i: int| 0 <= i < s.len() ==> is_digit(#[trigger] s[i])
}

fn is_all_digits(s: &str) -> (r: bool)
    ensures
        r == all_digits(s@),
{
    let n = s.unicode_len();
    let mut i: usize = 0;
    while i < n
        invariant
            n == s@.len(),
            i <= n,
            forall|j: int| 0 <= j < i ==> is_digit(#[trigger] s@[j]),
        decreases n - i,
    {
        let c = s.get_char(i);
        if !('0' <= c && c <= '9') {
            return false;
        }
        i = i + 1;
    }
    true
}

/// Whole seconds of uptime from the text of `/proc/uptime`: the integer part
/// of its first field, or 0 when that field is no decimal number.
pub open spec fn uptime_of(text: Seq<char>) -> u64 {
    let w = words(text);
    if w.len() == 0 {
        0
    } else {
        let parts = split_on(w[0], '.');
        if parts.len() == 1 || (parts.len() == 2 && all_digits(parts[1])) {
            match spec_parse_u64(parts[0]) {
                Some(n) => n,
                None => 0,
            }
        } else {
            0
        }
    }
}

pub fn parse_uptime(text: &str) -> (r: u64)
    ensures
        r == uptime_of(text@),
{
    let w = split_words(text);
    if w.len() == 0 {
        return 0;
    }
    let parts = split_on_char(w[0].as_str(), '.');
    proof {
        lemma_split_on_nonempty(w@[0]@, '.');
        assert(views(w@)[0] == w@[0]@);
        assert(views(parts@)[0] == parts@[0]@);
    }
    if parts.len() == 1 || (parts.len() == 2 && is_all_digits(parts[1].as_str())) {
        proof {
            if parts.len() == 2 {
                assert(views(parts@)[1] == parts@[1]@);
            }
        }
        match parse_u64(parts[0].as_str()) {
            Some(n) => n,
            None => 0,
        }
    } else {
        0
    }
}

/// Text of a readable source, trimmed, or the fallback.
pub open spec fn trimmed_or(text: Option<String>, fallback: Seq<char>) -> Seq<char> {
    match text {
        Some(t) => spec_trim(t@),
        None => fallback,
    }
}

fn trimmed_or_unknown(text: Option<String>) -> (r: String)
    ensures
        r@ == trimmed_or(text, "unknown"@),
{
    match text {
        Some(t) => string_of(trim(t.as_str())),
        None => string_of("unknown"),
    }
}

/// Basic facts of the machine from what could be read: the kernel release
/// file, the uptime file and the host name file (each `None` when it could
/// not be read) and the `HOSTNAME` variable.
pub fn build_sys_info(
    os: String,
    arch: String,
    kernel: Option<String>,
    uptime: Option<String>,
    hostname: Option<String>,
    hostname_env: Option<String>,
) -> (r: SysInfo)
    ensures
        r.os@ == os@,
        r.arch@ == arch@,
        r.kernel@ == trimmed_or(kernel, "unknown"@),
        r.uptime_secs == match uptime {
            Some(u) => uptime_of(u@),
            None => 0,
        },
        r.hostname@ == match hostname {
            Some(h) => spec_trim(h@),
            None => match hostname_env {
                Some(e) => e@,
                None => "unknown"@,
            },
        },
{
    let kernel = trimmed_or_unknown(kernel);
    let uptime_secs = match uptime {
        Some(u) => parse_uptime(u.as_str()),
        None => 0,
    };
    let hostname = match hostname {
        Some(h) => string_of(trim(h.as_str())),
        None => match hostname_env {
            Some(e) => e,
            None => string_of("unknown"),
        },
    };
    SysInfo { os, kernel, arch, uptime_secs, hostname }
}

/// How many of `lines` start with `p`.
pub open spec fn count_prefixed(lines: Seq<Seq<char>>, p: Seq<char>) -> nat
    decreases lines.len(),
{
    if lines.len() == 0 {
        0
    } else {
        count_prefixed(lines.drop_last(), p) + if spec_starts_with(lines.last(), p) {
            1nat
        } else {
            0nat
        }
    }
}

/// The first of `lines` that starts with `p`.
pub open spec fn first_prefixed(lines: Seq<Seq<char>>, p: Seq<char>) -> Option<Seq<char>>
    decreases lines.len(),
{
    if lines.len() == 0 {
        None
    } else if spec_starts_with(lines[0], p) {
        Some(lines[0])
    } else {
        first_prefixed(lines.drop_first(), p)
    }
}

/// The number of processors that `/proc/cpuinfo` lists.
pub open spec fn cpu_count_of(text: Seq<char>) -> nat {
    count_prefixed(split_on(text, '\n'), "processor"@)
}

/// Total memory in bytes from `/proc/meminfo`: the kibibytes on its
/// `MemTotal:` line times 1024, or 0 when that line is missing, unreadable or
/// the product does not fit in 64 bits.
pub open spec fn mem_total_of(text: Seq<char>) -> u64 {
    match first_prefixed(split_on(text, '\n'), "MemTotal:"@) {
        Some(line) => {
            let w = words(line);
            if w.len() >= 2 {
                match spec_parse_u64(w[1]) {
                    Some(kb) => if kb * 1024 <= u64::MAX {
                        (kb * 1024) as u64
                    } else {
                        0
                    },
                    None => 0,
                }
            } else {
                0
            }
        },
        None => 0,
    }
}

fn count_cpus(text: &str) -> (r: u32)
    ensures
        r == cpu_count_of(text@) as u32,
{
    let lines = split_on_char(text, '\n');
    let ghost ls = views(lines@);
    let n = lines.len();
    let mut count: usize = 0;
    let mut i: usize = 0;
    assert(ls.subrange(0, 0) == Seq::<Seq<char>>::empty());
    while i < n
        invariant
            n == lines@.len(),
            ls == views(lines@),
            i <= n,
            count == count_prefixed(ls.subrange(0, i as int), "processor"@),
            count <= i,
        decreases n - i,
    {
        assert(ls.subrange(0, i + 1).drop_last() == ls.subrange(0, i as int));
        assert(ls[i as int] == lines@[i as int]@);
        if starts_with(lines[i].as_str(), "processor") {
            count = count + 1;
        }
        i = i + 1;
    }
    assert(ls.subrange(0, n as int) == ls);
    count as u32
}

fn mem_total(text: &str) -> (r: u64)
    ensures
        r == mem_total_of(text@),
{
    let lines = split_on_char(text, '\n');
    let ghost ls = views(lines@);
    let n = lines.len();
    let mut i: usize = 0;
    assert(ls.subrange(0, n as int) == ls);
    while i < n
        invariant
            n == lines@.len(),
            ls == views(lines@),
            ls == split_on(text@, '\n'),
            i <= n,
            first_prefixed(ls, "MemTotal:"@) == first_prefixed(ls.subrange(i as int, n as int), "MemTotal:"@),
        decreases n - i,
    {
        let ghost rest = ls.subrange(i as int, n as int);
        assert(rest[0] == lines@[i as int]@);
        if starts_with(lines[i].as_str(), "MemTotal:") {
            assert(first_prefixed(rest, "MemTotal:"@) == Some(lines@[i as int]@));
            let w = split_words(lines[i].as_str());
            assert(views(w@).len() == w@.len());
            if w.len() < 2 {
                return 0;
            }
            assert(views(w@)[1] == w@[1]@);
            return match parse_u64(w[1].as_str()) {
                Some(kb) => if kb <= u64::MAX / 1024 {
                    assert(kb * 1024 <= u64::MAX) by (nonlinear_arith)
                        requires
                            kb <= u64::MAX / 1024,
                    ;
                    kb * 1024
                } else {
                    assert(kb * 1024 > u64::MAX) by (nonlinear_arith)
                        requires
                            kb > u64::MAX / 1024,
                    ;
                    0
                },
                None => 0,
            };
        }
        assert(rest.drop_first() == ls.subrange(i + 1, n as int));
        i = i + 1;
    }
    0
}

/// Static configuration from what could be read: `/etc/os-release`,
/// `/proc/cpuinfo` and `/proc/meminfo` (each `None` when unreadable).
pub fn build_static_config(
    os_release: Option<String>,
    cpuinfo: Option<String>,
    meminfo: Option<String>,
) -> (r: StaticConfig)
    ensures
        r.os_release == os_release,
        r.cpu_count == match cpuinfo {
            Some(t) => cpu_count_of(t@) as u32,
            None => 0,
        },
        r.mem_total_bytes == match meminfo {
            Some(t) => mem_total_of(t@),
            None => 0,
        },
{
    let cpu_count = match cpuinfo {
        Some(t) => count_cpus(t.as_str()),
        None => 0,
    };
    let mem_total_bytes = match meminfo {
        Some(t) => mem_total(t.as_str()),
        None => 0,
    };
    StaticConfig { os_release, cpu_count, mem_total_bytes }
}

} // verus!
