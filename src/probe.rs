//! Checking whether the agent is installed and runnable, and the ssh
//! invocations that run it.

use vstd::prelude::*;
use vstd::string::*;
use crate::text::{
    contains, spec_contains, spec_trim, split_on, split_on_char, string_of, trim, u64_to_dec, dec,
    views,
};

verus! {

/// Result of checking whether the agent is installed and runnable.
#[derive(Debug, Clone)]
pub struct AgentStatus {
    /// Whether the agent answered with a version.
    pub present: bool,
    /// The version that the agent printed, if any.
    pub version: Option<String>,
    /// The path that was checked on the remote host.
    pub remote_path: String,
    /// Whether the agent could be run (the check exited successfully).
    pub can_run: bool,
    /// What the check printed on standard output.
    pub stdout: String,
    /// What the check printed on standard error.
    pub stderr: String,
}

/// A check that failed for another reason than a missing agent (the host is
/// unreachable, authentication failed): deploying would not help.
#[derive(Debug, Clone)]
pub struct ProbeFailure {
    pub exit_code: Option<i32>,
    pub stdout: String,
    pub stderr: String,
}

/// A remote path that needs a shell on the remote side to expand `~` or `$`.
pub open spec fn spec_needs_shell(path: Seq<char>) -> bool {
    path.contains('~') || path.contains('$')
}

pub fn needs_shell(path: &str) -> (r: bool)
    ensures
        r == spec_needs_shell(path@),
{
    let n = path.unicode_len();
    let mut i: usize = 0;
    while i < n
        invariant
            n == path@.len(),
            i <= n,
            forall|j: int| 0 <= j < i ==> path@[j] != '~' && path@[j] != '$',
        decreases n - i,
    {
        let c = path.get_char(i);
        if c == '~' || c == '$' {
            assert(path@[i as int] == c);
            return true;
        }
        i = i + 1;
    }
    false
}

/// The options that every ssh invocation of the client carries, with the
/// connect timeout in seconds.
pub open spec fn ssh_options(connect_secs: u64) -> Seq<Seq<char>> {
    seq![
        "-o"@,
        "BatchMode=yes"@,
        "-o"@,
        "StrictHostKeyChecking=accept-new"@,
        "-o"@,
        "ConnectTimeout="@ + dec(connect_secs as nat),
        "-o"@,
        "ConnectionAttempts=1"@,
        "-o"@,
        "Compression=yes"@,
        "-T"@,
    ]
}

/// The remote command that runs the agent at `path` with `flag`: through `sh -c`
/// when the path needs expanding.
pub open spec fn agent_invocation(path: Seq<char>, flag: Seq<char>) -> Seq<Seq<char>> {
    if spec_needs_shell(path) {
        seq!["sh"@, "-c"@, path + " "@ + flag]
    } else {
        seq![path, flag]
    }
}

/// The arguments of `ssh` that run the agent at `path` on `target` with `flag`.
pub open spec fn agent_ssh_args(
    target: Seq<char>,
    path: Seq<char>,
    flag: Seq<char>,
    connect_secs: u64,
) -> Seq<Seq<char>> {
    ssh_options(connect_secs) + seq![target, "--"@] + agent_invocation(path, flag)
}

fn push_str(v: &mut Vec<String>, s: &str)
    ensures
        views(final(v)@) == views(old(v)@).push(s@),
{
    let ghost before = views(v@);
    v.push(string_of(s));
    assert(views(v@) == before.push(s@));
}

fn push_string(v: &mut Vec<String>, s: String)
    ensures
        views(final(v)@) == views(old(v)@).push(s@),
{
    let ghost before = views(v@);
    let ghost sv = s@;
    v.push(s);
    assert(views(v@) == before.push(sv));
}

/// The arguments of `ssh` up to the remote command.
pub fn ssh_prefix(target: &str, connect_secs: u64) -> (r: Vec<String>)
    ensures
        views(r@) == ssh_options(connect_secs) + seq![target@, "--"@],
{
    let mut v: Vec<String> = Vec::new();
    push_str(&mut v, "-o");
    push_str(&mut v, "BatchMode=yes");
    push_str(&mut v, "-o");
    push_str(&mut v, "StrictHostKeyChecking=accept-new");
    push_str(&mut v, "-o");
    let mut t = string_of("ConnectTimeout=");
    t.append(u64_to_dec(connect_secs).as_str());
    push_string(&mut v, t);
    push_str(&mut v, "-o");
    push_str(&mut v, "ConnectionAttempts=1");
    push_str(&mut v, "-o");
    push_str(&mut v, "Compression=yes");
    push_str(&mut v, "-T");
    push_str(&mut v, target);
    push_str(&mut v, "--");
    assert(views(v@) == ssh_options(connect_secs) + seq![target@, "--"@]);
    v
}

/// The arguments of `ssh` that run the agent at `path` with `flag`
/// (`--version` to check it, `--stdio` to talk to it).
pub fn agent_args(target: &str, path: &str, flag: &str, connect_secs: u64) -> (r: Vec<String>)
    ensures
        views(r@) == agent_ssh_args(target@, path@, flag@, connect_secs),
{
    let mut v = ssh_prefix(target, connect_secs);
    let ghost pre = views(v@);
    if needs_shell(path) {
        push_str(&mut v, "sh");
        push_str(&mut v, "-c");
        let mut c = string_of(path);
        c.append(" ");
        c.append(flag);
        push_string(&mut v, c);
        assert(views(v@) == pre + seq!["sh"@, "-c"@, path@ + " "@ + flag@]);
    } else {
        push_str(&mut v, path);
        push_str(&mut v, flag);
        assert(views(v@) == pre + seq![path@, flag@]);
    }
    v
}

/// The first line of `lines` that is not blank, trimmed.
pub open spec fn first_nonblank(lines: Seq<Seq<char>>) -> Option<Seq<char>>
    decreases lines.len(),
{
    if lines.len() == 0 {
        None
    } else if spec_trim(lines[0]).len() > 0 {
        Some(spec_trim(lines[0]))
    } else {
        first_nonblank(lines.drop_first())
    }
}

/// The version that the agent printed: its first non-blank line, trimmed.
pub open spec fn version_of(stdout: Seq<char>) -> Option<Seq<char>> {
    first_nonblank(split_on(stdout, '\n'))
}

pub fn version_line(stdout: &str) -> (r: Option<String>)
    ensures
        match r {
            Some(v) => version_of(stdout@) == Some(v@),
            None => version_of(stdout@) is None,
        },
{
    let lines = split_on_char(stdout, '\n');
    let ghost ls = views(lines@);
    let n = lines.len();
    let mut i: usize = 0;
    assert(ls.subrange(0, n as int) == ls);
    while i < n
        invariant
            n == lines@.len(),
            ls == views(lines@),
            ls == split_on(stdout@, '\n'),
            i <= n,
            first_nonblank(ls) == first_nonblank(ls.subrange(i as int, n as int)),
        decreases n - i,
    {
        let ghost rest = ls.subrange(i as int, n as int);
        assert(rest[0] == lines@[i as int]@);
        let t = trim(lines[i].as_str());
        if t.unicode_len() > 0 {
            return Some(string_of(t));
        }
        assert(rest.drop_first() == ls.subrange(i + 1, n as int));
        i = i + 1;
    }
    None
}

/// The exit status with which ssh itself reports a failure to connect or to
/// log in.
pub const SSH_FAILURE: i32 = 255;

/// The exit statuses and messages that say the agent is missing or cannot be
/// executed: exit code 126 or 127, or one of the usual complaints on stderr.
/// Never ssh's own failure (exit 255), whatever stderr says.
pub open spec fn looks_missing(exit_code: Option<i32>, stderr: Seq<char>) -> bool {
    exit_code != Some(SSH_FAILURE) && (exit_code == Some(126i32) || exit_code == Some(127i32)
        || spec_contains(stderr, "No such file or directory"@) || spec_contains(
        stderr,
        "not found"@,
    ) || spec_contains(stderr, "Permission denied"@) || spec_contains(
        stderr,
        "Exec format error"@,
    ) || spec_contains(stderr, "cannot execute"@))
}

fn missing_signature(exit_code: Option<i32>, stderr: &str) -> (r: bool)
    ensures
        r == looks_missing(exit_code, stderr@),
{
    exit_code != Some(SSH_FAILURE) && (exit_code == Some(126i32) || exit_code == Some(127i32)
        || contains(stderr, "No such file or directory") || contains(stderr, "not found")
        || contains(stderr, "Permission denied") || contains(stderr, "Exec format error")
        || contains(stderr, "cannot execute"))
}

/// Classifies the outcome of running the agent with `--version`: a successful
/// run reports the version it printed; a failure that looks like a missing
/// or non-executable agent is an absent agent, not an error; any other failure
/// is an error.
pub fn classify_probe(
    remote_path: &str,
    success: bool,
    exit_code: Option<i32>,
    stdout: String,
    stderr: String,
) -> (r: Result<AgentStatus, ProbeFailure>)
    ensures
        success ==> (r matches Ok(st) && st.can_run && st.present == (version_of(stdout@) is Some)
            && (match st.version {
            Some(v) => version_of(stdout@) == Some(v@),
            None => version_of(stdout@) is None,
        })),
        !success && looks_missing(exit_code, stderr@) ==> (r matches Ok(st) && !st.present
            && !st.can_run && st.version is None),
        !success && !looks_missing(exit_code, stderr@) ==> (r matches Err(f) && f.exit_code
            == exit_code && f.stderr@ == stderr@ && f.stdout@ == stdout@),
        !success && exit_code == Some(SSH_FAILURE) ==> r is Err,
        r matches Ok(st) ==> st.remote_path@ == remote_path@ && st.stdout@ == stdout@
            && st.stderr@ == stderr@,
{
    if !success {
        if missing_signature(exit_code, stderr.as_str()) {
            return Ok(
                AgentStatus {
                    present: false,
                    version: None,
                    remote_path: string_of(remote_path),
                    can_run: false,
                    stdout,
                    stderr,
                },
            );
        }
        return Err(ProbeFailure { exit_code, stdout, stderr });
    }
    let version = version_line(stdout.as_str());
    let present = version.is_some();
    Ok(
        AgentStatus {
            present,
            version,
            remote_path: string_of(remote_path),
            can_run: true,
            stdout,
            stderr,
        },
    )
}

} // verus!
