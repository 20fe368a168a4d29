//! Installing the agent on a host: install paths and the sequence of
//! remote steps.

use vstd::prelude::*;
use vstd::string::*;
use crate::probe::{ssh_options, ssh_prefix};
use crate::text::{spec_trim, str_eq, string_of, trim, views};

verus! {

/// Where the agent was installed and how it got there.
#[derive(Debug, Clone)]
pub struct DeployResult {
    pub remote_path: String,
    /// Whether the fast transfer (rsync) succeeded; otherwise scp was used.
    pub used_rsync: bool,
}

/// Why a deployment stopped.
#[derive(Debug, Clone, Copy, PartialEq, Eq, Structural)]
pub enum DeployError {
    /// The versioned directory could not be created (or that timed out).
    MakeDirFailed,
    /// Neither transfer tool could upload the agent.
    UploadFailed,
    /// The uploaded agent could not be made executable.
    ChmodFailed,
}

/// The file name of the agent binary.
pub const AGENT_BINARY: &'static str = "slarti-remote";

/// The directory that holds one version of the agent: system-wide for root,
/// under the home directory otherwise.
pub open spec fn spec_remote_dir(is_root: bool, version: Seq<char>) -> Seq<char> {
    if is_root {
        "/usr/local/lib/slarti/agent/"@ + version
    } else {
        "$HOME/.local/share/slarti/agent/"@ + version
    }
}

pub open spec fn spec_remote_path(is_root: bool, version: Seq<char>) -> Seq<char> {
    spec_remote_dir(is_root, version) + "/"@ + AGENT_BINARY@
}

pub fn remote_dir(is_root: bool, version: &str) -> (r: String)
    ensures
        r@ == spec_remote_dir(is_root, version@),
{
    let mut d = if is_root {
        string_of("/usr/local/lib/slarti/agent/")
    } else {
        string_of("$HOME/.local/share/slarti/agent/")
    };
    d.append(version);
    d
}

pub fn remote_path(is_root: bool, version: &str) -> (r: String)
    ensures
        r@ == spec_remote_path(is_root, version@),
{
    let mut p = remote_dir(is_root, version);
    p.append("/");
    p.append(AGENT_BINARY);
    p
}

/// Whether the output of `id -u` names root (it printed `0`); `None` when the
/// command failed, so that nothing is known of the remote user.
pub fn uid_is_root(success: bool, stdout: &str) -> (r: Option<bool>)
    ensures
        r == if success {
            Some(spec_trim(stdout@) == "0"@)
        } else {
            None::<bool>
        },
{
    if success {
        Some(str_eq(trim(stdout), "0"))
    } else {
        None
    }
}

/// The arguments of `ssh` that run `script` through a login shell on `target`;
/// `verbose` adds ssh's debugging output.
pub open spec fn shell_args(
    target: Seq<char>,
    script: Seq<char>,
    connect_secs: u64,
    verbose: bool,
) -> Seq<Seq<char>> {
    (if verbose {
        seq!["-vvv"@]
    } else {
        Seq::empty()
    }) + ssh_options(connect_secs) + seq![target, "--"@, "sh"@, "-lc"@, script]
}

pub fn remote_shell_args(target: &str, script: String, connect_secs: u64, verbose: bool) -> (r: Vec<
    String,
>)
    ensures
        views(r@) == shell_args(target@, script@, connect_secs, verbose),
{
    let mut v: Vec<String> = Vec::new();
    if verbose {
        v.push(string_of("-vvv"));
    }
    let ghost head = views(v@);
    let mut rest = ssh_prefix(target, connect_secs);
    let ghost tail = views(rest@);
    v.append(&mut rest);
    assert(views(v@) == head + tail);
    let ghost pre = views(v@);
    let ghost sv = script@;
    v.push(string_of("sh"));
    v.push(string_of("-lc"));
    v.push(script);
    assert(views(v@) == pre + seq!["sh"@, "-lc"@, sv]);
    v
}

/// A shell command applied to one double-quoted argument (`mkdir -p "<dir>"`,
/// `chmod 755 "<path>"`).
pub fn quoted_command(cmd: &str, arg: &str) -> (r: String)
    ensures
        r@ == cmd@ + " \""@ + arg@ + "\""@,
{
    let mut s = string_of(cmd);
    s.append(" \"");
    s.append(arg);
    s.append("\"");
    s
}

/// The `host:path` destination of an upload.
pub fn upload_destination(target: &str, path: &str) -> (r: String)
    ensures
        r@ == target@ + ":"@ + path@,
{
    let mut s = string_of(target);
    s.append(":");
    s.append(path);
    s
}

/// Where a deployment stands.
#[derive(Debug, Clone, Copy, PartialEq, Eq, Structural)]
pub enum DeployStep {
    /// Creating the versioned directory.
    MakeDir,
    /// Uploading with rsync, which also sets the mode.
    Rsync,
    /// Uploading with scp, after rsync failed.
    Scp,
    /// Making the binary that scp uploaded executable.
    Chmod,
    /// Installed.
    Done,
    /// Stopped.
    Failed(DeployError),
}

/// The step that follows `step` when it succeeded (`ok`) or failed.
pub open spec fn next_step(step: DeployStep, ok: bool) -> DeployStep {
    match step {
        DeployStep::MakeDir => if ok {
            DeployStep::Rsync
        } else {
            DeployStep::Failed(DeployError::MakeDirFailed)
        },
        DeployStep::Rsync => if ok {
            DeployStep::Done
        } else {
            DeployStep::Scp
        },
        DeployStep::Scp => if ok {
            DeployStep::Chmod
        } else {
            DeployStep::Failed(DeployError::UploadFailed)
        },
        DeployStep::Chmod => if ok {
            DeployStep::Done
        } else {
            DeployStep::Failed(DeployError::ChmodFailed)
        },
        _ => step,
    }
}

/// The step reached from `step` after the outcomes `oks`, one per step run.
pub open spec fn run_steps(step: DeployStep, oks: Seq<bool>) -> DeployStep
    decreases oks.len(),
{
    if oks.len() == 0 {
        step
    } else {
        run_steps(next_step(step, oks[0]), oks.drop_first())
    }
}

/// A deployment of one version of the agent to one host, driven by the
/// outcomes of the remote steps that the caller runs.
pub struct Deployment {
    pub is_root: bool,
    pub remote_dir: String,
    pub remote_path: String,
    pub step: DeployStep,
    /// Whether the rsync upload succeeded.
    pub used_rsync: bool,
}

impl Deployment {
    pub open spec fn wf(&self, version: Seq<char>) -> bool {
        &&& self.remote_dir@ == spec_remote_dir(self.is_root, version)
        &&& self.remote_path@ == spec_remote_path(self.is_root, version)
    }

    /// Starts a deployment once the remote user's privilege is known.
    pub fn start(is_root: bool, version: &str) -> (r: Deployment)
        ensures
            r.wf(version@),
            r.is_root == is_root,
            r.step == DeployStep::MakeDir,
            !r.used_rsync,
    {
        Deployment {
            is_root,
            remote_dir: remote_dir(is_root, version),
            remote_path: remote_path(is_root, version),
            step: DeployStep::MakeDir,
            used_rsync: false,
        }
    }

    /// Records the outcome of the current step and moves to the next one.
    pub fn advance(&mut self, ok: bool) -> (r: DeployStep)
        ensures
            final(self).step == next_step(old(self).step, ok),
            r == final(self).step,
            final(self).is_root == old(self).is_root,
            final(self).remote_dir@ == old(self).remote_dir@,
            final(self).remote_path@ == old(self).remote_path@,
            final(self).used_rsync == (old(self).used_rsync || (old(self).step == DeployStep::Rsync
                && ok)),
    {
        if self.step == DeployStep::Rsync && ok {
            self.used_rsync = true;
        }
        let next = match self.step {
            DeployStep::MakeDir => if ok {
                DeployStep::Rsync
            } else {
                DeployStep::Failed(DeployError::MakeDirFailed)
            },
            DeployStep::Rsync => if ok {
                DeployStep::Done
            } else {
                DeployStep::Scp
            },
            DeployStep::Scp => if ok {
                DeployStep::Chmod
            } else {
                DeployStep::Failed(DeployError::UploadFailed)
            },
            DeployStep::Chmod => if ok {
                DeployStep::Done
            } else {
                DeployStep::Failed(DeployError::ChmodFailed)
            },
            other => other,
        };
        self.step = next;
        next
    }

    /// The outcome once the deployment has stopped: where the agent is and
    /// which transfer succeeded, or why it failed. `None` while steps remain.
    pub fn outcome(&self) -> (r: Option<Result<DeployResult, DeployError>>)
        ensures
            match self.step {
                DeployStep::Done => r matches Some(Ok(d)) && d.remote_path@ == self.remote_path@
                    && d.used_rsync == self.used_rsync,
                DeployStep::Failed(e) => r == Some(Err::<DeployResult, DeployError>(e)),
                _ => r is None,
            },
    {
        match self.step {
            DeployStep::Done => Some(
                Ok(DeployResult { remote_path: self.remote_path.clone(), used_rsync: self.used_rsync }),
            ),
            DeployStep::Failed(e) => Some(Err(e)),
            _ => None,
        }
    }
}

/// Re-running a deployment of the same version for the same user installs to
/// the same path, and a run whose upload and mode change succeed ends in
/// `Done` however the earlier run ended: rsync's success finishes at once
/// (its transfer sets mode 755), and after an rsync failure the scp upload is
/// followed by an explicit chmod before `Done`.
pub proof fn lemma_redeploy_same_path(is_root: bool, version: Seq<char>, first: Deployment, second: Deployment)
    requires
        first.wf(version),
        second.wf(version),
        first.is_root == is_root,
        second.is_root == is_root,
    ensures
        first.remote_path@ == second.remote_path@,
        run_steps(DeployStep::MakeDir, seq![true, true]) == DeployStep::Done,
        run_steps(DeployStep::MakeDir, seq![true, false, true, true]) == DeployStep::Done,
        forall|oks: Seq<bool>|
            #![trigger run_steps(DeployStep::MakeDir, oks)]
            run_steps(DeployStep::MakeDir, oks) == DeployStep::Done ==> oks.len() >= 2 && oks[0]
                && (oks[1] || (oks.len() >= 4 && oks[2] && oks[3])),
{
    reveal_with_fuel(run_steps, 5);
    assert(seq![true, true].drop_first() == seq![true]);
    assert(seq![true].drop_first() == Seq::<bool>::empty());
    let s4 = seq![true, false, true, true];
    assert(s4.drop_first() == seq![false, true, true]);
    assert(seq![false, true, true].drop_first() == seq![true, true]);
    assert forall|oks: Seq<bool>|
        #![trigger run_steps(DeployStep::MakeDir, oks)]
        run_steps(DeployStep::MakeDir, oks) == DeployStep::Done implies oks.len() >= 2 && oks[0]
            && (oks[1] || (oks.len() >= 4 && oks[2] && oks[3])) by {
        lemma_failed_stays(oks);
    }
}

proof fn lemma_stopped_stays(step: DeployStep, oks: Seq<bool>)
    requires
        step is Done || step is Failed,
    ensures
        run_steps(step, oks) == step,
    decreases oks.len(),
{
    if oks.len() > 0 {
        lemma_stopped_stays(step, oks.drop_first());
    }
}

proof fn lemma_failed_stays(oks: Seq<bool>)
    requires
        run_steps(DeployStep::MakeDir, oks) == DeployStep::Done,
    ensures
        oks.len() >= 2 && oks[0] && (oks[1] || (oks.len() >= 4 && oks[2] && oks[3])),
{
    reveal_with_fuel(run_steps, 5);
    if oks.len() == 0 {
    } else {
        let s1 = next_step(DeployStep::MakeDir, oks[0]);
        let o1 = oks.drop_first();
        if !oks[0] {
            lemma_stopped_stays(s1, o1);
        } else if o1.len() == 0 {
        } else {
            let s2 = next_step(s1, o1[0]);
            let o2 = o1.drop_first();
            if o1[0] {
            } else if o2.len() == 0 {
            } else {
                let s3 = next_step(s2, o2[0]);
                let o3 = o2.drop_first();
                if !o2[0] {
                    lemma_stopped_stays(s3, o3);
                } else if o3.len() == 0 {
                } else {
                    let s4 = next_step(s3, o3[0]);
                    if !o3[0] {
                        lemma_stopped_stays(s4, o3.drop_first());
                    }
                }
            }
        }
    }
}

} // verus!
