//! The remembered state of the agent on each host alias.

use vstd::prelude::*;
use vstd::string::*;
use crate::text::{parse_u64, spec_parse_u64, string_of};

verus! {

/// What is remembered of the agent on one host alias. The record is
/// replaced as a whole after each check or deployment.
#[derive(Debug, Clone)]
pub struct AgentDeploymentState {
    pub alias: String,
    pub last_deployed_version: Option<String>,
    /// When it was deployed, as RFC 3339 text.
    pub last_deployed_at: Option<String>,
    pub remote_path: Option<String>,
    pub remote_checksum: Option<String>,
    /// Whether the last check reached a working agent.
    pub last_seen_ok: bool,
}

/// What is known of the agent on a host.
#[derive(Debug, Clone)]
pub enum RemoteAgentStatus {
    Unknown,
    NotPresent,
    Outdated { remote_version: Option<String> },
    Connecting,
    Connected { agent_version: String },
    Error { message: String },
}

/// The status line for a record: connected (with the agent's version when
/// known) or not.
pub open spec fn status_line(last_seen_ok: bool, version: Option<Seq<char>>) -> Seq<char> {
    if last_seen_ok {
        match version {
            Some(v) => "connected v"@ + v,
            None => "connected"@,
        }
    } else {
        "not present or incompatible"@
    }
}

impl AgentDeploymentState {
    /// The record with which a check of `alias` starts: the expected path,
    /// nothing seen yet.
    pub fn checking(alias: &str, remote_path: &str) -> (r: AgentDeploymentState)
        ensures
            r.alias@ == alias@,
            r.remote_path matches Some(p) && p@ == remote_path@,
            r.last_deployed_version is None,
            r.last_deployed_at is None,
            r.remote_checksum is None,
            !r.last_seen_ok,
    {
        AgentDeploymentState {
            alias: string_of(alias),
            last_deployed_version: None,
            last_deployed_at: None,
            remote_path: Some(string_of(remote_path)),
            remote_checksum: None,
            last_seen_ok: false,
        }
    }

    /// Records a successful handshake with an agent of `agent_version`.
    pub fn record_hello(&mut self, agent_version: String)
        ensures
            final(self).last_deployed_version matches Some(v) && v@ == agent_version@,
            final(self).last_seen_ok,
            final(self).alias == old(self).alias,
            final(self).remote_path == old(self).remote_path,
            final(self).last_deployed_at == old(self).last_deployed_at,
            final(self).remote_checksum == old(self).remote_checksum,
    {
        self.last_deployed_version = Some(agent_version);
        self.last_seen_ok = true;
    }

    /// The status line for this record.
    pub fn status_text(&self) -> (r: String)
        ensures
            r@ == status_line(self.last_seen_ok, match &self.last_deployed_version {
                Some(v) => Some(v@),
                None => None,
            }),
    {
        if self.last_seen_ok {
            match &self.last_deployed_version {
                Some(v) => {
                    let mut s = string_of("connected v");
                    s.append(v.as_str());
                    s
                },
                None => string_of("connected"),
            }
        } else {
            string_of("not present or incompatible")
        }
    }
}

/// The name of the file that holds an alias's record.
pub fn state_file_name(alias: &str) -> (r: String)
    ensures
        r@ == alias@ + ".json"@,
{
    let mut s = string_of(alias);
    s.append(".json");
    s
}

/// The default timeout of remote operations, in seconds.
pub const DEFAULT_TIMEOUT_SECS: u64 = 3;

pub open spec fn parsed_or(text: Option<Seq<char>>, fallback: u64) -> u64 {
    match text {
        Some(t) => match spec_parse_u64(t) {
            Some(n) => n,
            None => fallback,
        },
        None => fallback,
    }
}

pub open spec fn opt_view(text: Option<&str>) -> Option<Seq<char>> {
    match text {
        Some(t) => Some(t@),
        None => None,
    }
}

/// The timeout of remote operations for one host: the host's own setting if
/// it is a number, else the global setting if it is one, else 3 seconds.
pub fn ssh_timeout_secs(per_host: Option<&str>, global: Option<&str>) -> (r: u64)
    ensures
        r == match per_host {
            Some(t) if spec_parse_u64(t@) is Some => spec_parse_u64(t@)->Some_0,
            _ => parsed_or(opt_view(global), DEFAULT_TIMEOUT_SECS),
        },
{
    let from_host = match per_host {
        Some(t) => parse_u64(t),
        None => None,
    };
    match from_host {
        Some(n) => n,
        None => match global {
            Some(t) => match parse_u64(t) {
                Some(n) => n,
                None => DEFAULT_TIMEOUT_SECS,
            },
            None => DEFAULT_TIMEOUT_SECS,
        },
    }
}

} // verus!
