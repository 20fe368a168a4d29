//! The agent's decision for each input line, and its answers.

use vstd::prelude::*;
use vstd::string::*;
use crate::listing::{effective_max, effective_skip, list_page, listing, page};
use crate::proto::{Capability, Command, CommandV, DirEntry, Response};
use crate::text::{spec_starts_with, starts_with, string_of};
use crate::wire::{command_of, decode_command, Json};

verus! {

/// The version that the agent reports.
pub const AGENT_VERSION: &'static str = "0.1.0";

/// The capabilities that this build of the agent advertises: one for each
/// optional command that it serves.
pub open spec fn advertised() -> Seq<Capability> {
    seq![Capability::SysInfo, Capability::StaticConfig, Capability::ServicesList]
}

pub fn capabilities() -> (r: Vec<Capability>)
    ensures
        r@ == advertised(),
{
    let mut v: Vec<Capability> = Vec::new();
    v.push(Capability::SysInfo);
    v.push(Capability::StaticConfig);
    v.push(Capability::ServicesList);
    v
}

/// `path` with a leading `~/` replaced by the home directory, when one is known.
pub open spec fn expanded(path: Seq<char>, home: Option<Seq<char>>) -> Seq<char> {
    if spec_starts_with(path, "~/"@) && home is Some {
        home->Some_0 + "/"@ + path.subrange(2, path.len() as int)
    } else {
        path
    }
}

pub fn expand_tilde(path: &str, home: Option<&str>) -> (r: String)
    ensures
        r@ == expanded(path@, match home {
            Some(h) => Some(h@),
            None => None,
        }),
{
    proof {
        reveal_strlit("~/");
    }
    match home {
        Some(h) => {
            if starts_with(path, "~/") {
                let n = path.unicode_len();
                let mut s = string_of(h);
                s.append("/");
                s.append(path.substring_char(2, n));
                return s;
            }
            string_of(path)
        },
        None => string_of(path),
    }
}

/// What the agent does with one input line.
pub enum Action {
    /// Send this response at once.
    Reply(Response),
    /// Gather the machine's basic facts and answer `SysInfoOk` with this id.
    SysInfo { id: u64 },
    /// Gather the machine's static configuration and answer `StaticConfigOk`.
    StaticConfig { id: u64 },
    /// Ask the service manager for its units and answer `ServicesListOk`.
    ServicesList { id: u64 },
    /// Read the directory `dir` and answer one page of it.
    ListDir { id: u64, dir: String, max: Option<usize>, skip: Option<usize> },
}

/// The response is an error with id 0, the answer to input that is no command.
pub open spec fn is_transport_error(r: Response) -> bool {
    r matches Response::Error { id, .. } && id == 0
}

/// The answer to a line that could not be read as a command.
pub fn malformed(reason: &str) -> (r: Response)
    ensures
        is_transport_error(r),
        r matches Response::Error { message, .. } && message@ == "invalid json: "@ + reason@,
{
    let mut m = string_of("invalid json: ");
    m.append(reason);
    Response::Error { id: 0, message: m }
}

pub open spec fn home_view(home: Option<&str>) -> Option<Seq<char>> {
    match home {
        Some(h) => Some(h@),
        None => None,
    }
}

/// What `dispatch` does with a command.
pub open spec fn action_for(c: CommandV, home: Option<Seq<char>>, a: Action) -> bool {
    match c {
        CommandV::Hello { id, .. } => a matches Action::Reply(
            Response::HelloAck { id: rid, agent_version, capabilities },
        ) && rid == id && agent_version@ == AGENT_VERSION@ && capabilities@ == advertised(),
        CommandV::SysInfo { id } => a == Action::SysInfo { id },
        CommandV::StaticConfig { id } => a == Action::StaticConfig { id },
        CommandV::ServicesList { id } => a == Action::ServicesList { id },
        CommandV::ListDir { id, path, max, skip } => a matches Action::ListDir {
            id: aid,
            dir,
            max: amax,
            skip: askip,
        } && aid == id && dir@ == expanded(path, home) && amax == max && askip == skip,
    }
}

/// Decides what to do with one input line, given what the JSON reader made of
/// it (`Err` holds its complaint) and the agent's home directory.
pub fn dispatch(parsed: Result<Json, String>, home: Option<&str>) -> (r: Action)
    ensures
        match parsed {
            Err(_) => r matches Action::Reply(e) && is_transport_error(e),
            Ok(j) => match command_of(j) {
                None => r matches Action::Reply(e) && is_transport_error(e),
                Some(c) => action_for(c, home_view(home), r),
            },
        },
{
    let j = match parsed {
        Ok(j) => j,
        Err(e) => {
            return Action::Reply(malformed(e.as_str()));
        },
    };
    match decode_command(&j) {
        Err(e) => Action::Reply(malformed(e.as_str())),
        Ok(Command::Hello { id, .. }) => Action::Reply(
            Response::HelloAck {
                id,
                agent_version: string_of(AGENT_VERSION),
                capabilities: capabilities(),
            },
        ),
        Ok(Command::SysInfo { id }) => Action::SysInfo { id },
        Ok(Command::StaticConfig { id }) => Action::StaticConfig { id },
        Ok(Command::ServicesList { id }) => Action::ServicesList { id },
        Ok(Command::ListDir { id, path, max, skip }) => Action::ListDir {
            id,
            dir: expand_tilde(path.as_str(), home),
            max,
            skip,
        },
    }
}

/// The answer to a listing request whose directory was read: one page of
/// it in listing order.
pub fn list_dir_ok(id: u64, entries: Vec<DirEntry>, max: Option<usize>, skip: Option<usize>) -> (r:
    Response)
    ensures
        r matches Response::ListDirOk { id: rid, entries: page_entries, eof } && rid == id && (
        page_entries@, eof) == page(listing(entries@), effective_skip(skip), effective_max(max)),
{
    let (p, eof) = list_page(entries, max, skip);
    Response::ListDirOk { id, entries: p, eof }
}

/// The answer to a request that failed: an error that carries the request's id.
pub fn request_failed(id: u64, what: &str, reason: &str) -> (r: Response)
    ensures
        r matches Response::Error { id: rid, message } && rid == id && message@ == what@ + ": "@
            + reason@,
{
    let mut m = string_of(what);
    m.append(": ");
    m.append(reason);
    Response::Error { id, message: m }
}

/// The id of the request that an action answers (0 for input that was no
/// command).
pub open spec fn action_id(a: Action) -> u64 {
    match a {
        Action::Reply(r) => r.spec_id(),
        Action::SysInfo { id } => id,
        Action::StaticConfig { id } => id,
        Action::ServicesList { id } => id,
        Action::ListDir { id, .. } => id,
    }
}

/// Whatever a recognised command leads to carries its id: the action that
/// `dispatch` chose (`action_for`), and the answer to a listing, whether the
/// directory was read (`entries`) or not (`reason`).
pub proof fn lemma_answer_keeps_id(
    c: CommandV,
    home: Option<Seq<char>>,
    a: Action,
    listed: Response,
    failed: Response,
)
    requires
        action_for(c, home, a),
        a is ListDir ==> (listed is ListDirOk && listed.spec_id() == action_id(a)),
        a is ListDir ==> (failed is Error && failed.spec_id() == action_id(a)),
    ensures
        action_id(a) == c.id(),
        a is ListDir ==> listed.spec_id() == c.id() && failed.spec_id() == c.id(),
{
}

} // verus!
