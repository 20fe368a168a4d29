//! The messages of the wire protocol: commands to the agent and its responses.

use vstd::prelude::*;

verus! {

/// A request sent by the client to the agent; every variant carries the
/// correlation id that the answer echoes.
#[derive(Debug, Clone, PartialEq, Eq)]
pub enum Command {
    /// Client-initiated handshake.
    Hello { id: u64, client_version: String },
    /// Fetch basic system information.
    SysInfo { id: u64 },
    /// Fetch static system configuration.
    StaticConfig { id: u64 },
    /// Fetch the service manager's units.
    ServicesList { id: u64 },
    /// List the immediate children of a directory, one page at a time.
    ListDir { id: u64, path: String, max: Option<usize>, skip: Option<usize> },
}

/// Mathematical form of a [`Command`].
pub enum CommandV {
    Hello { id: u64, client_version: Seq<char> },
    SysInfo { id: u64 },
    StaticConfig { id: u64 },
    ServicesList { id: u64 },
    ListDir { id: u64, path: Seq<char>, max: Option<usize>, skip: Option<usize> },
}

impl View for Command {
    type V = CommandV;

    open spec fn view(&self) -> CommandV {
        match self {
            Command::Hello { id, client_version } => CommandV::Hello {
                id: *id,
                client_version: client_version@,
            },
            Command::SysInfo { id } => CommandV::SysInfo { id: *id },
            Command::StaticConfig { id } => CommandV::StaticConfig { id: *id },
            Command::ServicesList { id } => CommandV::ServicesList { id: *id },
            Command::ListDir { id, path, max, skip } => CommandV::ListDir {
                id: *id,
                path: path@,
                max: *max,
                skip: *skip,
            },
        }
    }
}

impl CommandV {
    pub open spec fn id(self) -> u64 {
        match self {
            CommandV::Hello { id, .. } => id,
            CommandV::SysInfo { id } => id,
            CommandV::StaticConfig { id } => id,
            CommandV::ServicesList { id } => id,
            CommandV::ListDir { id, .. } => id,
        }
    }
}

impl Command {
    /// The correlation id of the command.
    pub fn id(&self) -> (r: u64)
        ensures
            r == self@.id(),
    {
        match self {
            Command::Hello { id, .. } => *id,
            Command::SysInfo { id } => *id,
            Command::StaticConfig { id } => *id,
            Command::ServicesList { id } => *id,
            Command::ListDir { id, .. } => *id,
        }
    }
}

/// One child of a listed directory.
#[derive(Debug, Clone, PartialEq, Eq)]
pub struct DirEntry {
    pub name: String,
    pub path: String,
    pub is_dir: bool,
    /// The length in bytes, for regular files only.
    pub size: Option<u64>,
}

/// Basic facts about the agent's machine.
#[derive(Debug, Clone, PartialEq, Eq)]
pub struct SysInfo {
    pub os: String,
    pub kernel: String,
    pub arch: String,
    pub uptime_secs: u64,
    pub hostname: String,
}

/// Static configuration of the agent's machine.
#[derive(Debug, Clone, PartialEq, Eq)]
pub struct StaticConfig {
    pub os_release: Option<String>,
    pub cpu_count: u32,
    pub mem_total_bytes: u64,
}

/// One unit of the service manager.
#[derive(Debug, Clone, PartialEq, Eq)]
pub struct ServiceInfo {
    pub name: String,
    pub description: Option<String>,
    pub active_state: String,
    pub sub_state: String,
    /// `Some(true)` when enabled, `Some(false)` when disabled, `None` otherwise.
    pub enabled: Option<bool>,
}

/// A feature that the agent advertises in its handshake answer.
#[derive(Debug, Clone, Copy, PartialEq, Eq, Structural)]
pub enum Capability {
    SysInfo,
    StaticConfig,
    ServicesList,
    ContainersList,
    NetListeners,
    ProcessesSummary,
}

/// An answer sent by the agent; every variant echoes the id of the command
/// it answers (0 when the input line could not be read as a command).
#[derive(Debug, Clone, PartialEq, Eq)]
pub enum Response {
    /// The agent acknowledges the handshake and advertises its capabilities.
    HelloAck { id: u64, agent_version: String, capabilities: Vec<Capability> },
    SysInfoOk { id: u64, info: SysInfo },
    StaticConfigOk { id: u64, config: StaticConfig },
    ServicesListOk { id: u64, services: Vec<ServiceInfo> },
    ListDirOk { id: u64, entries: Vec<DirEntry>, eof: bool },
    Error { id: u64, message: String },
}

impl Response {
    pub open spec fn spec_id(&self) -> u64 {
        match self {
            Response::HelloAck { id, .. } => *id,
            Response::SysInfoOk { id, .. } => *id,
            Response::StaticConfigOk { id, .. } => *id,
            Response::ServicesListOk { id, .. } => *id,
            Response::ListDirOk { id, .. } => *id,
            Response::Error { id, .. } => *id,
        }
    }

    /// The id that the response echoes.
    pub fn id(&self) -> (r: u64)
        ensures
            r == self.spec_id(),
    {
        match self {
            Response::HelloAck { id, .. } => *id,
            Response::SysInfoOk { id, .. } => *id,
            Response::StaticConfigOk { id, .. } => *id,
            Response::ServicesListOk { id, .. } => *id,
            Response::ListDirOk { id, .. } => *id,
            Response::Error { id, .. } => *id,
        }
    }
}

} // verus!
