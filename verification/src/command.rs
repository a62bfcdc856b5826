//! The run-command envelope: the fully resolved order that the
//! scheduler hands to the session manager and the session manager
//! streams to an executor.

use vstd::prelude::*;
use crate::strmap::StrMap;

verus! {

/// A readable device as materialised into a run command: its resource
/// name and the reported value of each twin property.
#[derive(Debug, Clone)]
pub struct ReadDevice {
    pub name: String,
    pub status: StrMap<String>,
}

/// A writable device as materialised into a run command.
#[derive(Debug, Clone)]
pub struct WriteDevice {
    pub name: String,
}

/// The manifest carried inside a run command.
#[derive(Debug, Clone)]
pub struct RunManifest {
    pub script_type: i32,
    pub package_name: String,
    pub package_version: String,
    pub register: String,
}

/// A ready-to-send run command; built fresh per trigger, never
/// persisted.
#[derive(Debug, Clone)]
pub struct RunCommand {
    pub script_id: u32,
    pub manifest: Option<RunManifest>,
    pub readable: StrMap<ReadDevice>,
    pub writable: StrMap<WriteDevice>,
    pub env: StrMap<String>,
    pub default_qos: i32,
}

/// The envelope around a run command on its way to the session
/// manager: the command plus the script's identity, kept for the
/// status write-back.
#[derive(Debug)]
pub struct ManagerMsg {
    pub run: RunCommand,
    pub name: String,
    pub namespace: String,
}

} // verus!
