//! The desktop shell's local services: master-key storage in the OS
//! keychain, locating the MT5 terminal, and supervising the core, gateway
//! and agent processes. None is available yet; each reports so.

use vstd::prelude::*;

verus! {

#[verifier::external_type_specification]
#[verifier::external_body]
pub struct ExPathBuf(std::path::PathBuf);

/// Access to the master key kept in the OS keychain.
pub struct Keychain;

impl Keychain {
    pub fn load_master_key() -> (r: Result<Vec<u8>, String>)
        ensures
            r matches Err(msg) && msg@ == "keychain access is Phase 4 scope"@,
    {
        Err("keychain access is Phase 4 scope".to_owned())
    }
}

/// Where an MT5 terminal and its data directory live.
pub struct Mt5Installation {
    pub terminal_path: std::path::PathBuf,
    pub data_path: std::path::PathBuf,
}

pub fn locate() -> (r: Result<Mt5Installation, String>)
    ensures
        r matches Err(msg) && msg@ == "mt5_locator is Phase 1/11 scope"@,
{
    Err("mt5_locator is Phase 1/11 scope".to_owned())
}

#[derive(Debug, Clone, Copy, PartialEq, Eq, Structural)]
pub enum ManagedService {
    Core,
    Gateway,
    Agents,
}

/// Supervisor of the platform's processes.
pub struct ProcessManager;

impl ProcessManager {
    pub fn start(&mut self, service: ManagedService) -> (r: Result<(), String>)
        ensures
            r matches Err(msg) && msg@ == "process supervision is Phase 4/11 scope"@,
    {
        Err("process supervision is Phase 4/11 scope".to_owned())
    }
}

} // verus!
