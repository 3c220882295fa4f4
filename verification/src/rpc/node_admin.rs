//! The admin service: what a caller with the right permission may read or
//! change of the node's settings. Reading permissions from the request,
//! writing the changed settings to the configuration file and the numbering
//! of modes on the wire happen outside.
use crate::auth::permissions::{allows, verify_perms, PermissionError};
use crate::config::{Config, Mode};
use vstd::prelude::*;

verus! {

broadcast use vstd::string::group_string_axioms;

/// Why an admin call failed.
#[derive(Debug)]
pub enum AdminError {
    /// the caller may not make the call
    Permission(PermissionError),
    /// the call failed, with this message
    Internal(String),
}

/// The permission check of a call, as a value: `None` when it passes.
pub open spec fn denied(permissions: Option<&Vec<String>>, needs: Seq<char>) -> Option<PermissionError> {
    match permissions {
        None => Some(PermissionError::MetadataMissing),
        Some(p) => if allows(p@, needs) {
            None
        } else {
            Some(PermissionError::NoPermissions)
        },
    }
}

/// Checks that the caller holds `needs`.
fn check(permissions: Option<&Vec<String>>, needs: &str) -> (r: Result<(), AdminError>)
    ensures
        match denied(permissions, needs@) {
            None => r is Ok,
            Some(e) => r matches Err(AdminError::Permission(p)) && p == e,
        },
{
    match verify_perms(permissions, needs) {
        Ok(()) => Ok(()),
        Err(e) => Err(AdminError::Permission(e)),
    }
}

/// Answers the admin calls.
#[derive(Debug)]
pub struct NodeAdminService {}

impl NodeAdminService {
    /// The admin service.
    pub fn new() -> (r: Self) {
        NodeAdminService {  }
    }

    /// The node's version, for a caller with "admin.read".
    pub fn get_version(&self, permissions: Option<&Vec<String>>, version: &str) -> (r: Result<String, AdminError>)
        ensures
            match denied(permissions, "admin.read"@) {
                None => r matches Ok(v) && v@ == version@,
                Some(e) => r matches Err(AdminError::Permission(p)) && p == e,
            },
    {
        check(permissions, "admin.read")?;
        Ok(version.to_string())
    }

    /// The number of blocks waiting in the blockpool, for a caller with
    /// "admin.read", given what asking the pool gave.
    pub fn get_block_pool_size(&self, permissions: Option<&Vec<String>>, queue_size: Option<u64>) -> (r: Result<
        u64,
        AdminError,
    >)
        ensures
            match denied(permissions, "admin.read"@) {
                None => match queue_size {
                    Some(n) => r matches Ok(m) && m == n,
                    None => r matches Err(AdminError::Internal(m)) && m@ == "could not get queue length"@,
                },
                Some(e) => r matches Err(AdminError::Permission(p)) && p == e,
            },
    {
        check(permissions, "admin.read")?;
        match queue_size {
            Some(n) => Ok(n),
            None => {
                proof {
                    reveal_strlit("could not get queue length");
                }
                Err(AdminError::Internal("could not get queue length".to_string()))
            },
        }
    }

    /// The node's mode, for a caller with "admin.read".
    pub fn get_mode(&self, permissions: Option<&Vec<String>>, config: &Config) -> (r: Result<Mode, AdminError>)
        ensures
            match denied(permissions, "admin.read"@) {
                None => r matches Ok(m) && m == config.consensus.mode,
                Some(e) => r matches Err(AdminError::Permission(p)) && p == e,
            },
    {
        check(permissions, "admin.read")?;
        Ok(config.consensus.mode)
    }

    /// Sets the node's mode, for a caller with "admin.write"; `mode` is
    /// `None` when the requested number names no mode.
    pub fn set_mode(&self, permissions: Option<&Vec<String>>, config: &mut Config, mode: Option<Mode>) -> (r: Result<
        (),
        AdminError,
    >)
        ensures
            match denied(permissions, "admin.write"@) {
                None => match mode {
                    Some(m) => r is Ok && final(config).consensus.mode == m,
                    None => r matches Err(AdminError::Internal(e)) && e@ == "invalid mode"@ && final(config).consensus.mode
                        == old(config).consensus.mode,
                },
                Some(e) => r matches Err(AdminError::Permission(p)) && p == e && final(config).consensus.mode == old(
                    config,
                ).consensus.mode,
            },
            final(config).admin.node_name == old(config).admin.node_name,
            final(config).consensus.chain == old(config).consensus.chain,
    {
        check(permissions, "admin.write")?;
        match mode {
            Some(m) => {
                config.consensus.mode = m;
                Ok(())
            },
            None => {
                proof {
                    reveal_strlit("invalid mode");
                }
                Err(AdminError::Internal("invalid mode".to_string()))
            },
        }
    }

    /// The node's name, for a caller with "admin.read".
    pub fn get_node_name(&self, permissions: Option<&Vec<String>>, config: &Config) -> (r: Result<String, AdminError>)
        ensures
            match denied(permissions, "admin.read"@) {
                None => r matches Ok(n) && n@ == config.admin.node_name@,
                Some(e) => r matches Err(AdminError::Permission(p)) && p == e,
            },
    {
        check(permissions, "admin.read")?;
        Ok(config.admin.node_name.clone())
    }

    /// Renames the node, for a caller with "admin.write".
    pub fn set_node_name(&self, permissions: Option<&Vec<String>>, config: &mut Config, new_name: String) -> (r: Result<
        (),
        AdminError,
    >)
        ensures
            match denied(permissions, "admin.write"@) {
                None => r is Ok && final(config).admin.node_name@ == new_name@,
                Some(e) => r matches Err(AdminError::Permission(p)) && p == e && final(config).admin.node_name
                    == old(config).admin.node_name,
            },
            final(config).consensus.mode == old(config).consensus.mode,
    {
        check(permissions, "admin.write")?;
        config.admin.node_name = new_name;
        Ok(())
    }

    /// The chain the node is on, for a caller with "admin.read".
    pub fn get_chain(&self, permissions: Option<&Vec<String>>, config: &Config) -> (r: Result<String, AdminError>)
        ensures
            match denied(permissions, "admin.read"@) {
                None => r matches Ok(c) && c@ == config.consensus.chain@,
                Some(e) => r matches Err(AdminError::Permission(p)) && p == e,
            },
    {
        check(permissions, "admin.read")?;
        Ok(config.consensus.chain.clone())
    }
}

} // verus!
