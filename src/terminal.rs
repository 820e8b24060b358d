use vstd::prelude::*;
use crate::ssh::AuthMethod;

verus! {

/// Where a terminal session runs.
#[derive(Debug, Clone)]
pub enum SessionType {
    Local,
    Ssh { host: String, port: u16, username: String },
}

/// What is needed to open another connection to the same SSH server.
#[derive(Clone)]
pub struct SshConnectionInfo {
    pub host: String,
    pub port: u16,
    pub username: String,
    pub auth: AuthMethod,
}

/// A terminal session as listed to the user.
#[derive(Debug, Clone)]
pub struct SessionInfo {
    pub id: String,
    pub session_type: SessionType,
    pub title: String,
}

} // verus!
