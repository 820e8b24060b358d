use vstd::prelude::*;

verus! {

/// How an SSH connection authenticates.
#[derive(Debug, Clone)]
pub enum AuthMethod {
    Password { password: String },
    PublicKey { private_key_path: String, passphrase: Option<String> },
    Agent,
}

impl AuthMethod {
    /// Password authentication.
    pub fn password(password: String) -> (r: Self)
        ensures
            r == (AuthMethod::Password { password }),
    {
        AuthMethod::Password { password }
    }

    /// Key-file authentication, with the key's passphrase if it has one.
    pub fn public_key(private_key_path: String, passphrase: Option<String>) -> (r: Self)
        ensures
            r == (AuthMethod::PublicKey { private_key_path, passphrase }),
    {
        AuthMethod::PublicKey { private_key_path, passphrase }
    }

    /// Authentication through the running SSH agent.
    pub fn agent() -> (r: Self)
        ensures
            r == AuthMethod::Agent,
    {
        AuthMethod::Agent
    }
}

} // verus!
