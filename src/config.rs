use vstd::prelude::*;

verus! {

/// An agent's configuration.
pub struct Config {
    pub agent: AgentConfig,
    pub network: NetworkConfig,
    pub openclaw: OpenClawConfig,
    pub keys: KeysConfig,
}

pub struct AgentConfig {
    /// The agent's own id, `name-<8 hex digits>`.
    pub id: String,
}

pub struct NetworkConfig {
    pub listen_port: u16,
}

/// Where the policy engine's executable lives.
pub struct OpenClawConfig {
    pub path: String,
}

/// Where the agent's keys, keyring and TLS material live.
pub struct KeysConfig {
    pub private_key_path: String,
    pub public_key_path: String,
    pub keyring_path: String,
    pub cert_path: String,
    pub key_path: String,
}

} // verus!
