use vstd::prelude::*;

use crate::path::{below, join_path};

verus! {

/// The settings of a repo's envs, from `.vitro/config.toml`.
#[derive(Debug)]
pub struct EnvConfig {
    pub memory: String,
    pub vcpu: u32,
    pub ports: Vec<u16>,
    pub server: Option<String>,
    pub secrets: SecretsConfig,
    pub egress: EnvEgressConfig,
    pub session: Option<SessionConfig>,
    pub persist: Vec<PersistConfig>,
}

#[derive(Debug, Clone)]
pub struct SessionConfig {
    /// Command and arguments of the long-lived agent session in the env.
    pub command: Vec<String>,
    pub hook: Vec<HookConfig>,
}

#[derive(Debug, Clone)]
pub struct HookConfig {
    /// Trigger type: "match", "idle", "exit", "start".
    pub on: String,
    /// Regex pattern, for "match".
    pub pattern: Option<String>,
    /// Duration, for "idle" (such as "10m").
    pub after: Option<String>,
    /// Path of the script to execute, relative to the repo root.
    pub run: String,
}

#[derive(Debug, Clone)]
pub struct PersistConfig {
    /// Absolute path inside the env that outlives restarts.
    pub path: String,
    /// What the path stores.
    pub purpose: Option<String>,
}

#[derive(Debug, Clone)]
pub struct SecretsConfig {
    pub command: Option<String>,
    pub keys: Vec<String>,
}

#[derive(Debug, Clone)]
pub struct EnvEgressConfig {
    pub writes: Option<EnvEgressRules>,
    pub reads: Option<EnvEgressRules>,
    pub credentials: Vec<CredentialConfig>,
}

#[derive(Debug, Clone)]
pub struct EnvEgressRules {
    pub allowed: Option<Vec<String>>,
    pub denied: Option<Vec<String>>,
}

#[derive(Debug, Clone)]
pub struct CredentialConfig {
    pub host: String,
    pub header: String,
    pub env_var: String,
}

/// The memory of an env whose config names none.
pub fn default_memory() -> (r: String)
    ensures
        r@ == "2G"@,
{
    "2G".to_string()
}

/// The number of virtual CPUs of an env whose config names none.
pub fn default_vcpu() -> (r: u32)
    ensures
        r == 2,
{
    2
}

impl Default for SecretsConfig {
    fn default() -> (r: Self)
        ensures
            r.command is None,
            r.keys@.len() == 0,
    {
        SecretsConfig { command: None, keys: Vec::new() }
    }
}

impl Default for EnvEgressConfig {
    fn default() -> (r: Self)
        ensures
            r.writes is None,
            r.reads is None,
            r.credentials@.len() == 0,
    {
        EnvEgressConfig { writes: None, reads: None, credentials: Vec::new() }
    }
}

impl Default for EnvEgressRules {
    fn default() -> (r: Self)
        ensures
            r.allowed is None,
            r.denied is None,
    {
        EnvEgressRules { allowed: None, denied: None }
    }
}

impl Default for EnvConfig {
    fn default() -> (r: Self)
        ensures
            r.memory@ == "2G"@,
            r.vcpu == 2,
            r.ports@.len() == 0,
            r.server is None,
            r.secrets.command is None,
            r.secrets.keys@.len() == 0,
            r.egress.writes is None,
            r.egress.reads is None,
            r.egress.credentials@.len() == 0,
            r.session is None,
            r.persist@.len() == 0,
    {
        EnvConfig {
            memory: default_memory(),
            vcpu: default_vcpu(),
            ports: Vec::new(),
            server: None,
            secrets: SecretsConfig::default(),
            egress: EnvEgressConfig::default(),
            session: None,
            persist: Vec::new(),
        }
    }
}

/// The configuration file of a repo.
pub fn config_path(repo_root: &str) -> (r: String)
    ensures
        r@ == below(repo_root@, ".vitro/config.toml"@),
{
    join_path(repo_root, ".vitro/config.toml")
}

} // verus!
