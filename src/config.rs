use std::collections::HashMap;
use std::path::PathBuf;
use vstd::prelude::*;

use crate::types::Algorithm;

verus! {

/// Relies on std's `PathBuf`, carried through the configuration unread.
#[verifier::external_type_specification]
#[verifier::external_body]
pub struct ExPathBuf(PathBuf);

/// One GPU device that the ProgPow back-end drives.
#[derive(Debug, Clone, Copy, PartialEq, Eq, Structural)]
pub struct GpuConfig {
    pub device: u32,
    pub driver: u8,
}

/// Settings of the RandomX back-end.
#[derive(Debug, Clone, Copy, PartialEq, Eq, Structural)]
pub struct RxConfig {
    /// Number of solver workers (one per CPU thread).
    pub threads: u64,
    pub jit: bool,
    pub hard_aes: bool,
    pub large_pages: bool,
}

/// Worker count used when the configuration leaves it out.
pub fn default_threads() -> (r: u64)
    ensures
        r == 1,
{
    1
}

/// Value of a RandomX flag that the configuration leaves out.
pub fn default_rx_bool() -> (r: bool)
    ensures
        !r,
{
    false
}

impl Default for RxConfig {
    fn default() -> (r: Self)
        ensures
            r.threads == 1,
            !r.jit,
            !r.hard_aes,
            !r.large_pages,
    {
        RxConfig { jit: false, hard_aes: false, large_pages: false, threads: 1 }
    }
}

/// Configuration of one Cuckoo solver plugin.
#[derive(Debug, Clone)]
pub struct EpicMinerPluginConfig {
    /// The type of plugin to load (filters on file name).
    pub plugin_name: String,
    /// Solver parameters by name.
    pub parameters: Option<HashMap<String, u32>>,
}

impl Default for EpicMinerPluginConfig {
    fn default() -> (r: Self)
        ensures
            r.plugin_name@.len() == 0,
            r.parameters.is_none(),
    {
        EpicMinerPluginConfig { plugin_name: String::new(), parameters: None }
    }
}

/// Address of the stratum server when none is configured.
pub const DEFAULT_STRATUM_ADDR: &'static str = "http://127.0.0.1:13416";

/// Basic mining configuration.
#[derive(Debug, Clone)]
pub struct MinerConfig {
    /// Algorithm to mine with.
    pub algorithm: Option<Algorithm>,
    pub randomx_config: RxConfig,
    /// Whether to run the terminal interface.
    pub run_tui: bool,
    pub stratum_server_addr: String,
    pub stratum_server_login: Option<String>,
    pub stratum_server_password: Option<String>,
    pub stratum_server_tls_enabled: Option<bool>,
    /// Directory of the Cuckoo solver plugins.
    pub miner_plugin_dir: Option<PathBuf>,
    /// One entry per Cuckoo solver plugin.
    pub miner_plugin_config: Vec<EpicMinerPluginConfig>,
    /// One entry per GPU device.
    pub gpu_config: Vec<GpuConfig>,
}

impl Default for MinerConfig {
    fn default() -> (r: Self)
        ensures
            r.algorithm == Some(Algorithm::RandomX),
            r.randomx_config.threads == 1,
            !r.run_tui,
            r.stratum_server_addr@ == DEFAULT_STRATUM_ADDR@,
            r.stratum_server_login.is_none(),
            r.stratum_server_password.is_none(),
            r.stratum_server_tls_enabled.is_none(),
            r.miner_plugin_dir.is_none(),
            r.miner_plugin_config@.len() == 0,
            r.gpu_config@.len() == 0,
    {
        MinerConfig {
            algorithm: Some(Algorithm::RandomX),
            randomx_config: RxConfig::default(),
            run_tui: false,
            miner_plugin_dir: None,
            miner_plugin_config: Vec::new(),
            stratum_server_addr: DEFAULT_STRATUM_ADDR.to_owned(),
            stratum_server_login: None,
            stratum_server_password: None,
            stratum_server_tls_enabled: None,
            gpu_config: Vec::new(),
        }
    }
}

} // verus!
