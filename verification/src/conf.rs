//! The perforator's configuration.
//!
//! The values come from the environment at startup; reading the
//! environment happens outside the library, which only records the
//! values and the defaults that apply when one is absent.

use vstd::prelude::*;

verus! {

/// The connection timeout every configuration carries, in milliseconds.
pub const DEFAULT_CONNECTION_TIMEOUT_MS: u64 = 3000;

/// What a perforator needs to know about itself and its seed.
pub struct ChappyConf {
    pub cluster_id: String,
    pub cluster_size: u32,
    pub connection_timeout_ms: u64,
    pub seed_hostname: String,
    pub seed_port: String,
    pub virtual_ip: String,
}

impl ChappyConf {
    /// Assemble a configuration from the values read from the
    /// environment. A missing cluster id falls back to `"default"`; the
    /// connection timeout is fixed.
    pub fn assemble(
        cluster_id: Option<String>,
        cluster_size: u32,
        seed_hostname: String,
        seed_port: String,
        virtual_ip: String,
    ) -> (conf: ChappyConf)
        ensures
            match cluster_id {
                Some(c) => conf.cluster_id@ == c@,
                None => conf.cluster_id@ == "default"@,
            },
            conf.cluster_size == cluster_size,
            conf.connection_timeout_ms == DEFAULT_CONNECTION_TIMEOUT_MS,
            conf.seed_hostname@ == seed_hostname@,
            conf.seed_port@ == seed_port@,
            conf.virtual_ip@ == virtual_ip@,
    {
        let cluster_id = match cluster_id {
            Some(c) => c,
            None => "default".to_owned(),
        };
        ChappyConf {
            cluster_id,
            cluster_size,
            connection_timeout_ms: DEFAULT_CONNECTION_TIMEOUT_MS,
            seed_hostname,
            seed_port,
            virtual_ip,
        }
    }
}

} // verus!
