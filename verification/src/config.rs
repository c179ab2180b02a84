//! The process configuration: server binding, optional password, worker
//! count.

use vstd::prelude::*;

verus! {

/// The `[server]` table of the configuration file.
pub struct ServerConfig {
    pub host: String,
    pub port: u16,
    pub password: Option<String>,
}

/// The `[cluster]` table of the configuration file.
pub struct ClusterConfig {
    pub workers: Option<usize>,
}

/// The whole configuration.
pub struct Config {
    pub server: ServerConfig,
    pub cluster: Option<ClusterConfig>,
}

/// How many workers to run: the configured count, or the machine's
/// available parallelism when none (or zero) is configured.
pub fn effective_workers(cluster: &Option<ClusterConfig>, available: usize) -> (r: usize)
    ensures
        r == (match cluster {
            Some(c) => match c.workers {
                Some(n) => if n == 0 {
                    available as int
                } else {
                    n as int
                },
                None => available as int,
            },
            None => available as int,
        }),
{
    match cluster {
        Some(c) => match c.workers {
            Some(n) => if n == 0 {
                available
            } else {
                n
            },
            None => available,
        },
        None => available,
    }
}

} // verus!
