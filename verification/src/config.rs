//! The configuration that every task of a run reads.

use vstd::prelude::*;

verus! {

/// The settings of one run: how many clones may be in flight at once, and
/// whether each clone fetches submodules too. Set once, then only read.
#[derive(Debug, Clone, Copy, PartialEq, Eq, Structural)]
pub struct PoolConfig {
    pub concurrency: usize,
    pub recursive: bool,
}

/// The concurrency of a run: what the operator asked for, or else the
/// parallelism that the host offers.
pub open spec fn chosen_concurrency(requested: Option<usize>, available: usize) -> usize {
    match requested {
        Some(count) => count,
        None => available,
    }
}

/// The number of logical processors that this process may use, as
/// `num_cpus::get` reports it. That crate documents the count to be at
/// least one, and that is all that is taken from it here: the count itself
/// depends on the machine.
#[verifier::external_body]
fn available_parallelism() -> (count: usize)
    ensures
        count >= 1,
{
    num_cpus::get()
}

impl PoolConfig {
    /// A configuration is usable when it lets at least one clone run.
    pub open spec fn valid(&self) -> bool {
        self.concurrency >= 1
    }

    /// The configuration with exactly these settings.
    pub fn new(concurrency: usize, recursive: bool) -> (config: PoolConfig)
        ensures
            config == (PoolConfig { concurrency, recursive }),
    {
        PoolConfig { concurrency, recursive }
    }

    /// Whether the configuration lets at least one clone run.
    pub fn is_valid(&self) -> (b: bool)
        ensures
            b == self.valid(),
    {
        self.concurrency >= 1
    }

    /// The configuration for a requested concurrency that may be absent,
    /// on a host that offers `available` parallel units.
    pub fn with_default(requested: Option<usize>, available: usize, recursive: bool) -> (config:
        PoolConfig)
        ensures
            config == (PoolConfig {
                concurrency: chosen_concurrency(requested, available),
                recursive,
            }),
    {
        let concurrency = match requested {
            Some(count) => count,
            None => available,
        };
        PoolConfig { concurrency, recursive }
    }

    /// The configuration for a requested concurrency that may be absent,
    /// on this host. A request is taken as it is, zero included; without
    /// one the host's parallelism is used, which is at least one.
    pub fn detect(requested: Option<usize>, recursive: bool) -> (config: PoolConfig)
        ensures
            config.recursive == recursive,
            requested matches Some(count) ==> config.concurrency == count,
            requested is None ==> config.valid(),
            exists|available: usize|
                available >= 1 && config == (PoolConfig {
                    concurrency: #[trigger] chosen_concurrency(requested, available),
                    recursive,
                }),
    {
        let available = available_parallelism();
        let config = PoolConfig::with_default(requested, available, recursive);
        assert(config.concurrency == chosen_concurrency(requested, available));
        config
    }
}

} // verus!
