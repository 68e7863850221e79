//! The composition step of startup: which capabilities the application
//! asks its host runtime for, and with what.
use vstd::prelude::*;
use crate::migration::{DATABASE_URL, Migration, is_registry, load_migrations, well_ordered};

verus! {

/// Everything the host runtime is started with.
pub struct StartupConfig {
    /// The store that the persistence capability opens.
    pub database_url: String,
    /// The migrations that the persistence capability applies to it.
    pub migrations: Vec<Migration>,
    /// Whether the network capability is granted.
    pub network: bool,
    /// Whether the host-shell capability is granted.
    pub shell: bool,
}

/// The configuration of this build: the registry against the local store,
/// with network and shell access granted.
pub fn startup_config() -> (r: StartupConfig)
    ensures
        r.database_url@ == DATABASE_URL@,
        is_registry(r.migrations@),
        well_ordered(r.migrations@),
        r.network,
        r.shell,
{
    StartupConfig {
        database_url: String::from_str(DATABASE_URL),
        migrations: load_migrations(),
        network: true,
        shell: true,
    }
}

} // verus!
