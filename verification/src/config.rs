//! The applet's settings.

use vstd::prelude::*;
use crate::units::{Prefix, Standard};

verus! {

/// The identifier under which the applet is known to its host.
pub const ID: &'static str = "be.samvervaeck.CosmicAppletRAM";

/// The version of the settings layout.
pub const VERSION: u64 = 1;

/// The refresh period of a fresh installation, in milliseconds.
pub const DEFAULT_UPDATE_INTERVAL: u64 = 1000;

/// What the user can set.
#[derive(Clone, Copy, Debug, PartialEq, Eq, Structural)]
pub struct CosmicAppletRamConfig {
    /// The number of fractional digits of a scaled count.
    pub precision: u32,
    /// The magnitude at which counts are shown.
    pub prefix: Prefix,
    /// Whether the installed memory is shown beside the used memory.
    pub show_total: bool,
    /// The standard by which counts are scaled.
    pub standard: Standard,
    /// The time between two refreshes, in milliseconds.
    pub update_interval: u64,
}

impl CosmicAppletRamConfig {
    /// A refresh period must be positive.
    pub open spec fn valid(self) -> bool {
        self.update_interval > 0
    }

    /// The settings of a fresh installation.
    pub open spec fn spec_default() -> CosmicAppletRamConfig {
        CosmicAppletRamConfig {
            precision: 0,
            prefix: Prefix::Auto,
            show_total: true,
            standard: Standard::Iec,
            update_interval: DEFAULT_UPDATE_INTERVAL,
        }
    }

    /// Whether the refresh period is positive.
    pub fn is_valid(&self) -> (ok: bool)
        ensures
            ok == self.valid(),
    {
        self.update_interval > 0
    }
}

impl Default for CosmicAppletRamConfig {
    fn default() -> (config: CosmicAppletRamConfig)
        ensures
            config == CosmicAppletRamConfig::spec_default(),
            config.valid(),
    {
        CosmicAppletRamConfig {
            precision: 0,
            prefix: Prefix::Auto,
            show_total: true,
            standard: Standard::Iec,
            update_interval: DEFAULT_UPDATE_INTERVAL,
        }
    }
}

} // verus!
