//! The settings of one listener, and the rules they must satisfy before the
//! listener starts.

use vstd::prelude::*;

verus! {

/// How a listener treats the shares of its miners.
#[derive(Debug, Clone, Copy, PartialEq, Eq, Structural)]
pub enum ShareMode {
    /// Every share goes to the miner's own pool.
    PureProxy,
    /// A fixed fraction of the shares goes to the developer pool.
    Skim,
    /// Every share is credited to one operator wallet.
    UnifiedWallet,
}

/// Why a listener's settings were refused.
#[derive(Debug, Clone, Copy, PartialEq, Eq, Structural)]
pub enum ConfigError {
    /// `share` is none of 0, 1, 2.
    UnknownShareMode,
    /// `share_rate` is above 100.
    RateOutOfRange,
    /// A fee mode is selected with a rate of zero.
    ZeroRate,
    /// A fee mode is selected without any developer pool.
    NoDevPool,
}

/// The settings of one listener. They are read once at start-up and never
/// change afterwards.
#[derive(Debug, Clone)]
pub struct Settings {
    /// Unique listener name, used in telemetry.
    pub name: String,
    /// Plain TCP port; 0 disables the entry point.
    pub tcp_port: u32,
    /// TLS port; 0 disables the entry point.
    pub ssl_port: u32,
    /// Port of the obfuscated entry point; 0 disables it.
    pub encrypt_port: u32,
    /// Real pool endpoints, tried in order.
    pub pool_address: Vec<String>,
    /// Developer pool endpoints, tried in order.
    pub share_alg_pool_address: Vec<String>,
    /// Wallet that developer-routed shares are credited to.
    pub share_wallet: String,
    /// Wallet that every share is credited to in unified mode.
    pub unified_wallet: String,
    /// Percentage of shares routed to the developer pool, 0 to 100.
    pub share_rate: u64,
    /// 0 = pure proxy, 1 = skim, 2 = unified wallet.
    pub share: u64,
    /// Whether upstream connections use TLS.
    pub pool_ssl: bool,
    /// Path of the PKCS#12 identity of the TLS entry point.
    pub p12_path: String,
    /// Password of that identity.
    pub p12_pass: String,
    /// Directory of the log files.
    pub log_path: String,
    /// Verbosity of the log.
    pub log_level: u32,
}

/// The mode that the number `share` selects, if any.
pub open spec fn share_mode_of(share: u64) -> Option<ShareMode> {
    if share == 0 {
        Some(ShareMode::PureProxy)
    } else if share == 1 {
        Some(ShareMode::Skim)
    } else if share == 2 {
        Some(ShareMode::UnifiedWallet)
    } else {
        None
    }
}

impl Settings {
    /// The verdict of [`Settings::check`]: the first rule that the settings
    /// break, in the order of [`ConfigError`]'s variants.
    pub open spec fn check_spec(&self) -> Result<(), ConfigError> {
        if share_mode_of(self.share) is None {
            Err(ConfigError::UnknownShareMode)
        } else if self.share_rate > 100 {
            Err(ConfigError::RateOutOfRange)
        } else if self.share != 0 && self.share_rate == 0 {
            Err(ConfigError::ZeroRate)
        } else if self.share != 0 && self.share_alg_pool_address@.len() == 0 {
            Err(ConfigError::NoDevPool)
        } else {
            Ok(())
        }
    }

    /// The settings satisfy every rule.
    pub open spec fn valid(&self) -> bool {
        &&& share_mode_of(self.share) is Some
        &&& self.share_rate <= 100
        &&& self.share != 0 ==> self.share_rate > 0 && self.share_alg_pool_address@.len() > 0
    }

    /// Checks the settings before a listener starts.
    pub fn check(&self) -> (r: Result<(), ConfigError>)
        ensures
            r == self.check_spec(),
            r is Ok <==> self.valid(),
    {
        if self.share > 2 {
            Err(ConfigError::UnknownShareMode)
        } else if self.share_rate > 100 {
            Err(ConfigError::RateOutOfRange)
        } else if self.share != 0 && self.share_rate == 0 {
            Err(ConfigError::ZeroRate)
        } else if self.share != 0 && self.share_alg_pool_address.len() == 0 {
            Err(ConfigError::NoDevPool)
        } else {
            Ok(())
        }
    }

    /// The mode that `share` selects.
    pub fn share_mode(&self) -> (r: Option<ShareMode>)
        ensures
            r == share_mode_of(self.share),
    {
        if self.share == 0 {
            Some(ShareMode::PureProxy)
        } else if self.share == 1 {
            Some(ShareMode::Skim)
        } else if self.share == 2 {
            Some(ShareMode::UnifiedWallet)
        } else {
            None
        }
    }
}

} // verus!
