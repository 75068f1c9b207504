use mining_proxy::listener::{choose_identity, entry_points, EntryPoint, Identity, Transport};
use mining_proxy::util::config::{ConfigError, Settings, ShareMode};

fn settings(share: u64, rate: u64, dev_pools: usize) -> Settings {
    Settings {
        name: "main".to_string(),
        tcp_port: 8800,
        ssl_port: 0,
        encrypt_port: 14444,
        pool_address: vec!["pool.example:4444".to_string()],
        share_alg_pool_address: (0..dev_pools).map(|i| format!("dev{}.example:4444", i)).collect(),
        share_wallet: "0xDEV".to_string(),
        unified_wallet: "0xUNI".to_string(),
        share_rate: rate,
        share,
        pool_ssl: false,
        p12_path: "identity.p12".to_string(),
        p12_pass: "secret".to_string(),
        log_path: String::new(),
        log_level: 1,
    }
}

#[test]
fn settings_are_checked_rule_by_rule() {
    assert_eq!(settings(0, 0, 0).check(), Ok(()));
    assert_eq!(settings(1, 5, 1).check(), Ok(()));
    assert_eq!(settings(2, 100, 2).check(), Ok(()));
    assert_eq!(settings(3, 5, 1).check(), Err(ConfigError::UnknownShareMode));
    assert_eq!(settings(1, 101, 1).check(), Err(ConfigError::RateOutOfRange));
    assert_eq!(settings(0, 101, 1).check(), Err(ConfigError::RateOutOfRange));
    assert_eq!(settings(1, 0, 1).check(), Err(ConfigError::ZeroRate));
    assert_eq!(settings(2, 0, 0).check(), Err(ConfigError::ZeroRate));
    assert_eq!(settings(1, 5, 0).check(), Err(ConfigError::NoDevPool));
}

#[test]
fn share_selects_the_mode() {
    assert_eq!(settings(0, 0, 0).share_mode(), Some(ShareMode::PureProxy));
    assert_eq!(settings(1, 1, 1).share_mode(), Some(ShareMode::Skim));
    assert_eq!(settings(2, 1, 1).share_mode(), Some(ShareMode::UnifiedWallet));
    assert_eq!(settings(7, 1, 1).share_mode(), None);
}

#[test]
fn a_port_of_zero_opens_no_entry_point() {
    let points = entry_points(&settings(0, 0, 0));
    assert_eq!(
        points,
        vec![
            EntryPoint { transport: Transport::Tcp, port: 8800 },
            EntryPoint { transport: Transport::Encrypted, port: 14444 },
        ]
    );
    let mut all = settings(0, 0, 0);
    all.ssl_port = 8443;
    assert_eq!(entry_points(&all).len(), 3);
    assert_eq!(entry_points(&all)[1], EntryPoint { transport: Transport::Tls, port: 8443 });
    all.tcp_port = 0;
    all.ssl_port = 0;
    all.encrypt_port = 0;
    assert!(entry_points(&all).is_empty());
}

#[test]
fn the_bundled_identity_is_the_fallback() {
    let s = settings(0, 0, 0);
    assert_eq!(choose_identity(&s, true), Identity::Configured { password: "secret".to_string() });
    assert_eq!(choose_identity(&s, false), Identity::Bundled { password: "mypass".to_string() });
}
