use mining_proxy::fee::{FeeCounter, Route};
use mining_proxy::util::config::ShareMode;

fn dev_positions(rate: u64, shares: u64) -> Vec<u64> {
    let mut counter = FeeCounter::new(ShareMode::Skim, rate);
    let mut positions = Vec::new();
    for n in 1..=shares {
        if counter.route() == Route::Dev {
            positions.push(n);
        }
    }
    positions
}

#[test]
fn one_percent_of_a_hundred_shares_is_one_share() {
    let positions = dev_positions(1, 100);
    assert_eq!(positions, vec![100]);
}

#[test]
fn ten_percent_of_ten_shares_is_the_tenth() {
    assert_eq!(dev_positions(10, 10), vec![10]);
}

#[test]
fn fee_shares_are_spread_evenly() {
    assert_eq!(dev_positions(50, 6), vec![2, 4, 6]);
    assert_eq!(dev_positions(100, 3), vec![1, 2, 3]);
    assert_eq!(dev_positions(0, 50), Vec::<u64>::new());
    assert_eq!(dev_positions(30, 10), vec![4, 7, 10]);
}

#[test]
fn dev_share_stays_within_one_share_of_the_rate() {
    for rate in 0..=100u64 {
        let mut counter = FeeCounter::new(ShareMode::Skim, rate);
        for _ in 0..250 {
            counter.route();
            let n = counter.submits_total() as i128;
            let d = counter.submits_dev() as i128;
            let gap = 100 * d - n * rate as i128;
            assert!(-100 <= gap && gap <= 100);
            assert_eq!(counter.submits_dev(), counter.submits_total() * rate / 100);
            assert_eq!(counter.submits_unified(), 0);
        }
    }
}

#[test]
fn pure_proxy_redirects_nothing() {
    let mut counter = FeeCounter::new(ShareMode::PureProxy, 40);
    for _ in 0..20 {
        assert_eq!(counter.route(), Route::Real);
    }
    assert_eq!(counter.submits_total(), 20);
    assert_eq!(counter.submits_dev(), 0);
    assert_eq!(counter.submits_unified(), 0);
}

#[test]
fn unified_mode_rewrites_every_share() {
    let mut counter = FeeCounter::new(ShareMode::UnifiedWallet, 5);
    for _ in 0..20 {
        assert_eq!(counter.route(), Route::Unified);
    }
    assert_eq!(counter.submits_total(), 20);
    assert_eq!(counter.submits_dev(), 0);
    assert_eq!(counter.submits_unified(), 20);
    assert!(counter.has_room());
}
