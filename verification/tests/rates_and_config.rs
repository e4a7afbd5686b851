use c6_open_mac::config::{env_digit, from_values};
use c6_open_mac::rates::cr_mac_tx_get_rts_rate;

#[test]
fn dsss_rates_respond_at_their_preamble() {
    let expected = [0, 1, 1, 1, 0, 5, 5, 5];
    for (rate, want) in expected.iter().enumerate() {
        assert_eq!(cr_mac_tx_get_rts_rate(rate as i32), *want);
    }
}

#[test]
fn ofdm_rates_respond_at_a_basic_rate() {
    let expected = [9, 9, 10, 11, 9, 9, 10, 11];
    for (k, want) in expected.iter().enumerate() {
        assert_eq!(cr_mac_tx_get_rts_rate(8 + k as i32), *want);
    }
}

#[test]
fn ht_rates_respond_alike_in_both_guard_intervals() {
    for start in [0x10, 0x1a] {
        assert_eq!(cr_mac_tx_get_rts_rate(start), 11);
        assert_eq!(cr_mac_tx_get_rts_rate(start + 1), 10);
        assert_eq!(cr_mac_tx_get_rts_rate(start + 2), 10);
        for k in 3..10 {
            assert_eq!(cr_mac_tx_get_rts_rate(start + k), 9);
        }
    }
}

#[test]
fn rates_out_of_range_respond_at_rate_zero() {
    for rate in [0x24, 0x28, 0xff, 1000, -1, -5, i32::MIN, i32::MAX] {
        assert_eq!(cr_mac_tx_get_rts_rate(rate), 0);
    }
}

#[test]
fn response_rates_are_their_own_response_rates() {
    for rate in 0..0x100 {
        let r = cr_mac_tx_get_rts_rate(rate);
        assert_eq!(cr_mac_tx_get_rts_rate(r), r);
    }
}

#[test]
fn selector_variables_read_as_decimal() {
    assert_eq!(env_digit(None), 0);
    assert_eq!(env_digit(Some("")), 0);
    assert_eq!(env_digit(Some("1")), 1);
    assert_eq!(env_digit(Some("16")), 16);
    assert_eq!(env_digit(Some("255")), 255);
    assert_eq!(env_digit(Some("257")), 1);
    assert_eq!(env_digit(Some("a")), 0x31);
}

#[test]
fn production_build_has_every_selector_off() {
    let c = from_values(0, 0, 0, 0, 0);
    assert!(!c.control_burst && !c.ab_wake && !c.tx_mode_control_only);
    assert_eq!(c.pm_wake_experiment, 0);
    assert!(c.pm_on_data_tx && c.pm_wake_rust && c.cr_secframe && c.cr_pool_enabled);
}

#[test]
fn alternating_builds_send_bursts() {
    assert!(from_values(0, 1, 0, 0, 0).control_burst);
    assert!(from_values(0, 2, 0, 0, 0).ab_wake);
    assert!(from_values(1, 0, 0, 0, 0).control_burst);
    assert!(!from_values(2, 0, 0, 0, 0).control_burst);
    assert!(from_values(0, 0, 0, 1, 0).tx_mode_control_only);
    assert!(!from_values(0, 0, 0, 0, 1).pm_wake_rust);
    assert_eq!(from_values(0, 0, 17, 0, 0).pm_wake_experiment, 17);
}
