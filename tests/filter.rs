use system_monitor::filter::{is_valid_interface, starts_with};

#[test]
fn primary_adapters_are_accepted() {
    assert!(is_valid_interface("eth0"));
    assert!(is_valid_interface("en0"));
    assert!(is_valid_interface("ens33"));
    assert!(is_valid_interface("enp3s0"));
    assert!(is_valid_interface("en"));
}

#[test]
fn virtual_and_unknown_adapters_are_rejected() {
    assert!(!is_valid_interface("lo"));
    assert!(!is_valid_interface("docker0"));
    assert!(!is_valid_interface("veth1234"));
    assert!(!is_valid_interface("br-abc"));
    assert!(!is_valid_interface("virbr0"));
    assert!(!is_valid_interface("vmnet8"));
    assert!(!is_valid_interface("wlan0"));
    assert!(!is_valid_interface(""));
    assert!(!is_valid_interface("e"));
    assert!(!is_valid_interface("Eth0"));
}

#[test]
fn prefix_comparison() {
    assert!(starts_with("enp3s0", "enp"));
    assert!(starts_with("abc", ""));
    assert!(starts_with("abc", "abc"));
    assert!(!starts_with("ab", "abc"));
    assert!(!starts_with("xbc", "abc"));
}
