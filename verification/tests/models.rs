use devdash::disk::{is_virtual_filesystem, DiskInfo};
use devdash::network::{InterfaceInfo, NetworkState, ViewMode};

#[test]
fn test_used_space_is_total_minus_available() {
    let info = DiskInfo {
        name: "/dev/sda1".to_string(),
        mount_point: "/".to_string(),
        total_space: 1000,
        available_space: 250,
    };
    assert_eq!(info.used_space(), 750);
}

#[test]
fn test_used_space_saturates_at_zero() {
    let info = DiskInfo {
        name: "/dev/sda1".to_string(),
        mount_point: "/".to_string(),
        total_space: 100,
        available_space: 250,
    };
    assert_eq!(info.used_space(), 0);
}

#[test]
fn test_virtual_filesystems_are_recognized() {
    assert!(is_virtual_filesystem("/proc"));
    assert!(is_virtual_filesystem("/proc/sys"));
    assert!(is_virtual_filesystem("/dev/shm"));
    assert!(is_virtual_filesystem("/var/run"));
    assert!(!is_virtual_filesystem("/"));
    assert!(!is_virtual_filesystem("/home"));
    assert!(!is_virtual_filesystem("/devices"));
}

fn network_state(interfaces: &[&str]) -> NetworkState {
    NetworkState {
        interfaces: interfaces.iter().map(|s| s.to_string()).collect(),
        current_idx: 0,
        rx_history: Vec::new(),
        tx_history: Vec::new(),
        last_rx: 0,
        last_tx: 0,
        interface_info: interfaces
            .iter()
            .map(|s| InterfaceInfo {
                name: s.to_string(),
                total_rx: 10,
                total_tx: 20,
                max_speed: None,
            })
            .collect(),
        max_history: 60,
        view_mode: ViewMode::IOStats,
    }
}

#[test]
fn test_interface_cycling_wraps_both_ways() {
    let mut state = network_state(&["eth0", "wlan0", "lo"]);
    state.next_interface();
    assert_eq!(state.current_idx, 1);
    state.next_interface();
    state.next_interface();
    assert_eq!(state.current_idx, 0);
    state.prev_interface();
    assert_eq!(state.current_idx, 2);
}

#[test]
fn test_cycling_with_no_interfaces_changes_nothing() {
    let mut state = network_state(&[]);
    state.next_interface();
    state.prev_interface();
    assert_eq!(state.current_idx, 0);
}

#[test]
fn test_switching_interfaces_resets_session_totals() {
    let mut state = network_state(&["eth0", "wlan0"]);
    state.rx_history.push(100);
    state.tx_history.push(200);
    state.last_rx = 5;
    state.last_tx = 6;
    assert_eq!(state.get_current_rx_rate(), 100);
    assert_eq!(state.get_current_tx_rate(), 200);

    state.next_interface();
    assert!(state.rx_history.is_empty());
    assert!(state.tx_history.is_empty());
    assert_eq!(state.last_rx, 0);
    assert_eq!(state.last_tx, 0);
    assert_eq!(state.get_current_rx_rate(), 0);
    // The totals of the newly current interface start over; the one we left
    // keeps its own.
    assert_eq!(state.interface_info[1].total_rx, 0);
    assert_eq!(state.interface_info[0].total_rx, 10);
}

#[test]
fn test_toggle_view_flips_between_the_two_views() {
    let mut state = network_state(&["eth0"]);
    state.toggle_view();
    assert_eq!(state.view_mode, ViewMode::InterfaceUsage);
    state.toggle_view();
    assert_eq!(state.view_mode, ViewMode::IOStats);
}
