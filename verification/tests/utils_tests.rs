use peillute::utils::{lcg, select_mac_address, snapshot_file_name, InterfaceInfo};

#[test]
fn first_real_interface_names_the_site() {
    let ifaces = vec![
        InterfaceInfo { is_up: true, is_loopback: true, mac: Some([1, 2, 3, 4, 5, 6]) },
        InterfaceInfo { is_up: false, is_loopback: false, mac: Some([1, 2, 3, 4, 5, 6]) },
        InterfaceInfo { is_up: true, is_loopback: false, mac: Some([0, 0, 0, 0, 0, 0]) },
        InterfaceInfo { is_up: true, is_loopback: false, mac: None },
        InterfaceInfo { is_up: true, is_loopback: false, mac: Some([0x0a, 0x1b, 0x2c, 0x3d, 0x4e, 0xff]) },
        InterfaceInfo { is_up: true, is_loopback: false, mac: Some([9, 9, 9, 9, 9, 9]) },
    ];
    assert_eq!(select_mac_address(&ifaces), Some("0a1b2c3d4eff".to_string()));
}

#[test]
fn no_interface_no_mac() {
    let ifaces = vec![InterfaceInfo { is_up: true, is_loopback: true, mac: Some([1, 2, 3, 4, 5, 6]) }];
    assert_eq!(select_mac_address(&ifaces), None);
    assert_eq!(select_mac_address(&vec![]), None);
}

#[test]
fn snapshot_files_are_named_by_site_and_time() {
    assert_eq!(snapshot_file_name("A", "20240101_120000"), "snapshot_A_20240101_120000.json");
}

#[test]
fn lcg_steps() {
    assert_eq!(lcg(0), 1);
    assert_eq!(lcg(1), 6364136223846793006);
    assert_eq!(lcg(u64::MAX), 1u64.wrapping_sub(6364136223846793005));
}
