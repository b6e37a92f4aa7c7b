use peillute::addr::SiteAddr;
use peillute::message::NetworkMessageCode;
use peillute::network::{check_send, diffusion_targets, discovery_ports, SendCheck};

fn v4(d: u8, port: u16) -> SiteAddr {
    SiteAddr::V4 { ip: u32::from_be_bytes([127, 0, 0, d]), port }
}

#[test]
fn transaction_needs_a_command() {
    assert_eq!(
        check_send(NetworkMessageCode::Transaction, false, v4(1, 8081)),
        SendCheck::MissingCommand
    );
    assert_eq!(check_send(NetworkMessageCode::Transaction, true, v4(1, 8081)), SendCheck::Send);
}

#[test]
fn invalid_addresses_are_skipped() {
    assert_eq!(
        check_send(NetworkMessageCode::Discovery, false, SiteAddr::unspecified()),
        SendCheck::SkipInvalidAddress
    );
    assert_eq!(
        check_send(NetworkMessageCode::Discovery, false, v4(1, 0)),
        SendCheck::SkipInvalidAddress
    );
    let v6 = SiteAddr::V6 { ip: 0, port: 80, flowinfo: 0, scope_id: 0 };
    assert_eq!(check_send(NetworkMessageCode::Discovery, false, v6), SendCheck::SkipInvalidAddress);
}

#[test]
fn diffusion_skips_the_parent() {
    let peers = vec![v4(1, 1), v4(2, 2), v4(3, 3)];
    assert_eq!(diffusion_targets(&peers, v4(2, 2)), vec![v4(1, 1), v4(3, 3)]);
    assert_eq!(diffusion_targets(&peers, v4(9, 9)), peers);
}

#[test]
fn discovery_scans_all_other_ports() {
    assert_eq!(discovery_ports(10000, 10003, 10001), vec![10000, 10002, 10003]);
    assert_eq!(discovery_ports(5, 4, 0), Vec::<u16>::new());
    assert_eq!(discovery_ports(65534, 65535, 1), vec![65534, 65535]);
}
