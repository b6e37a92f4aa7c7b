use peillute::addr::SiteAddr;
use peillute::clock::Clock;
use peillute::sitemap::SiteMap;
use peillute::state::{AckStep, AppState, MutexStamp, MutexTag, WaveStep};

fn v4(a: u8, b: u8, c: u8, d: u8, port: u16) -> SiteAddr {
    SiteAddr::V4 { ip: u32::from_be_bytes([a, b, c, d]), port }
}

fn local() -> SiteAddr {
    v4(127, 0, 0, 1, 8080)
}

#[test]
fn test_new_state() {
    let cli_site_id = "A".to_string();
    let num_sites = 2;
    let peer_addrs = vec![v4(127, 0, 0, 1, 8081), v4(127, 0, 0, 1, 8082)];
    let shared_state = AppState::new(cli_site_id.clone(), peer_addrs.clone(), local());

    assert_eq!(shared_state.get_site_id(), cli_site_id);
    assert_eq!(shared_state.get_cli_peers_addrs().len() as i64, num_sites);
    assert_eq!(shared_state.get_cli_peers_addrs(), peer_addrs);
    assert_eq!(shared_state.get_clock().get_vector().len(), 0);
}

#[test]
fn acquire_without_neighbours_enters_at_once() {
    let mut s = AppState::new("A".to_string(), vec![], local());
    let diffuse = s.acquire_mutex();
    assert!(!diffuse);
    assert!(s.in_sc);
    assert!(!s.waiting_sc);
    let stamp = *s.get_global_mutex_fifo().get("A").unwrap();
    assert_eq!(stamp.tag, MutexTag::Request);
    assert_eq!(stamp.date, 1);
    assert!(!s.release_mutex());
    assert!(!s.in_sc);
    assert!(!s.get_global_mutex_fifo().contains_key("A"));
}

#[test]
fn the_earliest_request_enters_first() {
    let mut a = AppState::new("A".to_string(), vec![], local());
    a.add_connected_neighbour(v4(127, 0, 0, 1, 8081));
    assert!(a.acquire_mutex());
    assert!(a.waiting_sc);
    // B asked earlier: A may not enter.
    assert!(!a.on_mutex_request("B".to_string(), 0));
    assert!(a.waiting_sc && !a.in_sc);
    // B leaves: A enters.
    assert!(a.on_mutex_release("B"));
    assert!(a.in_sc && !a.waiting_sc);
}

#[test]
fn equal_dates_are_ordered_by_site() {
    let mut b = AppState::new("B".to_string(), vec![], local());
    b.add_connected_neighbour(v4(127, 0, 0, 1, 8081));
    assert!(b.acquire_mutex());
    let date = b.get_global_mutex_fifo().get("B").unwrap().date;
    assert!(!b.on_mutex_request("A".to_string(), date));
    let mut c = AppState::new("A".to_string(), vec![], local());
    c.add_connected_neighbour(v4(127, 0, 0, 1, 8081));
    assert!(c.acquire_mutex());
    let date = c.get_global_mutex_fifo().get("A").unwrap().date;
    assert!(c.on_mutex_request("B".to_string(), date));
}

#[test]
fn entering_drops_releases_and_acks_do_not_block() {
    let mut a = AppState::new("A".to_string(), vec![], local());
    a.add_connected_neighbour(v4(127, 0, 0, 1, 8081));
    let mut fifo = SiteMap::new();
    fifo.insert("C".to_string(), MutexStamp { tag: MutexTag::Release, date: 0 });
    a.set_global_mutex_fifo(fifo);
    assert!(a.acquire_mutex());
    assert!(a.on_mutex_ack("B".to_string(), 0));
    assert!(!a.get_global_mutex_fifo().contains_key("C"));
    assert!(a.get_global_mutex_fifo().contains_key("B"));
}

#[test]
fn smaller_fifo_does_not_replace() {
    let mut a = AppState::new("A".to_string(), vec![], local());
    let mut big = SiteMap::new();
    big.insert("X".to_string(), MutexStamp { tag: MutexTag::Request, date: 1 });
    big.insert("Y".to_string(), MutexStamp { tag: MutexTag::Request, date: 2 });
    a.set_global_mutex_fifo(big);
    let mut small = SiteMap::new();
    small.insert("Z".to_string(), MutexStamp { tag: MutexTag::Request, date: 3 });
    a.set_global_mutex_fifo(small);
    assert_eq!(a.get_global_mutex_fifo().len(), 2);
    assert!(!a.get_global_mutex_fifo().contains_key("Z"));
}

#[test]
fn leaf_acknowledges_and_resets_the_wave() {
    let parent = v4(127, 0, 0, 1, 9000);
    let mut s = AppState::new("N".to_string(), vec![], local());
    s.add_connected_neighbour(parent);
    // Only neighbour is the parent: nothing to pass on.
    let step = s.on_transaction_wave("I", parent);
    assert_eq!(step, WaveStep::AcknowledgeSender { reset: true });
    assert_eq!(s.get_parent_addr_for_wave("I".to_string()), SiteAddr::unspecified());
    assert_eq!(s.get_nb_nei_for_wave().get("I"), Some(&1));
}

#[test]
fn inner_node_diffuses_then_forwards_acknowledgements() {
    let parent = v4(10, 0, 0, 1, 9000);
    let child = v4(10, 0, 0, 2, 9000);
    let mut s = AppState::new("N".to_string(), vec![], local());
    s.add_connected_neighbour(parent);
    s.add_connected_neighbour(child);
    assert_eq!(s.on_transaction_wave("I", parent), WaveStep::Diffuse);
    assert_eq!(s.get_parent_addr_for_wave("I".to_string()), parent);
    // The same transaction coming back from the child is only acknowledged.
    assert_eq!(s.on_transaction_wave("I", child), WaveStep::AcknowledgeSender { reset: false });
    assert_eq!(s.on_transaction_acknowledgement("I"), AckStep::ForwardToParent(parent));
    assert_eq!(s.get_nb_nei_for_wave().get("I"), Some(&2));
    assert_eq!(s.get_parent_addr_for_wave("I".to_string()), SiteAddr::unspecified());
}

#[test]
fn initiator_completes_its_wave() {
    let n1 = v4(10, 0, 0, 1, 9000);
    let mut s = AppState::new("I".to_string(), vec![], local());
    s.add_connected_neighbour(n1);
    s.set_parent_addr("I".to_string(), local());
    s.set_nb_nei_for_wave("I".to_string(), 1);
    assert_eq!(s.on_transaction_acknowledgement("I"), AckStep::WaveComplete);
}

#[test]
fn acknowledgements_count_down() {
    let mut s = AppState::new("I".to_string(), vec![], local());
    s.set_nb_nei_for_wave("I".to_string(), 3);
    assert_eq!(s.on_transaction_acknowledgement("I"), AckStep::Waiting);
    assert_eq!(s.get_nb_nei_for_wave().get("I"), Some(&2));
}

#[test]
fn discovery_acknowledgment_adds_a_neighbour() {
    let n1 = v4(10, 0, 0, 1, 9000);
    let mut s = AppState::new("A".to_string(), vec![], local());
    s.set_nb_nei_for_wave("W".to_string(), 1);
    assert!(s.on_acknowledgment(local(), n1));
    assert_eq!(s.get_nb_connected_neighbours(), 1);
    assert_eq!(s.get_nb_nei_for_wave().get("W"), Some(&2));
    assert!(!s.on_acknowledgment(n1, n1));
    assert_eq!(s.get_nb_connected_neighbours(), 1);
}

#[test]
fn discovery_from_known_peer_is_answered_once() {
    let n1 = v4(10, 0, 0, 1, 9000);
    let stranger = v4(10, 0, 0, 9, 9000);
    let mut s = AppState::new("A".to_string(), vec![n1], local());
    assert!(s.on_discovery(n1));
    assert!(s.on_discovery(n1));
    assert_eq!(s.get_connected_nei_addr(), vec![n1]);
    assert!(!s.on_discovery(stranger));
}

#[test]
fn incoming_peer_and_removal_are_safe_to_repeat() {
    let n1 = v4(10, 0, 0, 1, 9000);
    let sock = v4(10, 0, 0, 1, 40000);
    let mut s = AppState::new("A".to_string(), vec![], local());
    let mut recv = SiteMap::new();
    recv.insert("B".to_string(), 3);
    let clock = Clock::new_with_values(5, recv);
    s.add_incomming_peer(n1, sock, clock.duplicate());
    s.add_incomming_peer(n1, sock, clock);
    assert_eq!(s.get_nb_connected_neighbours(), 1);
    assert_eq!(s.get_clock().get_lamport(), 6);
    assert_eq!(s.get_clock().get_vector().get("B"), Some(&3));
    s.add_site_id("B".to_string(), n1);
    s.set_nb_nei_for_wave("B".to_string(), 4);
    s.remove_peer_from_socket_closed(sock);
    assert_eq!(s.get_nb_connected_neighbours(), 0);
    assert!(!s.get_nb_nei_for_wave().contains_key("B"));
    s.remove_peer(n1);
    assert_eq!(s.get_nb_connected_neighbours(), 0);
    assert_eq!(s.get_clock().get_vector().get("B"), Some(&3));
}

#[test]
fn test_connected_neighbours_helper() {
    let mut s = AppState::new("A".to_string(), vec![], local());
    s.set_nb_connected_neighbours(3);
    assert_eq!(s.get_nb_connected_neighbours(), 3);
    assert_eq!(s.get_connected_nei_addr()[0], v4(127, 0, 0, 1, 8081));
    s.init_parent_addr_for_transaction_wave();
    assert_eq!(s.get_parent_addr_for_wave("A".to_string()), local());
}
