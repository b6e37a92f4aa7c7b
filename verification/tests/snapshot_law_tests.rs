use std::collections::HashSet;

use peillute::clock::Clock;
use peillute::message::{CreateUser, Refund, SnapshotResponse};
use peillute::sitemap::SiteMap;
use peillute::snapshot::{
    completion_action, expected_snapshots, sends_snapshot_requests, GlobalSnapshot, LocalSnapshot,
    SnapshotAction, SnapshotManager, SnapshotMode, TxSummary,
};

fn tx(t: i64, node: &str) -> TxSummary {
    TxSummary {
        lamport_time: t,
        source_node: node.into(),
        from_user: "u".into(),
        to_user: "v".into(),
        amount_in_cent: 100 * t,
    }
}

fn resp(site: &str, vc: &[(&str, i64)], txs: &[TxSummary]) -> SnapshotResponse {
    let mut m = SiteMap::new();
    for (k, v) in vc {
        m.insert(k.to_string(), *v);
    }
    SnapshotResponse { site_id: site.into(), clock: Clock::new_with_values(0, m), tx_log: txs.to_vec() }
}

#[test]
fn single_snapshot_is_consistent() {
    let mut m = SiteMap::new();
    m.insert("A".to_string(), 4);
    let s = LocalSnapshot { site_id: "A".into(), vector_clock: m, tx_log: vec![] };
    assert!(GlobalSnapshot::is_consistent(&[s]));
    assert!(GlobalSnapshot::is_consistent(&[]));
}

#[test]
fn every_node_sees_all_once_missing_is_added() {
    let mut mgr = SnapshotManager::new(3);
    let _ = mgr.push(resp("A", &[("A", 1)], &[tx(1, "A"), tx(2, "A")]));
    let _ = mgr.push(resp("B", &[("B", 1)], &[tx(1, "A")]));
    let g = mgr.push(resp("C", &[("C", 1)], &[tx(3, "C"), tx(3, "C")])).unwrap();
    let all: HashSet<TxSummary> = g.all_transactions.iter().cloned().collect();
    assert_eq!(all.len(), g.all_transactions.len());
    assert_eq!(all.len(), 3);
    for site in ["A", "B", "C"] {
        let own: HashSet<TxSummary> = mgr
            .received
            .iter()
            .filter(|s| s.site_id == site)
            .flat_map(|s| s.tx_log.iter().cloned())
            .collect();
        let missing: HashSet<TxSummary> =
            g.missing.get(site).map(|v| v.iter().cloned().collect()).unwrap_or_default();
        let union: HashSet<TxSummary> = own.union(&missing).cloned().collect();
        assert_eq!(union, all);
    }
}

#[test]
fn backtracking_keeps_only_transactions_below_the_minimum_clock() {
    let mut mgr = SnapshotManager::new(2);
    let _ = mgr.push(resp("A", &[("A", 4), ("B", 3)], &[tx(2, "A"), tx(4, "A"), tx(3, "B")]));
    let g = mgr.push(resp("B", &[("A", 2), ("B", 1)], &[tx(1, "B")])).unwrap();
    let all: HashSet<TxSummary> = g.all_transactions.iter().cloned().collect();
    assert_eq!(all, HashSet::from_iter([tx(2, "A"), tx(1, "B")]));
}

#[test]
fn starting_a_snapshot() {
    assert_eq!(expected_snapshots(SnapshotMode::FileMode, 2), 3);
    assert_eq!(expected_snapshots(SnapshotMode::SyncMode, 0), 1);
    assert_eq!(expected_snapshots(SnapshotMode::NetworkMode, 2), 2);
    assert_eq!(completion_action(SnapshotMode::FileMode), SnapshotAction::Persist);
    assert_eq!(completion_action(SnapshotMode::SyncMode), SnapshotAction::SyncDone);
    assert_eq!(completion_action(SnapshotMode::NetworkMode), SnapshotAction::Unexpected);
    assert!(sends_snapshot_requests(SnapshotMode::FileMode, 1));
    assert!(!sends_snapshot_requests(SnapshotMode::FileMode, 0));
    assert!(!sends_snapshot_requests(SnapshotMode::NetworkMode, 3));
    let mut mgr = SnapshotManager::new(0);
    let _ = mgr.push(resp("old", &[], &[]));
    let g = mgr.begin(1, SnapshotMode::SyncMode, resp("A", &[("A", 1)], &[tx(1, "A")]));
    assert!(g.is_some());
    assert_eq!(mgr.received.len(), 1);
    assert_eq!(mgr.mode, SnapshotMode::SyncMode);
    assert!(mgr.begin(2, SnapshotMode::FileMode, resp("A", &[], &[])).is_none());
}

#[test]
fn message_constructors() {
    let c = CreateUser::new("bob".to_string());
    assert_eq!(c.name, "bob");
    let r = Refund::new("bob".to_string(), 7, "A".to_string());
    assert_eq!((r.name.as_str(), r.transac_time, r.transac_node.as_str()), ("bob", 7, "A"));
}
