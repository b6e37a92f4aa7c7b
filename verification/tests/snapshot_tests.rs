use std::collections::HashSet;

use peillute::clock::Clock;
use peillute::message::SnapshotResponse;
use peillute::sitemap::SiteMap;
use peillute::snapshot::{GlobalSnapshot, LocalSnapshot, SnapshotManager, TxSummary};

fn mk_map(pairs: &[(&str, i64)]) -> SiteMap<i64> {
    let mut m = SiteMap::new();
    for (id, v) in pairs {
        m.insert((*id).to_string(), *v);
    }
    m
}

fn mk_clock(pairs: &[(&str, i64)]) -> Clock {
    Clock::new_with_values(0, mk_map(pairs))
}

fn resp(site: &str, vc: &[(&str, i64)], txs: &[TxSummary]) -> SnapshotResponse {
    SnapshotResponse {
        site_id: site.to_string(),
        clock: mk_clock(vc),
        tx_log: txs.to_vec(),
    }
}

fn as_set(v: &[TxSummary]) -> HashSet<TxSummary> {
    v.iter().cloned().collect()
}

#[test]
fn consistency_ok() {
    let s1 = LocalSnapshot {
        site_id: "A".into(),
        vector_clock: mk_map(&[("A", 1), ("B", 0)]),
        tx_log: Vec::new(),
    };
    let s2 = LocalSnapshot {
        site_id: "B".into(),
        vector_clock: mk_map(&[("A", 1), ("B", 1)]),
        tx_log: Vec::new(),
    };
    assert!(GlobalSnapshot::is_consistent(&[s1, s2]));
}

#[test]
fn consistency_violation() {
    let s1 = LocalSnapshot {
        site_id: "A".into(),
        vector_clock: mk_map(&[("A", 2), ("B", 2)]),
        tx_log: Vec::new(),
    };
    let s2 = LocalSnapshot {
        site_id: "B".into(),
        vector_clock: mk_map(&[("A", 1), ("B", 1)]),
        tx_log: Vec::new(),
    };
    assert!(!GlobalSnapshot::is_consistent(&[s1, s2]));
}

#[test]
fn push_waits_for_expected() {
    let mut mgr = SnapshotManager::new(2);
    let tx = TxSummary {
        lamport_time: 1,
        source_node: "A".into(),
        from_user: "user1".into(),
        to_user: "user2".into(),
        amount_in_cent: 100,
    };
    let r1 = resp("A", &[("A", 1)], &[tx.clone()]);
    assert!(mgr.push(r1).is_none());
    assert_eq!(mgr.received.len(), 1);
}

#[test]
fn push_detects_incoherence() {
    let mut mgr = SnapshotManager::new(2);
    let bad_r1 = resp("A", &[("A", 2), ("B", 2)], &[]);
    let bad_r2 = resp("B", &[("A", 1), ("B", 1)], &[]);
    assert!(mgr.push(bad_r1).is_none());
    let snap = mgr.push(bad_r2).expect("back-tracked snapshot");
    assert!(GlobalSnapshot::is_consistent(&[LocalSnapshot {
        site_id: "dummy".into(),
        vector_clock: SiteMap::new(),
        tx_log: snap.all_transactions.clone()
    }]));
    assert!(snap.missing.is_empty() || !snap.missing.contains_key("A"));
}

#[test]
fn push_computes_missing_and_dedup() {
    let mut mgr = SnapshotManager::new(2);
    let t1 = TxSummary {
        lamport_time: 10,
        source_node: "A".into(),
        from_user: "user1".into(),
        to_user: "user2".into(),
        amount_in_cent: 100,
    };
    let t2 = TxSummary {
        lamport_time: 11,
        source_node: "B".into(),
        from_user: "user3".into(),
        to_user: "user4".into(),
        amount_in_cent: 200,
    };

    let r1 = resp("A", &[("A", 1)], &[t1.clone()]);
    let r2 = resp("B", &[("B", 1)], &[t1.clone(), t2.clone()]);

    let _ = mgr.push(r1);
    let gs = mgr.push(r2).expect("snapshot ready");

    assert_eq!(gs.all_transactions.len(), 2);
    assert_eq!(
        as_set(gs.missing.get("A").unwrap()),
        HashSet::from_iter([t2.clone()])
    );
    assert!(!gs.missing.contains_key("B"));
}

#[test]
fn consistency_handles_missing_columns() {
    let a = LocalSnapshot {
        site_id: "A".into(),
        vector_clock: mk_map(&[("A", 3)]),
        tx_log: Vec::new(),
    };
    let b = LocalSnapshot {
        site_id: "B".into(),
        vector_clock: mk_map(&[("B", 1)]),
        tx_log: Vec::new(),
    };
    assert!(GlobalSnapshot::is_consistent(&[a, b]));
}

#[test]
fn backtrack_trims_future_transactions() {
    let mut mgr = SnapshotManager::new(2);

    let t1 = TxSummary {
        lamport_time: 1,
        source_node: "A".into(),
        from_user: "user1".into(),
        to_user: "user2".into(),
        amount_in_cent: 100,
    };
    let t3 = TxSummary {
        lamport_time: 3,
        source_node: "A".into(),
        from_user: "user1".into(),
        to_user: "user2".into(),
        amount_in_cent: 300,
    };
    let t5 = TxSummary {
        lamport_time: 5,
        source_node: "A".into(),
        from_user: "user1".into(),
        to_user: "user2".into(),
        amount_in_cent: 500,
    };

    let r_a = resp("A", &[("A", 5), ("B", 2)], &[t1.clone(), t3.clone(), t5.clone()]);

    let r_b = resp("B", &[("A", 2), ("B", 1)], &[]);

    let _ = mgr.push(r_a);
    let snap = mgr.push(r_b).expect("snapshot after back-track");

    assert!(snap.all_transactions.contains(&t1));
    assert!(!snap.all_transactions.contains(&t5));
}

#[test]
fn union_is_deduplicated() {
    let mut mgr = SnapshotManager::new(2);
    let tx = TxSummary {
        lamport_time: 7,
        source_node: "A".into(),
        from_user: "user1".into(),
        to_user: "user2".into(),
        amount_in_cent: 700,
    };

    let r1 = resp("A", &[("A", 1)], &[tx.clone()]);
    let r2 = resp("B", &[("B", 1)], &[tx.clone()]);

    let _ = mgr.push(r1);
    let gs = mgr.push(r2).expect("snapshot ready");
    assert_eq!(gs.all_transactions.len(), 1);
}
