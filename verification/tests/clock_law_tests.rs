use peillute::clock::Clock;
use peillute::sitemap::SiteMap;

fn map(pairs: &[(&str, i64)]) -> SiteMap<i64> {
    let mut m = SiteMap::new();
    for (k, v) in pairs {
        m.insert(k.to_string(), *v);
    }
    m
}

#[test]
fn update_vector_takes_the_larger_counter() {
    let mut c = Clock::new_with_values(0, map(&[("A", 5), ("B", 1)]));
    c.update_vector(&map(&[("A", 2), ("B", 4), ("C", 3)]));
    assert_eq!(c.get_vector().get("A"), Some(&5));
    assert_eq!(c.get_vector().get("B"), Some(&4));
    assert_eq!(c.get_vector().get("C"), Some(&3));
    assert_eq!(c.get_vector().len(), 3);
}

#[test]
fn update_vector_new_site_starts_from_zero() {
    let mut c = Clock::new();
    c.update_vector(&map(&[("A", -3)]));
    assert_eq!(c.get_vector().get("A"), Some(&0));
}

#[test]
fn update_vector_is_idempotent() {
    let mut c = Clock::new_with_values(0, map(&[("A", 2), ("B", 7)]));
    let own = c.get_vector().copied();
    c.update_vector(&own);
    assert_eq!(c.get_vector().get("A"), Some(&2));
    assert_eq!(c.get_vector().get("B"), Some(&7));
    let recv = map(&[("A", 9)]);
    c.update_vector(&recv);
    c.update_vector(&recv);
    assert_eq!(c.get_vector().get("A"), Some(&9));
}

#[test]
fn update_vector_commutes_on_nonnegative_clocks() {
    let a = map(&[("A", 2), ("B", 0)]);
    let b = map(&[("B", 3), ("C", 1)]);
    let mut x = Clock::new_with_values(0, a.copied());
    x.update_vector(&b);
    let mut y = Clock::new_with_values(0, b.copied());
    y.update_vector(&a);
    for k in ["A", "B", "C"] {
        assert_eq!(x.get_vector().get(k), y.get_vector().get(k));
    }
}

#[test]
fn update_lamport_keeps_the_larger() {
    let mut c = Clock::new();
    c.update_lamport(7);
    assert_eq!(c.get_lamport(), 7);
    c.update_lamport(3);
    assert_eq!(c.get_lamport(), 7);
}

#[test]
fn update_clock_on_receipt_exceeds_both() {
    let mut local = Clock::new_with_values(4, map(&[("A", 4)]));
    let received = Clock::new_with_values(9, map(&[("B", 6)]));
    local.update_clock("A", Some(&received));
    assert_eq!(local.get_lamport(), 10);
    assert_eq!(local.get_vector().get("A"), Some(&5));
    assert_eq!(local.get_vector().get("B"), Some(&6));
    local.update_clock("A", None);
    assert_eq!(local.get_lamport(), 11);
    assert_eq!(local.get_vector().get("A"), Some(&6));
}

#[test]
fn add_peer_is_safe_to_repeat() {
    let mut c = Clock::new();
    c.increment_vector("A");
    c.add_peer("A");
    c.add_peer("B");
    c.add_peer("B");
    assert_eq!(c.get_vector().get("A"), Some(&1));
    assert_eq!(c.get_vector().get("B"), Some(&0));
    assert_eq!(c.get_vector().len(), 2);
    c.set_site_id("C");
    assert_eq!(c.get_vector().get("C"), Some(&0));
}

#[test]
fn change_site_id_keeps_the_counter() {
    let mut c = Clock::new();
    c.increment_vector("old");
    c.increment_vector("old");
    c.change_current_site_id("old", "new");
    assert_eq!(c.get_vector().get("new"), Some(&2));
    assert!(!c.get_vector().contains_key("old"));
    c.change_current_site_id("missing", "other");
    assert!(!c.get_vector().contains_key("other"));
}

#[test]
fn increment_lamport_strictly_increases() {
    let mut c = Clock::new();
    assert_eq!(c.increment_lamport(), 1);
    assert_eq!(c.increment_lamport(), 2);
    let d = c.duplicate();
    assert_eq!(d.get_lamport(), 2);
}
