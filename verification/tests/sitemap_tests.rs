use peillute::sitemap::SiteMap;

#[test]
fn sitemap_insert_get_remove() {
    let mut m: SiteMap<i64> = SiteMap::new();
    assert!(m.is_empty());
    m.insert("A".to_string(), 1);
    m.insert("B".to_string(), 2);
    assert_eq!(m.len(), 2);
    assert_eq!(m.get("A"), Some(&1));
    assert_eq!(m.get("C"), None);
    assert!(m.contains_key("B"));
    assert_eq!(m.remove("A"), Some(1));
    assert_eq!(m.remove("A"), None);
    assert_eq!(m.len(), 1);
    assert!(!m.contains_key("A"));
}

#[test]
fn sitemap_insert_overwrites_in_place() {
    let mut m: SiteMap<i64> = SiteMap::new();
    m.insert("A".to_string(), 1);
    m.insert("B".to_string(), 2);
    m.insert("A".to_string(), 5);
    assert_eq!(m.len(), 2);
    assert_eq!(m.key_at(0), "A");
    assert_eq!(*m.value_at(0), 5);
    assert_eq!(m.key_at(1), "B");
}

#[test]
fn sitemap_copies_keep_order() {
    let mut m: SiteMap<i64> = SiteMap::new();
    m.insert("B".to_string(), 2);
    m.insert("A".to_string(), 1);
    let c = m.copied();
    assert_eq!(c.key_at(0), "B");
    assert_eq!(c.key_at(1), "A");
    let d = m.clone();
    assert_eq!(d.get("A"), Some(&1));
}
