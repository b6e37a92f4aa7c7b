use peillute::clock::Clock;
use peillute::sitemap::SiteMap;

#[test]
fn test_increment_vector() {
    let mut clock = Clock::new();
    let site_id = "A";

    let initial_value = clock.get_vector().get(site_id).cloned().unwrap_or(0);
    let updated_value = clock.increment_vector(site_id);

    assert_eq!(updated_value, initial_value + 1);
}

#[test]
fn test_update_vector() {
    let mut clock = Clock::new();
    let mut received_vc = SiteMap::new();
    received_vc.insert("A".to_string(), 2);
    received_vc.insert("B".to_string(), 3);

    clock.update_vector(&received_vc);

    let vector_clock = clock.get_vector();
    assert_eq!(vector_clock.get("A").cloned().unwrap_or(0), 2);
    assert_eq!(vector_clock.get("B").cloned().unwrap_or(0), 3);
}

#[test]
fn test_increment_lamport_clock() {
    let mut clock = Clock::new();

    let initial_value = clock.get_lamport();
    let updated_value = clock.increment_lamport();

    assert_eq!(updated_value, initial_value + 1);
}

#[test]
fn test_get_lamport_clock() {
    let clock = Clock::new();

    assert_eq!(clock.get_lamport(), 0);
}

#[test]
fn test_get_vector_clock() {
    let mut clock = Clock::new();
    clock.increment_vector("A");
    clock.increment_vector("B");

    let vector_clock = clock.get_vector_clock();
    assert_eq!(vector_clock.len(), 2);
    assert!(vector_clock.contains(&1));
}
