use procpipe::sampling::{gen_random, gen_random_in_range, rand_passwd, rand_point};
use procpipe::store::{FruitStore, PrivilegeRegistry};

#[test]
fn bounded_draw_stays_in_range() {
    for _ in 0..200 {
        assert!(gen_random_in_range() < 10);
    }
}

#[test]
fn passwords_have_the_asked_length_and_alphabet() {
    let pw = rand_passwd(30);
    assert_eq!(pw.len(), 30);
    assert!(pw.iter().all(|b| b.is_ascii_alphanumeric()));
    assert!(rand_passwd(0).is_empty());
}

#[test]
fn random_draws_produce_values() {
    let (_a, _b, _c, _d) = gen_random();
    let p = rand_point();
    // the coordinates were drawn; nothing more can be promised of them
    let _ = (p.x, p.y);
}

#[test]
fn fruit_store_keeps_insertion_order() {
    let mut db = FruitStore::new();
    db.insert("apple");
    db.insert("banana");
    db.insert("orange");
    db.insert("grape");
    assert_eq!(db.len(), 4);
    assert_eq!(db.get(0).as_str(), "apple");
    assert_eq!(db.get(1).as_str(), "banana");
    assert_eq!(db.get(2).as_str(), "orange");
    assert_eq!(db.get(3).as_str(), "grape");
}

#[test]
fn privileges_come_from_the_registry() {
    let reg = PrivilegeRegistry::with_demo_entries();
    let james = "James".to_string();
    let jim = "Jim".to_string();
    let nobody = "Nobody".to_string();
    assert_eq!(
        reg.privileges_of(&james),
        Some(&vec!["user".to_string(), "admin".to_string()])
    );
    assert_eq!(reg.privileges_of(&jim), Some(&vec!["user".to_string()]));
    assert_eq!(reg.privileges_of(&nobody), None);
}

#[test]
fn granted_roles_are_found() {
    let mut reg = PrivilegeRegistry::new();
    let name = "Ada".to_string();
    assert_eq!(reg.privileges_of(&name), None);
    reg.grant("Ada".to_string(), vec!["owner".to_string()]);
    assert_eq!(reg.privileges_of(&name), Some(&vec!["owner".to_string()]));
}
