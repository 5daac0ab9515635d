use modsync::inventory::Inventory;

#[test]
fn inventory_is_a_set() {
    let mut inventory = Inventory::new();
    assert!(inventory.is_empty());
    assert!(inventory.insert("a.jar".to_string()));
    assert!(inventory.insert("b.jar".to_string()));
    assert!(!inventory.insert("a.jar".to_string()));
    assert_eq!(inventory.len(), 2);
    assert!(inventory.contains("a.jar"));
    assert!(inventory.contains("b.jar"));
    assert!(!inventory.contains("A.jar"));
    assert!(!inventory.contains(""));
    assert_eq!(inventory.names(), &vec!["a.jar".to_string(), "b.jar".to_string()]);
}
