use yamengine::table::Table;

#[test]
fn table_keeps_one_value_per_code() {
    let mut t: Table<u8> = Table::new();
    assert!(t.is_empty());
    assert_eq!(t.get(4), None);
    t.set(4, 10);
    t.set(9, 20);
    t.set(4, 30);
    assert!(!t.is_empty());
    assert_eq!(t.get(4), Some(30));
    assert_eq!(t.get(9), Some(20));
    assert_eq!(t.get(5), None);
    let mut entries = t.take_entries();
    entries.sort();
    assert_eq!(entries, vec![(4, 30), (9, 20)]);
    assert!(t.is_empty());
}
