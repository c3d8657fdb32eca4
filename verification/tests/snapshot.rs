use forex_store::database::Database;
use forex_store::record::{ForexPair, Price};

fn quote(id: u64, pair: &str, price: f64) -> ForexPair {
    ForexPair { id, pair: pair.to_string(), price: Price::from_bits(price.to_bits()) }
}

fn sorted_by_id(mut records: Vec<&ForexPair>) -> Vec<&ForexPair> {
    records.sort_by_key(|r| r.id);
    records
}

fn entries_of(db: &Database) -> Vec<(u64, ForexPair)> {
    db.to_entries().into_iter().map(|(key, record)| (key, record.clone())).collect()
}

#[test]
fn to_entries_of_an_empty_store_is_empty() {
    assert!(Database::new().to_entries().is_empty());
}

#[test]
fn to_entries_keys_each_record_by_its_id() {
    let mut db = Database::new();
    db.insert(quote(10, "USD/MXN", 17.1));
    db.insert(quote(2, "GBP/USD", 1.27));
    db.insert(quote(10, "USD/MXN", 17.2));
    let mut entries = db.to_entries();
    entries.sort_by_key(|entry| entry.0);
    assert_eq!(entries, vec![(2, &quote(2, "GBP/USD", 1.27)), (10, &quote(10, "USD/MXN", 17.2))]);
}

#[test]
fn from_entries_of_nothing_is_the_empty_store() {
    let db = Database::from_entries(Vec::new()).unwrap();
    assert!(db.get_all().is_empty());
}

#[test]
fn from_entries_files_each_record_under_its_key() {
    let entries = vec![(2, quote(2, "GBP/USD", 1.27)), (1, quote(1, "EUR/USD", 1.08))];
    let db = Database::from_entries(entries).unwrap();
    assert_eq!(db.get(&1), Some(&quote(1, "EUR/USD", 1.08)));
    assert_eq!(db.get(&2), Some(&quote(2, "GBP/USD", 1.27)));
    assert_eq!(db.get(&3), None);
    assert_eq!(db.get_all().len(), 2);
}

#[test]
fn from_entries_keeps_the_later_of_two_entries_with_one_key() {
    let entries = vec![
        (1, quote(1, "EUR/USD", 1.08)),
        (2, quote(2, "GBP/USD", 1.27)),
        (1, quote(1, "EUR/USD", 1.11)),
    ];
    let db = Database::from_entries(entries).unwrap();
    assert_eq!(db.get(&1), Some(&quote(1, "EUR/USD", 1.11)));
    assert_eq!(db.get_all().len(), 2);
}

#[test]
fn from_entries_refuses_a_key_that_is_not_the_record_id() {
    assert!(Database::from_entries(vec![(5, quote(7, "EUR/USD", 1.08))]).is_none());
    let entries = vec![
        (1, quote(1, "EUR/USD", 1.08)),
        (2, quote(3, "GBP/USD", 1.27)),
        (4, quote(4, "USD/JPY", 151.5)),
    ];
    assert!(Database::from_entries(entries).is_none());
    let entries = vec![(1, quote(1, "EUR/USD", 1.08)), (0, quote(u64::MAX, "GBP/USD", 1.27))];
    assert!(Database::from_entries(entries).is_none());
}

#[test]
fn load_or_empty_without_entries_starts_empty() {
    let db = Database::load_or_empty(None);
    assert!(db.get_all().is_empty());
}

#[test]
fn load_or_empty_with_entries_of_the_wrong_shape_starts_empty() {
    let entries = vec![(1, quote(1, "EUR/USD", 1.08)), (2, quote(1, "EUR/USD", 1.08))];
    let db = Database::load_or_empty(Some(entries));
    assert!(db.get_all().is_empty());
    assert_eq!(db.get(&1), None);
}

#[test]
fn load_or_empty_with_entries_restores_them() {
    let entries = vec![(8, quote(8, "USD/SEK", 10.4)), (9, quote(9, "USD/NOK", 10.6))];
    let db = Database::load_or_empty(Some(entries));
    let expected = [quote(8, "USD/SEK", 10.4), quote(9, "USD/NOK", 10.6)];
    assert_eq!(sorted_by_id(db.get_all()), expected.iter().collect::<Vec<_>>());
}

#[test]
fn a_store_written_out_and_restored_is_the_same_store() {
    let mut db = Database::new();
    db.insert(quote(1, "EUR/USD", 1.08));
    db.insert(quote(42, "USD/JPY", 151.5));
    db.insert(quote(u64::MAX, "", -0.0));
    db.delete(&42);
    db.update(quote(6, "EUR/GBP", 0.85));
    let restored = Database::from_entries(entries_of(&db)).unwrap();
    assert_eq!(sorted_by_id(restored.get_all()), sorted_by_id(db.get_all()));
    assert_eq!(restored.get(&42), None);
    assert_eq!(restored.get(&u64::MAX), Some(&quote(u64::MAX, "", -0.0)));
    let again = Database::load_or_empty(Some(entries_of(&restored)));
    assert_eq!(sorted_by_id(again.get_all()), sorted_by_id(db.get_all()));
}

#[test]
fn an_empty_store_written_out_and_restored_is_empty() {
    let db = Database::new();
    let restored = Database::from_entries(entries_of(&db)).unwrap();
    assert!(restored.get_all().is_empty());
}
