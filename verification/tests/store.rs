use forex_store::database::Database;
use forex_store::record::{ForexPair, Price};

fn quote(id: u64, pair: &str, price: f64) -> ForexPair {
    ForexPair { id, pair: pair.to_string(), price: Price::from_bits(price.to_bits()) }
}

fn sorted_by_id(mut records: Vec<&ForexPair>) -> Vec<&ForexPair> {
    records.sort_by_key(|r| r.id);
    records
}

#[test]
fn price_keeps_its_bits() {
    let price = Price::from_bits(1.08f64.to_bits());
    assert_eq!(price.to_bits(), 0x3FF147AE147AE148);
    assert_eq!(f64::from_bits(price.to_bits()), 1.08);
    assert_eq!(Price::from_bits(0).to_bits(), 0);
    assert_eq!(Price::from_bits(u64::MAX).to_bits(), u64::MAX);
}

#[test]
fn clone_of_a_record_is_equal() {
    let record = quote(7, "GBP/JPY", 191.25);
    let copy = record.clone();
    assert_eq!(copy, record);
    assert_eq!(copy.id, 7);
    assert_eq!(copy.pair, "GBP/JPY");
    assert_eq!(copy.price.to_bits(), 191.25f64.to_bits());
}

#[test]
fn new_store_is_empty() {
    let db = Database::new();
    assert!(db.get_all().is_empty());
    assert_eq!(db.get(&0), None);
    assert_eq!(db.get(&u64::MAX), None);
}

#[test]
fn insert_then_get_returns_the_record() {
    let mut db = Database::new();
    assert_eq!(db.insert(quote(1, "EUR/USD", 1.08)), None);
    assert_eq!(db.get(&1), Some(&quote(1, "EUR/USD", 1.08)));
    assert_eq!(db.get(&2), None);
}

#[test]
fn insert_returns_the_replaced_record() {
    let mut db = Database::new();
    assert_eq!(db.insert(quote(1, "EUR/USD", 1.08)), None);
    assert_eq!(db.insert(quote(1, "EUR/USD", 1.09)), Some(quote(1, "EUR/USD", 1.08)));
    assert_eq!(db.insert(quote(1, "USD/CHF", 0.88)), Some(quote(1, "EUR/USD", 1.09)));
    assert_eq!(db.get(&1), Some(&quote(1, "USD/CHF", 0.88)));
    assert_eq!(db.get_all().len(), 1);
}

#[test]
fn insert_accepts_any_field_values() {
    let mut db = Database::new();
    db.insert(quote(0, "", -1.0));
    db.insert(quote(u64::MAX, "not a pair", f64::NAN));
    assert_eq!(db.get(&0), Some(&quote(0, "", -1.0)));
    let held = db.get(&u64::MAX).unwrap();
    assert_eq!(held.pair, "not a pair");
    assert!(f64::from_bits(held.price.to_bits()).is_nan());
    assert_eq!(db.get_all().len(), 2);
}

#[test]
fn update_replaces_an_existing_record() {
    let mut db = Database::new();
    db.insert(quote(3, "AUD/USD", 0.65));
    db.update(quote(3, "AUD/USD", 0.66));
    assert_eq!(db.get(&3), Some(&quote(3, "AUD/USD", 0.66)));
    assert_eq!(db.get_all().len(), 1);
}

#[test]
fn update_of_an_unknown_id_creates_it() {
    let mut db = Database::new();
    db.update(quote(42, "USD/JPY", 151.5));
    assert_eq!(db.get(&42), Some(&quote(42, "USD/JPY", 151.5)));
    assert_eq!(db.get_all(), vec![&quote(42, "USD/JPY", 151.5)]);
}

#[test]
fn delete_removes_only_the_named_record() {
    let mut db = Database::new();
    db.insert(quote(1, "EUR/USD", 1.08));
    db.insert(quote(2, "GBP/USD", 1.27));
    db.delete(&1);
    assert_eq!(db.get(&1), None);
    assert_eq!(db.get(&2), Some(&quote(2, "GBP/USD", 1.27)));
    assert_eq!(db.get_all(), vec![&quote(2, "GBP/USD", 1.27)]);
}

#[test]
fn delete_of_an_unknown_id_changes_nothing() {
    let mut db = Database::new();
    db.delete(&9);
    assert!(db.get_all().is_empty());
    db.insert(quote(1, "EUR/USD", 1.08));
    db.delete(&9);
    assert_eq!(db.get_all(), vec![&quote(1, "EUR/USD", 1.08)]);
    db.delete(&1);
    db.delete(&1);
    assert_eq!(db.get(&1), None);
    assert!(db.get_all().is_empty());
}

#[test]
fn get_all_lists_every_record_once() {
    let mut db = Database::new();
    db.insert(quote(5, "NZD/USD", 0.6));
    db.insert(quote(1, "EUR/USD", 1.08));
    db.insert(quote(3, "USD/CAD", 1.36));
    db.insert(quote(1, "EUR/USD", 1.1));
    let expected = [quote(1, "EUR/USD", 1.1), quote(3, "USD/CAD", 1.36), quote(5, "NZD/USD", 0.6)];
    assert_eq!(sorted_by_id(db.get_all()), expected.iter().collect::<Vec<_>>());
}

#[test]
fn get_all_agrees_with_get() {
    let mut db = Database::new();
    for id in 0..50u64 {
        db.insert(quote(id * 7, "EUR/USD", id as f64));
    }
    for id in 0..25u64 {
        db.delete(&(id * 14));
    }
    let all = db.get_all();
    assert_eq!(all.len(), 25);
    for record in &all {
        assert_eq!(db.get(&record.id), Some(*record));
        assert_eq!(record.id % 14, 7);
    }
    for id in 0..50u64 {
        let listed = all.iter().filter(|r| r.id == id * 7).count();
        assert_eq!(listed, if id % 2 == 1 { 1 } else { 0 });
    }
}

#[test]
fn clone_of_a_store_holds_the_same_records() {
    let mut db = Database::new();
    db.insert(quote(1, "EUR/USD", 1.08));
    db.insert(quote(2, "GBP/USD", 1.27));
    let mut copy = db.clone();
    assert_eq!(sorted_by_id(copy.get_all()), sorted_by_id(db.get_all()));
    copy.delete(&1);
    assert_eq!(db.get(&1), Some(&quote(1, "EUR/USD", 1.08)));
    assert_eq!(copy.get(&1), None);
}

#[test]
fn writes_to_different_ids_commute() {
    let mut one = Database::new();
    one.insert(quote(1, "EUR/USD", 1.08));
    one.insert(quote(2, "GBP/USD", 1.27));
    one.delete(&3);
    one.update(quote(4, "USD/JPY", 151.5));
    let mut other = Database::new();
    other.update(quote(4, "USD/JPY", 151.5));
    other.delete(&3);
    other.insert(quote(2, "GBP/USD", 1.27));
    other.insert(quote(1, "EUR/USD", 1.08));
    assert_eq!(sorted_by_id(one.get_all()), sorted_by_id(other.get_all()));
}
