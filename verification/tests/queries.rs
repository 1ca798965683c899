use home_stock::history::list_transactions;
use home_stock::models::TxType;
use home_stock::queries::{
    add_item, check_in, check_out, expiring_items, list_items, low_stock_items, next_barcode,
    update_item, ItemInput,
};
use home_stock::store::Stock;

fn sample_item(name: &str, qty: i64, min: i64) -> ItemInput {
    ItemInput {
        name: name.to_string(),
        category_id: None,
        location_id: None,
        unit: "ชิ้น".to_string(),
        quantity: qty,
        min_quantity: min,
        barcode: None,
        expiry_date: None,
    }
}

#[test]
fn check_in_increases_quantity_and_logs() {
    let mut db = Stock::new();
    let id = add_item(&mut db, &sample_item("น้ำปลา", 5, 2)).unwrap();

    check_in(&mut db, id, None, 3, "ซื้อเพิ่ม").unwrap();

    let items = list_items(&db);
    assert_eq!(items[0].quantity, 8);

    let txs = list_transactions(&db);
    assert_eq!(txs.len(), 1);
    assert_eq!(txs[0].tx_type, TxType::In);
    assert_eq!(txs[0].quantity, 3);
}

#[test]
fn check_out_decreases_quantity_and_logs() {
    let mut db = Stock::new();
    let id = add_item(&mut db, &sample_item("ข้าวสาร", 10, 1)).unwrap();

    check_out(&mut db, id, None, 4, "หุงข้าว").unwrap();

    let items = list_items(&db);
    assert_eq!(items[0].quantity, 6);
    let txs = list_transactions(&db);
    assert_eq!(txs[0].tx_type, TxType::Out);
}

#[test]
fn check_out_rejects_when_insufficient_and_leaves_data_unchanged() {
    let mut db = Stock::new();
    let id = add_item(&mut db, &sample_item("ไข่", 3, 1)).unwrap();

    let result = check_out(&mut db, id, None, 5, "");
    assert!(result.is_err(), "ต้องปฏิเสธเมื่อจำนวนไม่พอ");

    let items = list_items(&db);
    assert_eq!(items[0].quantity, 3);
    assert_eq!(list_transactions(&db).len(), 0);
}

#[test]
fn check_out_rejects_non_positive_quantity() {
    let mut db = Stock::new();
    let id = add_item(&mut db, &sample_item("เกลือ", 5, 1)).unwrap();
    assert!(check_out(&mut db, id, None, 0, "").is_err());
    assert!(check_in(&mut db, id, None, -2, "").is_err());
}

#[test]
fn next_barcode_starts_at_10000_and_skips_used() {
    let mut db = Stock::new();
    assert_eq!(next_barcode(&db).unwrap(), "10000");

    let mut a = sample_item("ของ ก", 1, 0);
    a.barcode = Some("10000".to_string());
    add_item(&mut db, &a).unwrap();
    assert_eq!(next_barcode(&db).unwrap(), "10001");

    let mut b = sample_item("ของ ข", 1, 0);
    b.barcode = Some("ABC".to_string());
    add_item(&mut db, &b).unwrap();
    assert_eq!(next_barcode(&db).unwrap(), "10001");
}

#[test]
fn barcode_unique_when_present_but_empty_can_repeat() {
    let mut db = Stock::new();

    let mut a = sample_item("ของ ก", 1, 0);
    a.barcode = Some("10000".to_string());
    add_item(&mut db, &a).unwrap();

    let mut b = sample_item("ของ ข", 1, 0);
    b.barcode = Some("10000".to_string());
    assert!(add_item(&mut db, &b).is_err(), "บาร์โค้ดซ้ำต้องถูกปฏิเสธ");

    let mut c = sample_item("ของ ค", 1, 0);
    c.barcode = Some("".to_string());
    let mut d = sample_item("ของ ง", 1, 0);
    d.barcode = Some("   ".to_string());
    let e = sample_item("ของ จ", 1, 0);
    add_item(&mut db, &c).unwrap();
    add_item(&mut db, &d).unwrap();
    add_item(&mut db, &e).unwrap();

    let empties = list_items(&db).into_iter().filter(|i| i.barcode.is_none()).count();
    assert_eq!(empties, 3);
}

#[test]
fn check_out_clears_barcode_and_frees_the_number() {
    let mut db = Stock::new();
    let mut a = sample_item("ของ ก", 5, 0);
    a.barcode = Some("10000".to_string());
    let id = add_item(&mut db, &a).unwrap();

    check_out(&mut db, id, None, 2, "เบิกใช้").unwrap();

    let it = list_items(&db);
    assert_eq!(it[0].quantity, 3);
    assert_eq!(it[0].barcode, None, "เบิกออกแล้วบาร์โค้ดต้องเป็นค่าว่าง");

    let mut b = sample_item("ของ ข", 1, 0);
    b.barcode = Some("10000".to_string());
    assert!(add_item(&mut db, &b).is_ok());
}

#[test]
fn update_item_rejects_duplicate_but_allows_keeping_own_barcode() {
    let mut db = Stock::new();
    let mut a = sample_item("ของ ก", 1, 0);
    a.barcode = Some("10000".to_string());
    let id_a = add_item(&mut db, &a).unwrap();

    let mut b = sample_item("ของ ข", 1, 0);
    b.barcode = Some("10001".to_string());
    add_item(&mut db, &b).unwrap();

    let mut dup = sample_item("ของ ก", 1, 0);
    dup.barcode = Some("10001".to_string());
    assert!(update_item(&mut db, id_a, &dup).is_err());

    let mut same = sample_item("ของ ก แก้ชื่อ", 2, 0);
    same.barcode = Some("10000".to_string());
    assert!(update_item(&mut db, id_a, &same).is_ok());
}

#[test]
fn low_stock_returns_only_items_at_or_below_min() {
    let mut db = Stock::new();
    add_item(&mut db, &sample_item("ของพอใช้", 10, 2)).unwrap();
    add_item(&mut db, &sample_item("ของใกล้หมด", 1, 3)).unwrap();
    add_item(&mut db, &sample_item("ของหมด", 0, 0)).unwrap();

    let low = low_stock_items(&db);
    let names: Vec<_> = low.iter().map(|i| i.name.as_str()).collect();
    assert!(names.contains(&"ของใกล้หมด"));
    assert!(names.contains(&"ของหมด"));
    assert!(!names.contains(&"ของพอใช้"));
}

#[test]
fn expiring_returns_only_items_within_window() {
    let mut db = Stock::new();
    let today = chrono::Local::now().date_naive();
    let soon = (today + chrono::Duration::days(5)).format("%Y-%m-%d").to_string();
    let far = (today + chrono::Duration::days(90)).format("%Y-%m-%d").to_string();

    let mut a = sample_item("นมใกล้หมดอายุ", 2, 0);
    a.expiry_date = Some(soon);
    add_item(&mut db, &a).unwrap();

    let mut b = sample_item("ปลากระป๋อง", 5, 0);
    b.expiry_date = Some(far);
    add_item(&mut db, &b).unwrap();

    let exp = expiring_items(&db, 30).unwrap();
    let names: Vec<_> = exp.iter().map(|i| i.name.as_str()).collect();
    assert_eq!(names, vec!["นมใกล้หมดอายุ"]);
}
