use home_stock::clock::{date_after_today, days_until, days_until_from, parse_date};
use home_stock::history::list_transactions;
use home_stock::models::{Category, Item, Location, Movement, Setting, TxType, User};
use home_stock::queries::{
    add_category, add_item, add_item_at, add_location, add_user, barcode_taken, check_in,
    check_in_at, check_out, check_out_at, delete_item, expiring_items, expiring_items_until,
    find_by_barcode, get_setting, list_categories, list_items, list_locations, list_users,
    low_stock_items, next_barcode, normalize_barcode, set_setting, update_item, update_item_at,
    ItemInput,
};
use home_stock::state::{FormError, HistoryFilter, ItemFilter, ItemForm};
use home_stock::store::{Stock, StockError};
use home_stock::theme::Theme;
use home_stock::views::{
    category_name, expiry_alerts_from, filter_items, filter_transactions, item_name,
    location_name, low_stock_alerts, report_summary, report_summary_from, user_name,
};

fn input(name: &str, qty: i64, min: i64) -> ItemInput {
    ItemInput {
        name: name.to_string(),
        category_id: None,
        location_id: None,
        unit: "ชิ้น".to_string(),
        quantity: qty,
        min_quantity: min,
        barcode: None,
        expiry_date: None,
    }
}

fn with_barcode(name: &str, code: &str) -> ItemInput {
    let mut i = input(name, 1, 0);
    i.barcode = Some(code.to_string());
    i
}

fn with_expiry(name: &str, date: &str) -> ItemInput {
    let mut i = input(name, 1, 0);
    i.expiry_date = Some(date.to_string());
    i
}

fn item(id: i64, name: &str, qty: i64, min: i64, expiry: Option<&str>) -> Item {
    Item {
        id,
        name: name.to_string(),
        category_id: None,
        location_id: None,
        unit: "ชิ้น".to_string(),
        quantity: qty,
        min_quantity: min,
        barcode: None,
        expiry_date: expiry.map(|s| s.to_string()),
        created_at: String::new(),
        updated_at: String::new(),
    }
}

// 2024-01-01 counted from the first day of the common era.
const JAN_1_2024: i32 = 738886;

// ─────────────────────────────── the stock book ───────────────────────────────

#[test]
fn new_stock_is_empty_and_consistent() {
    let db = Stock::new();
    assert!(db.is_consistent());
    assert!(list_items(&db).is_empty());
    assert!(list_users(&db).is_empty());
    assert!(list_transactions(&db).is_empty());
}

#[test]
fn consistency_check_refuses_descending_ids() {
    let mut db = Stock::new();
    db.users = vec![
        User { id: 2, name: "ก".to_string() },
        User { id: 1, name: "ข".to_string() },
    ];
    db.last_user_id = 2;
    assert!(!db.is_consistent());
    db.users.swap(0, 1);
    assert!(db.is_consistent());
}

#[test]
fn consistency_check_refuses_duplicate_names_and_ids_past_the_counter() {
    let mut db = Stock::new();
    db.categories = vec![
        Category { id: 1, name: "อาหาร".to_string() },
        Category { id: 2, name: "อาหาร".to_string() },
    ];
    db.last_category_id = 2;
    assert!(!db.is_consistent());
    db.categories[1].name = "ยา".to_string();
    assert!(db.is_consistent());
    db.last_category_id = 1;
    assert!(!db.is_consistent());
}

#[test]
fn consistency_check_refuses_dangling_references() {
    let mut db = Stock::new();
    let mut it = item(1, "สบู่", 1, 0, None);
    it.location_id = Some(4);
    db.items = vec![it];
    db.last_item_id = 1;
    assert!(!db.is_consistent());
    db.locations = vec![Location { id: 4, name: "ชั้นบน".to_string() }];
    db.last_location_id = 4;
    assert!(db.is_consistent());
    db.movements = vec![Movement {
        id: 1,
        item_id: 9,
        user_id: None,
        tx_type: TxType::In,
        quantity: 1,
        note: String::new(),
        timestamp: String::new(),
    }];
    db.last_movement_id = 1;
    assert!(!db.is_consistent());
    db.movements[0].item_id = 1;
    assert!(db.is_consistent());
    db.settings = vec![
        Setting { key: "theme".to_string(), value: "dark".to_string() },
        Setting { key: "theme".to_string(), value: "light".to_string() },
    ];
    assert!(!db.is_consistent());
}

// ─────────────────────────── people, categories, places ───────────────────────────

#[test]
fn add_user_counts_ids_up_and_refuses_a_taken_name() {
    let mut db = Stock::new();
    assert_eq!(add_user(&mut db, "แม่").unwrap(), 1);
    assert_eq!(add_user(&mut db, "พ่อ").unwrap(), 2);
    assert!(matches!(add_user(&mut db, "แม่"), Err(StockError::DuplicateName)));
    let users = list_users(&db);
    assert_eq!(users.len(), 2);
    assert_eq!(users[0].name, "พ่อ");
    assert_eq!(users[0].id, 2);
    assert_eq!(users[1].name, "แม่");
    assert!(db.is_consistent());
}

#[test]
fn categories_and_locations_are_listed_by_name() {
    let mut db = Stock::new();
    assert_eq!(add_category(&mut db, "ยา").unwrap(), 1);
    assert_eq!(add_category(&mut db, "เครื่องปรุง").unwrap(), 2);
    assert!(matches!(add_category(&mut db, "ยา"), Err(StockError::DuplicateName)));
    assert_eq!(add_location(&mut db, "ตู้เย็น").unwrap(), 1);
    assert_eq!(add_location(&mut db, "ชั้น 1").unwrap(), 2);
    let cats = list_categories(&db);
    assert_eq!(cats[0].name, "ยา");
    assert_eq!(cats[1].name, "เครื่องปรุง");
    let locs = list_locations(&db);
    assert_eq!(locs[0].name, "ชั้น 1");
    assert_eq!(locs[1].name, "ตู้เย็น");
    assert_eq!(category_name(&db.categories, Some(2)), "เครื่องปรุง");
    assert_eq!(category_name(&db.categories, Some(7)), "");
    assert_eq!(location_name(&db.locations, None), "");
    assert_eq!(location_name(&db.locations, Some(1)), "ตู้เย็น");
}

// ─────────────────────────────────── items ───────────────────────────────────

#[test]
fn add_item_trims_name_and_barcode_and_stamps_the_time() {
    let mut db = Stock::new();
    let mut i = input("  น้ำตาล  ", 2, 1);
    i.barcode = Some("  12345 ".to_string());
    let id = add_item(&mut db, &i).unwrap();
    assert_eq!(id, 1);
    let it = &db.items[0];
    assert_eq!(it.name, "น้ำตาล");
    assert_eq!(it.barcode.as_deref(), Some("12345"));
    assert_eq!(it.created_at.len(), 19);
    assert_eq!(it.created_at, it.updated_at);
}

#[test]
fn add_item_at_uses_the_given_time() {
    let mut db = Stock::new();
    add_item_at(&mut db, &input("ชา", 1, 0), "2024-05-01 08:00:00").unwrap();
    assert_eq!(db.items[0].created_at, "2024-05-01 08:00:00");
    update_item_at(&mut db, 1, &input("ชาเขียว", 3, 0), "2024-05-02 09:00:00").unwrap();
    assert_eq!(db.items[0].name, "ชาเขียว");
    assert_eq!(db.items[0].quantity, 3);
    assert_eq!(db.items[0].created_at, "2024-05-01 08:00:00");
    assert_eq!(db.items[0].updated_at, "2024-05-02 09:00:00");
}

#[test]
fn add_item_refuses_blank_name_and_unknown_references() {
    let mut db = Stock::new();
    assert!(matches!(add_item(&mut db, &input("   ", 1, 0)), Err(StockError::NameRequired)));
    let mut i = input("นม", 1, 0);
    i.category_id = Some(3);
    assert!(matches!(add_item(&mut db, &i), Err(StockError::MissingReference)));
    assert!(db.items.is_empty());
    let c = add_category(&mut db, "เครื่องดื่ม").unwrap();
    i.category_id = Some(c);
    assert_eq!(add_item(&mut db, &i).unwrap(), 1);
}

#[test]
fn update_of_an_unknown_item_changes_nothing() {
    let mut db = Stock::new();
    add_item(&mut db, &input("ถ่าน", 4, 1)).unwrap();
    assert!(update_item(&mut db, 42, &input("อื่น", 9, 9)).is_ok());
    assert_eq!(db.items.len(), 1);
    assert_eq!(db.items[0].name, "ถ่าน");
    assert!(matches!(update_item(&mut db, 1, &input(" ", 9, 9)), Err(StockError::NameRequired)));
}

#[test]
fn delete_item_removes_its_history_and_its_id_is_not_reused() {
    let mut db = Stock::new();
    let a = add_item(&mut db, &input("ก", 5, 0)).unwrap();
    let b = add_item(&mut db, &input("ข", 5, 0)).unwrap();
    check_in(&mut db, a, None, 1, "").unwrap();
    check_in(&mut db, b, None, 2, "").unwrap();
    delete_item(&mut db, a);
    assert_eq!(db.items.len(), 1);
    assert_eq!(db.items[0].id, b);
    let txs = list_transactions(&db);
    assert_eq!(txs.len(), 1);
    assert_eq!(txs[0].item_id, b);
    let c = add_item(&mut db, &input("ค", 1, 0)).unwrap();
    assert_eq!(c, 3);
    delete_item(&mut db, 99);
    assert_eq!(db.items.len(), 2);
    assert!(db.is_consistent());
}

#[test]
fn list_items_orders_by_name_then_id() {
    let mut db = Stock::new();
    add_item(&mut db, &input("b", 1, 0)).unwrap();
    add_item(&mut db, &input("a", 1, 0)).unwrap();
    add_item(&mut db, &input("b", 1, 0)).unwrap();
    let ids: Vec<i64> = list_items(&db).iter().map(|i| i.id).collect();
    assert_eq!(ids, vec![2, 1, 3]);
}

// ─────────────────────────────── check-in / check-out ───────────────────────────────

#[test]
fn check_out_reports_what_is_left() {
    let mut db = Stock::new();
    let id = add_item(&mut db, &input("ไข่", 3, 1)).unwrap();
    assert!(matches!(
        check_out(&mut db, id, None, 5, ""),
        Err(StockError::InsufficientStock(3))
    ));
    assert!(matches!(check_out(&mut db, 77, None, 1, ""), Err(StockError::ItemNotFound)));
    assert!(matches!(check_in(&mut db, 77, None, 1, ""), Err(StockError::MissingReference)));
    assert!(matches!(check_in(&mut db, id, Some(5), 1, ""), Err(StockError::MissingReference)));
    assert!(matches!(check_out(&mut db, id, None, -1, ""), Err(StockError::NonPositiveQuantity)));
    assert_eq!(db.items[0].quantity, 3);
    assert!(db.movements.is_empty());
}

#[test]
fn check_in_refuses_a_quantity_that_would_overflow() {
    let mut db = Stock::new();
    let id = add_item(&mut db, &input("ทราย", i64::MAX, 0)).unwrap();
    assert!(matches!(check_in(&mut db, id, None, 1, ""), Err(StockError::QuantityOverflow)));
    assert_eq!(db.items[0].quantity, i64::MAX);
}

#[test]
fn check_in_then_out_of_the_same_amount_restores_the_quantity() {
    let mut db = Stock::new();
    let u = add_user(&mut db, "ลูก").unwrap();
    let id = add_item(&mut db, &input("น้ำดื่ม", 6, 2)).unwrap();
    check_in_at(&mut db, id, Some(u), 12, "ซื้อ", "2024-01-01 10:00:00").unwrap();
    assert_eq!(db.items[0].quantity, 18);
    check_out_at(&mut db, id, Some(u), 12, "ใช้", "2024-01-02 10:00:00").unwrap();
    assert_eq!(db.items[0].quantity, 6);
    assert_eq!(db.movements.len(), 2);
    assert_eq!(db.items[0].updated_at, "2024-01-02 10:00:00");
}

#[test]
fn every_movement_keeps_the_ledger_balanced() {
    let mut db = Stock::new();
    let id = add_item(&mut db, &input("แป้ง", 10, 0)).unwrap();
    let start = 10;
    check_in(&mut db, id, None, 5, "").unwrap();
    check_out(&mut db, id, None, 7, "").unwrap();
    check_in(&mut db, id, None, 1, "").unwrap();
    let net: i64 = db
        .movements
        .iter()
        .map(|m| match m.tx_type {
            TxType::In => m.quantity,
            TxType::Out => -m.quantity,
        })
        .sum();
    assert_eq!(db.items[0].quantity - net, start);
}

#[test]
fn history_lists_newest_first_with_names_joined() {
    let mut db = Stock::new();
    let u = add_user(&mut db, "ยาย").unwrap();
    let a = add_item(&mut db, &input("กาแฟ", 5, 0)).unwrap();
    check_in_at(&mut db, a, Some(u), 1, "x", "2024-01-01 09:00:00").unwrap();
    check_out_at(&mut db, a, None, 2, "y", "2024-01-03 09:00:00").unwrap();
    check_in_at(&mut db, a, Some(u), 3, "z", "2024-01-02 09:00:00").unwrap();
    let txs = list_transactions(&db);
    let qtys: Vec<i64> = txs.iter().map(|t| t.quantity).collect();
    assert_eq!(qtys, vec![2, 3, 1]);
    assert_eq!(txs[0].user_name, "");
    assert_eq!(txs[1].user_name, "ยาย");
    assert_eq!(txs[1].item_name, "กาแฟ");
    assert_eq!(txs[0].tx_type, TxType::Out);
}

#[test]
fn history_ties_in_time_put_the_later_row_first() {
    let mut db = Stock::new();
    let a = add_item(&mut db, &input("ก", 5, 0)).unwrap();
    check_in_at(&mut db, a, None, 1, "", "2024-01-01 09:00:00").unwrap();
    check_in_at(&mut db, a, None, 2, "", "2024-01-01 09:00:00").unwrap();
    let txs = list_transactions(&db);
    assert_eq!(txs[0].quantity, 2);
    assert_eq!(txs[1].quantity, 1);
}

// ───────────────────────────────── barcodes ─────────────────────────────────

#[test]
fn normalize_barcode_trims_and_drops_blank_codes() {
    assert_eq!(normalize_barcode(&Some(" 123 ".to_string())), Some("123".to_string()));
    assert_eq!(normalize_barcode(&Some("\t ".to_string())), None);
    assert_eq!(normalize_barcode(&None), None);
}

#[test]
fn find_by_barcode_and_barcode_taken() {
    let mut db = Stock::new();
    add_item(&mut db, &with_barcode("ก", "20000")).unwrap();
    let b = add_item(&mut db, &with_barcode("ข", "20001")).unwrap();
    assert_eq!(find_by_barcode(&db, "20001").unwrap().id, b);
    assert!(find_by_barcode(&db, "2000").is_none());
    assert!(barcode_taken(&db, "20001", None));
    assert!(!barcode_taken(&db, "20001", Some(b)));
    assert!(!barcode_taken(&db, "30000", None));
}

#[test]
fn next_barcode_wraps_around_after_99999() {
    let mut db = Stock::new();
    add_item(&mut db, &with_barcode("ก", "99999")).unwrap();
    assert_eq!(next_barcode(&db).unwrap(), "10000");
    add_item(&mut db, &with_barcode("ข", "10000")).unwrap();
    assert_eq!(next_barcode(&db).unwrap(), "10001");
}

#[test]
fn next_barcode_ignores_codes_of_other_shapes() {
    let mut db = Stock::new();
    add_item(&mut db, &with_barcode("ก", "01234")).unwrap();
    add_item(&mut db, &with_barcode("ข", "123456")).unwrap();
    add_item(&mut db, &with_barcode("ค", "5000")).unwrap();
    assert_eq!(next_barcode(&db).unwrap(), "10000");
    add_item(&mut db, &with_barcode("ง", "54321")).unwrap();
    assert_eq!(next_barcode(&db).unwrap(), "54322");
}

#[test]
fn a_barcode_from_next_barcode_is_accepted() {
    let mut db = Stock::new();
    add_item(&mut db, &with_barcode("ก", "10000")).unwrap();
    let code = next_barcode(&db).unwrap();
    assert!(add_item(&mut db, &with_barcode("ข", &code)).is_ok());
    assert!(matches!(
        add_item(&mut db, &with_barcode("ค", &code)),
        Err(StockError::BarcodeTaken)
    ));
}

// ───────────────────────────────── settings ─────────────────────────────────

#[test]
fn a_setting_reads_back_the_last_value_written() {
    let mut db = Stock::new();
    assert_eq!(get_setting(&db, "theme"), None);
    set_setting(&mut db, "theme", "dark");
    set_setting(&mut db, "lang", "th");
    assert_eq!(get_setting(&db, "theme"), Some("dark".to_string()));
    set_setting(&mut db, "theme", "light");
    assert_eq!(get_setting(&db, "theme"), Some("light".to_string()));
    assert_eq!(get_setting(&db, "lang"), Some("th".to_string()));
    assert_eq!(db.settings.len(), 2);
}

// ─────────────────────────────── themes and directions ───────────────────────────────

#[test]
fn theme_round_trips_through_its_stored_text() {
    for t in [Theme::Light, Theme::Dark] {
        assert_eq!(Theme::from_str(t.as_str()), t);
        assert_eq!(t.toggled().toggled(), t);
        assert_ne!(t.toggled(), t);
    }
    assert_eq!(Theme::from_str("blue"), Theme::Light);
    assert_eq!(Theme::Dark.as_str(), "dark");
    assert_eq!(Theme::Light.toggle_label(), "🌙 โหมดมืด");
    assert_eq!(Theme::Dark.toggle_label(), "☀ โหมดสว่าง");
}

#[test]
fn tx_type_round_trips_through_its_stored_text() {
    assert_eq!(TxType::from_db(TxType::In.as_db()), TxType::In);
    assert_eq!(TxType::from_db(TxType::Out.as_db()), TxType::Out);
    assert_eq!(TxType::from_db("whatever"), TxType::In);
    assert_eq!(TxType::Out.as_db(), "OUT");
    assert_eq!(TxType::In.label_th(), "รับเข้า");
    assert_eq!(TxType::Out.label_th(), "เบิกออก");
}

// ─────────────────────────────────── dates ───────────────────────────────────

#[test]
fn parse_date_reads_iso_dates_after_trimming() {
    assert_eq!(parse_date("2024-01-01"), Some(JAN_1_2024));
    assert_eq!(parse_date("  2024-01-02 "), Some(JAN_1_2024 + 1));
    assert_eq!(parse_date("2024-13-01"), None);
    assert_eq!(parse_date("01/01/2024"), None);
    assert_eq!(parse_date(""), None);
}

#[test]
fn days_until_counts_from_the_given_day() {
    let d = |s: &str| days_until_from(&Some(s.to_string()), JAN_1_2024);
    assert_eq!(d("2024-01-11"), Some(10));
    assert_eq!(d("2023-12-31"), Some(-1));
    assert_eq!(d("2024-03-01"), Some(60));
    assert_eq!(d("   "), None);
    assert_eq!(d("later"), None);
    assert_eq!(days_until_from(&None, JAN_1_2024), None);
    assert_eq!(days_until(&None), None);
    assert!(days_until(&Some("2000-01-01".to_string())).unwrap() < 0);
}

#[test]
fn date_after_today_stays_in_the_calendar() {
    assert!(date_after_today(i64::MAX).is_none());
    assert!(date_after_today(i64::MIN).is_none());
    let today = date_after_today(0).unwrap();
    assert_eq!(today.len(), 10);
    assert_eq!(parse_date(&today).map(|d| d + 1), parse_date(&date_after_today(1).unwrap()));
}

// ─────────────────────────────── alert lists ───────────────────────────────

#[test]
fn low_stock_items_orders_by_quantity_then_name() {
    let mut db = Stock::new();
    add_item(&mut db, &input("ค", 2, 2)).unwrap();
    add_item(&mut db, &input("ก", 1, 5)).unwrap();
    add_item(&mut db, &input("ข", 9, 1)).unwrap();
    add_item(&mut db, &input("ข", 2, 3)).unwrap();
    let names: Vec<String> = low_stock_items(&db).iter().map(|i| i.name.clone()).collect();
    assert_eq!(names, vec!["ก", "ข", "ค"]);
    let alerts: Vec<i64> = low_stock_alerts(&db.items).iter().map(|i| i.id).collect();
    assert_eq!(alerts, vec![1, 2, 4]);
}

#[test]
fn expiring_items_until_compares_dates_and_skips_empty_ones() {
    let mut db = Stock::new();
    add_item(&mut db, &with_expiry("ก", "2024-02-01")).unwrap();
    add_item(&mut db, &with_expiry("ข", "2024-01-15")).unwrap();
    add_item(&mut db, &with_expiry("ค", "2024-03-01")).unwrap();
    add_item(&mut db, &with_expiry("ง", "")).unwrap();
    add_item(&mut db, &input("จ", 1, 0)).unwrap();
    let names: Vec<String> =
        expiring_items_until(&db, "2024-02-01").iter().map(|i| i.name.clone()).collect();
    assert_eq!(names, vec!["ข", "ก"]);
}

#[test]
fn expiring_items_counts_from_today() {
    let mut db = Stock::new();
    add_item(&mut db, &with_expiry("เก่า", "2000-01-01")).unwrap();
    add_item(&mut db, &with_expiry("ไกล", "9999-12-31")).unwrap();
    let names: Vec<String> =
        expiring_items(&db, 30).unwrap().iter().map(|i| i.name.clone()).collect();
    assert_eq!(names, vec!["เก่า"]);
    assert!(matches!(expiring_items(&db, i64::MAX), Err(StockError::DateOutOfRange)));
}

#[test]
fn expiry_alerts_give_days_left_soonest_first() {
    let items = vec![
        item(1, "ก", 1, 0, Some("2024-01-20")),
        item(2, "ข", 1, 0, Some("2023-12-25")),
        item(3, "ค", 1, 0, Some("2024-05-01")),
        item(4, "ง", 1, 0, Some("oops")),
        item(5, "จ", 1, 0, None),
    ];
    let alerts = expiry_alerts_from(&items, JAN_1_2024, 30);
    let got: Vec<(i64, i64)> = alerts.iter().map(|a| (a.item.id, a.days_left)).collect();
    assert_eq!(got, vec![(2, -7), (1, 19)]);
}

#[test]
fn report_summary_adds_up_the_items() {
    let items = vec![
        item(1, "ก", 5, 5, Some("2024-01-05")),
        item(2, "ข", i64::MAX, 0, None),
        item(3, "ค", 3, 1, Some("2025-01-01")),
    ];
    let r = report_summary_from(&items, JAN_1_2024, 30);
    assert_eq!(r.total_items, 3);
    assert_eq!(r.total_quantity, i64::MAX as i128 + 8);
    assert_eq!(r.low_stock, 1);
    assert_eq!(r.expiring, 1);
    let today = report_summary(&items, 30);
    assert_eq!(today.total_items, 3);
    assert_eq!(today.low_stock, 1);
}

// ─────────────────────────────────── filters ───────────────────────────────────

#[test]
fn filter_items_searches_name_and_barcode_without_case() {
    let mut a = item(1, "Soap Bar", 1, 0, None);
    a.category_id = Some(1);
    let mut b = item(2, "ยาสีฟัน", 1, 0, None);
    b.barcode = Some("AB-77".to_string());
    b.category_id = Some(2);
    let items = vec![a, b];
    let f = |search: &str, cat: Option<i64>| ItemFilter {
        search: search.to_string(),
        category_id: cat,
        location_id: None,
    };
    let ids = |f: &ItemFilter| filter_items(&items, f).iter().map(|i| i.id).collect::<Vec<_>>();
    assert_eq!(ids(&f("  SOAP ", None)), vec![1]);
    assert_eq!(ids(&f("ab-7", None)), vec![2]);
    assert_eq!(ids(&f("", None)), vec![1, 2]);
    assert_eq!(ids(&f("", Some(2))), vec![2]);
    assert_eq!(ids(&f("soap", Some(2))), Vec::<i64>::new());
    assert_eq!(item_name(&items, 2), "ยาสีฟัน");
    assert_eq!(item_name(&items, 3), "");
}

#[test]
fn filter_transactions_by_item_and_user() {
    let mut db = Stock::new();
    let u1 = add_user(&mut db, "ตา").unwrap();
    let u2 = add_user(&mut db, "ยาย").unwrap();
    let a = add_item(&mut db, &input("ก", 9, 0)).unwrap();
    let b = add_item(&mut db, &input("ข", 9, 0)).unwrap();
    check_in(&mut db, a, Some(u1), 1, "").unwrap();
    check_in(&mut db, b, Some(u2), 2, "").unwrap();
    check_in(&mut db, a, Some(u2), 3, "").unwrap();
    let txs = list_transactions(&db);
    let pick = |item_id, user_id| {
        let f = HistoryFilter { item_id, user_id };
        let mut q: Vec<i64> =
            filter_transactions(&txs, &f, &db.users).iter().map(|t| t.quantity).collect();
        q.sort();
        q
    };
    assert_eq!(pick(Some(a), None), vec![1, 3]);
    assert_eq!(pick(None, Some(u2)), vec![2, 3]);
    assert_eq!(pick(Some(a), Some(u2)), vec![3]);
    assert_eq!(pick(None, None), vec![1, 2, 3]);
    assert_eq!(user_name(&db.users, Some(u1)), "ตา");
}

// ─────────────────────────────────── the item form ───────────────────────────────────

#[test]
fn new_item_form_counts_in_pieces() {
    let f = ItemForm::for_new();
    assert!(f.open);
    assert_eq!(f.editing_id, None);
    assert_eq!(f.unit, "ชิ้น");
    assert_eq!(f.quantity, 0);
}

#[test]
fn item_form_turns_into_a_request() {
    let mut f = ItemForm::for_new();
    assert_eq!(f.to_input().err(), Some(FormError::NameRequired));
    f.name = "  นม ".to_string();
    f.unit = "  ".to_string();
    f.barcode = " 55555 ".to_string();
    f.expiry_date = "31-12-2024".to_string();
    assert_eq!(f.to_input().err(), Some(FormError::BadExpiryDate));
    f.expiry_date = " 2024-12-31 ".to_string();
    let i = f.to_input().unwrap();
    assert_eq!(i.name, "นม");
    assert_eq!(i.unit, "ชิ้น");
    assert_eq!(i.barcode.as_deref(), Some("55555"));
    assert_eq!(i.expiry_date.as_deref(), Some("2024-12-31"));
    f.barcode = String::new();
    f.expiry_date = String::new();
    let j = f.to_input().unwrap();
    assert_eq!(j.barcode, None);
    assert_eq!(j.expiry_date, None);
}

#[test]
fn edit_form_carries_the_item() {
    let mut it = item(7, "เกลือ", 3, 1, Some("2025-01-01"));
    it.barcode = Some("10007".to_string());
    let f = ItemForm::for_item(&it);
    assert_eq!(f.editing_id, Some(7));
    assert_eq!(f.name, "เกลือ");
    assert_eq!(f.barcode, "10007");
    assert_eq!(f.expiry_date, "2025-01-01");
    assert_eq!(f.min_quantity, 1);
}

// ─────────────────────────────────── CSV export ───────────────────────────────────

use home_stock::actions::{saved_theme, switch_theme, Lookup, SaveError, Saved, SubmitError};
use home_stock::export::{decimal_string, history_csv, items_csv};
use home_stock::views::{expiry_mark, low_on_stock, ExpiryMark};
use home_stock::models::Transaction;
use home_stock::state::{CheckInOutForm, QuickAdd};

#[test]
fn decimal_string_writes_numbers_as_to_string_does() {
    for n in [0i64, 7, -7, 10, 1234567, -90210, i64::MAX, i64::MIN] {
        assert_eq!(decimal_string(n), n.to_string());
    }
}

#[test]
fn items_csv_starts_with_the_byte_order_mark() {
    let mut a = item(1, "สบู่", -3, 1, None);
    a.unit = "ก้อน".to_string();
    a.barcode = Some("10000".to_string());
    a.category_id = Some(1);
    let b = item(2, "a,b", 4, 0, Some("2024-12-31"));
    let cats = vec![Category { id: 1, name: "ของใช้".to_string() }];
    let bytes = items_csv(&vec![a, b], &cats, &Vec::new()).unwrap();
    assert_eq!(&bytes[..3], &[0xEF, 0xBB, 0xBF]);
    let text = String::from_utf8(bytes[3..].to_vec()).unwrap();
    assert_eq!(
        text,
        "ชื่อ,หมวด,ตำแหน่ง,หน่วย,คงเหลือ,ขั้นต่ำ,บาร์โค้ด,วันหมดอายุ\n\
         สบู่,ของใช้,,ก้อน,-3,1,10000,\n\
         \"a,b\",,,ชิ้น,4,0,,2024-12-31\n"
    );
}

#[test]
fn history_csv_writes_one_record_per_row() {
    let t = Transaction {
        id: 1,
        item_id: 1,
        item_name: "ชา".to_string(),
        user_name: String::new(),
        tx_type: TxType::Out,
        quantity: 2,
        note: "x".to_string(),
        timestamp: "2024-01-01 10:00:00".to_string(),
    };
    let bytes = history_csv(&vec![t]).unwrap();
    let text = String::from_utf8(bytes[3..].to_vec()).unwrap();
    assert_eq!(
        text,
        "เวลา,ของ,ประเภท,จำนวน,ผู้ทำรายการ,หมายเหตุ\n2024-01-01 10:00:00,ชา,เบิกออก,2,,x\n"
    );
    let empty = history_csv(&Vec::new()).unwrap();
    assert_eq!(empty.len(), 3 + "เวลา,ของ,ประเภท,จำนวน,ผู้ทำรายการ,หมายเหตุ\n".len());
}

// ───────────────────────────────────── screens ─────────────────────────────────────

#[test]
fn the_theme_is_remembered_in_the_settings() {
    let mut db = Stock::new();
    assert_eq!(saved_theme(&db), Theme::Light);
    let t = switch_theme(&mut db, Theme::Light);
    assert_eq!(t, Theme::Dark);
    assert_eq!(get_setting(&db, "theme"), Some("dark".to_string()));
    assert_eq!(saved_theme(&db), Theme::Dark);
    assert_eq!(switch_theme(&mut db, t), Theme::Light);
    assert_eq!(saved_theme(&db), Theme::Light);
    set_setting(&mut db, "theme", "purple");
    assert_eq!(saved_theme(&db), Theme::Light);
}

#[test]
fn quick_add_trims_names_and_clears_the_field_once_added() {
    let mut db = Stock::new();
    let mut q = QuickAdd::default();
    q.new_user = "   ".to_string();
    assert!(q.submit_user(&mut db).is_none());
    assert_eq!(q.new_user, "   ");
    q.new_user = " ปู่ ".to_string();
    assert!(matches!(q.submit_user(&mut db), Some(Ok(1))));
    assert_eq!(q.new_user, "");
    assert_eq!(db.users[0].name, "ปู่");
    q.new_user = "ปู่".to_string();
    assert!(matches!(q.submit_user(&mut db), Some(Err(StockError::DuplicateName))));
    assert_eq!(q.new_user, "ปู่");
    q.new_category = " ขนม ".to_string();
    assert!(matches!(q.submit_category(&mut db), Some(Ok(1))));
    q.new_location = "ห้องครัว".to_string();
    assert!(matches!(q.submit_location(&mut db), Some(Ok(1))));
    assert_eq!(db.categories[0].name, "ขนม");
    assert_eq!(db.locations[0].name, "ห้องครัว");
}

#[test]
fn scanning_a_barcode_selects_its_item() {
    let mut db = Stock::new();
    let id = add_item(&mut db, &with_barcode("ถ่าน", "12345")).unwrap();
    let mut f = CheckInOutForm::default();
    assert!(matches!(f.lookup_barcode(&db), Lookup::Blank));
    f.barcode_input = " 99 ".to_string();
    match f.lookup_barcode(&db) {
        Lookup::NotFound(code) => assert_eq!(code, "99"),
        _ => panic!("expected no item"),
    }
    assert_eq!(f.barcode_input, " 99 ");
    f.barcode_input = "12345\n".to_string();
    match f.lookup_barcode(&db) {
        Lookup::Found(it) => assert_eq!(it.id, id),
        _ => panic!("expected the item"),
    }
    assert_eq!(f.selected_item, Some(id));
    assert_eq!(f.barcode_input, "");
}

#[test]
fn the_movement_form_records_and_resets() {
    let mut db = Stock::new();
    let id = add_item(&mut db, &input("ผงซักฟอก", 2, 0)).unwrap();
    let mut f = CheckInOutForm::default();
    assert!(matches!(
        f.submit(&mut db, TxType::In, None),
        Err(SubmitError::NoItemSelected)
    ));
    f.selected_item = Some(id);
    f.qty = 5;
    f.note = "  ซื้อ  ".to_string();
    assert!(matches!(
        f.submit(&mut db, TxType::Out, None),
        Err(SubmitError::Refused(StockError::InsufficientStock(2)))
    ));
    assert_eq!(f.qty, 5);
    assert!(f.submit(&mut db, TxType::In, None).is_ok());
    assert_eq!(db.items[0].quantity, 7);
    assert_eq!(db.movements[0].note, "ซื้อ");
    assert_eq!(f.qty, 1);
    assert_eq!(f.note, "");
    assert_eq!(f.selected_item, Some(id));
}

#[test]
fn the_new_item_form_offers_a_free_barcode() {
    let mut db = Stock::new();
    assert_eq!(ItemForm::for_new_in(&db).barcode, "10000");
    add_item(&mut db, &with_barcode("ก", "10000")).unwrap();
    let f = ItemForm::for_new_in(&db);
    assert_eq!(f.barcode, "10001");
    assert_eq!(f.unit, "ชิ้น");
    assert!(f.open);
}

#[test]
fn saving_the_item_form_adds_then_updates() {
    let mut db = Stock::new();
    let mut f = ItemForm::for_new_in(&db);
    assert!(matches!(f.save(&mut db), Err(SaveError::Form(FormError::NameRequired))));
    assert!(f.open);
    f.name = "ไข่ไก่".to_string();
    f.quantity = 10;
    assert!(matches!(f.save(&mut db), Ok(Saved::Added(1))));
    assert!(!f.open);
    assert_eq!(db.items[0].barcode.as_deref(), Some("10000"));

    let mut g = ItemForm::for_new_in(&db);
    g.name = "ไข่เป็ด".to_string();
    g.barcode = "10000".to_string();
    assert!(matches!(
        g.save(&mut db),
        Err(SaveError::Refused(StockError::BarcodeTaken))
    ));
    assert!(g.open);

    let mut e = ItemForm::for_item(&db.items[0]);
    e.quantity = 12;
    assert!(matches!(e.save(&mut db), Ok(Saved::Updated)));
    assert_eq!(db.items[0].quantity, 12);
    assert!(!e.open);
}

#[test]
fn normalizing_a_barcode_twice_changes_nothing_more() {
    for b in [Some(" 12 34 ".to_string()), Some("\u{3000}".to_string()), Some("x".to_string()), None] {
        let once = normalize_barcode(&b);
        assert_eq!(normalize_barcode(&once), once);
    }
}

#[test]
fn expiry_alerts_with_equal_days_keep_the_given_order() {
    let items = vec![
        item(5, "ข", 1, 0, Some("2024-01-20")),
        item(2, "ก", 1, 0, Some("2024-01-20")),
        item(9, "ค", 1, 0, Some("2024-01-10")),
    ];
    let alerts = expiry_alerts_from(&items, JAN_1_2024, 30);
    let ids: Vec<i64> = alerts.iter().map(|a| a.item.id).collect();
    assert_eq!(ids, vec![9, 5, 2]);
}

#[test]
fn the_item_table_marks_low_stock_and_near_expiry() {
    assert!(low_on_stock(&item(1, "ก", 2, 2, None)));
    assert!(!low_on_stock(&item(1, "ก", 3, 2, None)));
    assert!(matches!(expiry_mark(Some(-1)), ExpiryMark::Expired));
    assert!(matches!(expiry_mark(Some(0)), ExpiryMark::Soon(0)));
    assert!(matches!(expiry_mark(Some(30)), ExpiryMark::Soon(30)));
    assert!(matches!(expiry_mark(Some(31)), ExpiryMark::Plain));
    assert!(matches!(expiry_mark(None), ExpiryMark::Plain));
}

#[test]
fn time_stamps_have_the_fixed_shape() {
    let mut db = Stock::new();
    let id = add_item(&mut db, &input("ก", 1, 0)).unwrap();
    check_in(&mut db, id, None, 1, "").unwrap();
    for s in [&db.items[0].created_at, &db.movements[0].timestamp] {
        let c: Vec<char> = s.chars().collect();
        assert_eq!(c.len(), 19);
        for (i, ch) in c.iter().enumerate() {
            match i {
                4 | 7 => assert_eq!(*ch, '-'),
                10 => assert_eq!(*ch, ' '),
                13 | 16 => assert_eq!(*ch, ':'),
                _ => assert!(ch.is_ascii_digit()),
            }
        }
    }
}
