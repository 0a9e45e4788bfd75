use tpv_store::database::Database;
use tpv_store::license::LicenseKey;
use tpv_store::models::{Category, Order, OrderItem, Product, Table, User};

fn product(id: i64, name: &str, price: i64, category: &str) -> Product {
    Product {
        id,
        name: name.to_string(),
        price,
        category: category.to_string(),
        brand: None,
        icon_type: None,
        selected_icon: None,
        uploaded_image: None,
        stock: None,
    }
}

fn category(id: i64, name: &str) -> Category {
    Category {
        id,
        name: name.to_string(),
        description: None,
        icon: None,
    }
}

fn table(id: i64, name: &str, available: bool, current_order_id: Option<i64>) -> Table {
    Table {
        id,
        name: name.to_string(),
        available,
        current_order_id,
    }
}

fn user(id: i64, name: &str, pin: &str, pinned: Option<Vec<i64>>) -> User {
    User {
        id,
        name: name.to_string(),
        profile_picture: None,
        pin: pin.to_string(),
        pinned_product_ids: pinned,
    }
}

fn coffee_order(id: i64, quantity: i32, total: i64) -> Order {
    Order {
        id,
        date: "2024-01-01T10:00:00".to_string(),
        total,
        change: 0,
        total_paid: total,
        item_count: 1,
        table_number: 0,
        payment_method: "cash".to_string(),
        ticket_path: None,
        status: "inProgress".to_string(),
        items: vec![OrderItem {
            id: 1,
            name: "Coffee".to_string(),
            price: 250,
            quantity,
            category: Some("Drinks".to_string()),
        }],
    }
}

#[test]
fn empty_store_lists_nothing() {
    let db = Database::new();
    assert!(db.get_products().is_empty());
    assert!(db.get_categories().is_empty());
    assert!(db.get_orders().is_empty());
    assert!(db.get_tables().is_empty());
    assert!(db.get_users().is_empty());
    assert!(db.get_active_license().is_none());
}

#[test]
fn product_upsert_overwrites_whole_row() {
    let mut db = Database::new();
    let mut first = product(1, "Coffee", 250, "Drinks");
    first.brand = Some("HouseBlend".to_string());
    db.create_product(&first);
    let second = product(1, "Espresso", 300, "Drinks");
    db.create_product(&second);
    let listed = db.get_products();
    assert_eq!(listed.len(), 1);
    assert_eq!(listed[0], second);
    assert_eq!(listed[0].brand, None);
}

#[test]
fn update_product_is_a_full_row_write() {
    let mut db = Database::new();
    db.create_product(&product(7, "Tea", 180, "Drinks"));
    db.update_product(&product(7, "Green Tea", 200, "Drinks"));
    let listed = db.get_products();
    assert_eq!(listed.len(), 1);
    assert_eq!(listed[0].name, "Green Tea");
    assert_eq!(listed[0].price, 200);
}

#[test]
fn delete_missing_id_is_a_no_op() {
    let mut db = Database::new();
    db.create_product(&product(1, "Coffee", 250, "Drinks"));
    db.create_category(&category(2, "Drinks"));
    let before = db.export_data();
    db.delete_product(999);
    db.delete_category(999);
    db.delete_order(999);
    db.delete_table(999);
    db.delete_user(999);
    let after = db.export_data();
    assert_eq!(before, after);
}

#[test]
fn category_and_table_round_trip() {
    let mut db = Database::new();
    db.create_category(&category(1, "Drinks"));
    db.update_category(&category(1, "Beverages"));
    db.create_table(&table(4, "Window", false, Some(10)));
    db.update_table(&table(4, "Window", true, None));
    assert_eq!(db.get_categories(), vec![category(1, "Beverages")]);
    assert_eq!(db.get_tables(), vec![table(4, "Window", true, None)]);
    db.delete_category(1);
    db.delete_table(4);
    assert!(db.get_categories().is_empty());
    assert!(db.get_tables().is_empty());
}

#[test]
fn user_round_trip_keeps_pinned_ids() {
    let mut db = Database::new();
    db.create_user(&user(1, "Ana", "1234", Some(vec![3, 5])));
    db.create_user(&user(2, "Bob", "0000", None));
    let listed = db.get_users();
    assert_eq!(listed.len(), 2);
    assert_eq!(listed[0].pinned_product_ids, Some(vec![3, 5]));
    assert_eq!(listed[1].pinned_product_ids, None);
    db.update_user(&user(1, "Ana", "9999", None));
    let listed = db.get_users();
    assert_eq!(listed[0].pin, "9999");
    assert_eq!(listed[0].pinned_product_ids, None);
    db.delete_user(2);
    assert_eq!(db.get_users().len(), 1);
}

#[test]
fn order_aggregate_scenario() {
    let mut db = Database::new();
    db.create_product(&product(1, "Coffee", 250, "Drinks"));
    db.create_order(&coffee_order(10, 2, 500));
    let orders = db.get_orders();
    assert_eq!(orders.len(), 1);
    assert_eq!(orders[0].total, 500);
    assert_eq!(orders[0].items.len(), 1);
    assert_eq!(orders[0].items[0].quantity, 2);
    db.delete_order(10);
    let orders = db.get_orders();
    assert!(orders.iter().all(|o| o.id != 10));
    assert!(orders.is_empty());
}

#[test]
fn order_items_are_replaced_never_merged() {
    let mut db = Database::new();
    db.create_order(&coffee_order(10, 2, 500));
    let mut replacement = coffee_order(10, 1, 250);
    replacement.items.push(OrderItem {
        id: 2,
        name: "Croissant".to_string(),
        price: 150,
        quantity: 1,
        category: Some("Food".to_string()),
    });
    db.update_order(&replacement);
    let orders = db.get_orders();
    assert_eq!(orders.len(), 1);
    assert_eq!(orders[0].items, replacement.items);
}

#[test]
fn order_item_snapshot_survives_product_edits() {
    let mut db = Database::new();
    db.create_product(&product(1, "Coffee", 250, "Drinks"));
    db.create_order(&coffee_order(10, 2, 500));
    db.update_product(&product(1, "Coffee", 999, "Drinks"));
    let orders = db.get_orders();
    assert_eq!(orders[0].items[0].price, 250);
    assert_eq!(db.get_products()[0].price, 999);
}

#[test]
fn export_clear_import_restores_the_store() {
    let mut db = Database::new();
    db.create_product(&product(1, "Coffee", 250, "Drinks"));
    db.create_product(&product(2, "Tea", 180, "Drinks"));
    db.create_category(&category(1, "Drinks"));
    db.create_order(&coffee_order(10, 2, 500));
    db.create_table(&table(4, "Window", true, None));
    db.create_user(&user(1, "Ana", "1234", Some(vec![1])));
    let snapshot = db.export_data();
    db.clear_all_data();
    assert!(db.get_products().is_empty());
    assert!(db.get_orders().is_empty());
    db.import_data(&snapshot.clone().into_import_data());
    assert_eq!(db.export_data(), snapshot);
}

#[test]
fn clear_all_data_keeps_the_license() {
    let mut db = Database::new();
    db.create_product(&product(1, "Coffee", 250, "Drinks"));
    db.save_license(&LicenseKey {
        key_hash: "abc".to_string(),
        email: "a@b.com".to_string(),
        machine_fingerprint: "00:11".to_string(),
        activated_at: 0,
        expires_at: None,
        is_active: true,
        license_type: "pro".to_string(),
    });
    db.clear_all_data();
    assert!(db.get_products().is_empty());
    assert!(db.get_active_license().is_some());
}

#[test]
fn import_is_idempotent() {
    let mut db = Database::new();
    db.create_product(&product(3, "Juice", 300, "Drinks"));
    let mut source = Database::new();
    source.create_product(&product(1, "Coffee", 250, "Drinks"));
    source.create_product(&product(3, "Smoothie", 420, "Drinks"));
    source.create_category(&category(1, "Drinks"));
    source.create_order(&coffee_order(10, 2, 500));
    let snapshot = source.export_data().into_import_data();
    db.import_data(&snapshot);
    let once = db.export_data();
    db.import_data(&snapshot);
    let twice = db.export_data();
    assert_eq!(once, twice);
    assert_eq!(once.products.iter().find(|p| p.id == 3).unwrap().name, "Smoothie");
}

#[test]
fn import_skips_absent_optional_collections() {
    let mut db = Database::new();
    db.create_table(&table(4, "Window", true, None));
    db.create_user(&user(1, "Ana", "1234", None));
    let mut snapshot = {
        let mut source = Database::new();
        source.create_product(&product(1, "Coffee", 250, "Drinks"));
        source.export_data().into_import_data()
    };
    snapshot.tables = None;
    snapshot.users = None;
    db.import_data(&snapshot);
    assert_eq!(db.get_tables().len(), 1);
    assert_eq!(db.get_users().len(), 1);
    assert_eq!(db.get_products().len(), 1);
}

#[test]
fn save_and_clear_license_record() {
    let mut db = Database::new();
    let license = LicenseKey {
        key_hash: "h".to_string(),
        email: "a@b.com".to_string(),
        machine_fingerprint: "00:11".to_string(),
        activated_at: 5,
        expires_at: Some(10),
        is_active: true,
        license_type: "pro".to_string(),
    };
    db.save_license(&license);
    assert_eq!(db.get_active_license(), Some(license.clone()));
    let replacement = LicenseKey {
        email: "c@d.com".to_string(),
        ..license
    };
    db.save_license(&replacement);
    assert_eq!(db.get_active_license().unwrap().email, "c@d.com");
    db.clear_license();
    assert!(db.get_active_license().is_none());
}
