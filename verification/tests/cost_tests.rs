use woodforge::cost::{hardware_needs, PriceDatabase};

fn price(db: &PriceDatabase, id: &str) -> f64 {
    f64::from_bits(db.get_price(id).unwrap().price_per_bf)
}

#[test]
fn test_default_prices() {
    let db = PriceDatabase::new();
    let all = db.all_prices();
    assert_eq!(all.len(), 12);

    assert!(db.get_price("pine").is_some());
    assert!(db.get_price("black_walnut").is_some());
    assert!(db.get_price("mahogany").is_some());
    assert!((price(&db, "pine") - 3.50).abs() < 0.001);
}

#[test]
fn test_user_override() {
    let mut db = PriceDatabase::new();
    db.set_price("pine", 5.00f64.to_bits());

    let pine = db.get_price("pine").unwrap();
    assert!((f64::from_bits(pine.price_per_bf) - 5.00).abs() < 0.001);
    assert!(pine.is_user_edited);
}

#[test]
fn test_reset_price() {
    let mut db = PriceDatabase::new();
    db.set_price("pine", 99.99f64.to_bits());
    assert!((price(&db, "pine") - 99.99).abs() < 0.001);

    db.reset_price("pine");
    let pine = db.get_price("pine").unwrap();
    assert!((f64::from_bits(pine.price_per_bf) - 3.50).abs() < 0.001);
    assert!(!pine.is_user_edited);
}

#[test]
fn test_hardware_pocket_hole() {
    let joints = vec![("PocketHole".to_string(), "Pocket Hole".to_string(), 4u32)];
    let hardware = hardware_needs(&joints);

    assert_eq!(hardware.len(), 1);
    assert_eq!(hardware[0].quantity, 8); // 4 joints * 2 screws each
    let unit_price = f64::from_bits(hardware[0].unit_price);
    assert!((unit_price - 0.15).abs() < 0.001);
    assert!((hardware[0].quantity as f64 * unit_price - 1.20).abs() < 0.001); // 8 * 0.15
}

#[test]
fn unknown_species_gets_its_id_as_name() {
    let mut db = PriceDatabase::new();
    assert!(db.get_price("teak").is_none());
    db.set_price("teak", 20.0f64.to_bits());
    let teak = db.get_price("teak").unwrap();
    assert_eq!(teak.species_name, "teak");
    assert!(teak.is_user_edited);
    assert_eq!(db.all_prices().len(), 13);
    // Not a stock species: a reset leaves the user's price.
    db.reset_price("teak");
    assert!((price(&db, "teak") - 20.0).abs() < 0.001);
}

#[test]
fn edited_stock_species_keeps_its_name() {
    let mut db = PriceDatabase::new();
    db.set_price("red_oak", 9.0f64.to_bits());
    let oak = db.get_price("red_oak").unwrap();
    assert_eq!(oak.species_name, "Red Oak");
    assert_eq!(db.all_prices().len(), 12);
    assert!((price(&db, "pine") - 3.50).abs() < 0.001);
}

#[test]
fn hardware_lines_per_joint_kind() {
    let joints = vec![
        ("DowelJoint".to_string(), "Dowel Joint".to_string(), 2u32),
        ("ButtJoint".to_string(), "Butt Joint".to_string(), 5u32),
        ("BiscuitJoint".to_string(), "Biscuit".to_string(), 3u32),
    ];
    let hardware = hardware_needs(&joints);
    assert_eq!(hardware.len(), 2);
    assert_eq!(hardware[0].item, "Dowel pins (for Dowel Joint joints)");
    assert_eq!(hardware[0].quantity, 4);
    assert_eq!(f64::from_bits(hardware[0].unit_price), 0.25);
    assert_eq!(hardware[1].item, "Biscuits (for Biscuit joints)");
    assert_eq!(hardware[1].quantity, 3);
    assert_eq!(f64::from_bits(hardware[1].unit_price), 0.10);
}
