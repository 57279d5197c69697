use woodforge::species::{species_index_by_id, species_index_by_name};
use woodforge::ids::NodeId;
use woodforge::structural::{adjusted_joint_strength, joint_recommendation, joint_strength_status, LoadStatus};
use woodforge::units::{parse_unit_system, simplify_fraction, unit_system_key, UnitSystem};
use woodforge::finish::{parse_sheen, Sheen};
use woodforge::structural::joint_key_strength;
use woodforge::lumber::{LumberCatalog, LumberCategory, LumberSize};

#[test]
fn node_id_text_roundtrip() {
    let id = NodeId::new();
    let text = id.to_string();
    assert_eq!(text.len(), 36);
    assert_eq!(&text[14..15], "4");
    let back = NodeId::from_str(&text).unwrap();
    assert_eq!(back, id);
    assert!(NodeId::from_str("not a uuid").is_err());
}

#[test]
fn node_id_known_text() {
    let id = NodeId(0x0123_4567_89ab_4def_8123_4567_89ab_cdef);
    assert_eq!(id.to_string(), "01234567-89ab-4def-8123-456789abcdef");
}

#[test]
fn fractions_lose_common_twos() {
    assert_eq!(simplify_fraction(4, 8), (1, 2));
    assert_eq!(simplify_fraction(6, 16), (3, 8));
    assert_eq!(simplify_fraction(3, 4), (3, 4));
    assert_eq!(simplify_fraction(0, 16), (0, 1));
    assert_eq!(simplify_fraction(-8, 4), (-2, 1));
}

#[test]
fn unit_system_default_is_imperial() {
    assert_eq!(UnitSystem::default(), UnitSystem::Imperial);
}

#[test]
fn joint_strength_ratings() {
    assert_eq!(adjusted_joint_strength(130), 100);
    assert_eq!(adjusted_joint_strength(64), 64);
    assert_eq!(joint_strength_status(70), LoadStatus::Green);
    assert_eq!(joint_strength_status(69), LoadStatus::Yellow);
    assert_eq!(joint_strength_status(45), LoadStatus::Yellow);
    assert_eq!(joint_strength_status(44), LoadStatus::Red);
    assert_eq!(joint_recommendation(LoadStatus::Green), "Joint is adequate for this species.");
}

#[test]
fn unit_system_keys_round_trip() {
    assert_eq!(parse_unit_system("metric"), UnitSystem::Metric);
    assert_eq!(parse_unit_system("imperial"), UnitSystem::Imperial);
    assert_eq!(parse_unit_system("furlongs"), UnitSystem::Imperial);
    assert_eq!(unit_system_key(UnitSystem::Metric), "metric");
    assert_eq!(unit_system_key(UnitSystem::Imperial), "imperial");
    assert_eq!(parse_unit_system(&unit_system_key(UnitSystem::Metric)), UnitSystem::Metric);
}

#[test]
fn sheen_keys() {
    assert_eq!(parse_sheen("matte"), Sheen::Matte);
    assert_eq!(parse_sheen("satin"), Sheen::Satin);
    assert_eq!(parse_sheen("semi-gloss"), Sheen::SemiGloss);
    assert_eq!(parse_sheen("gloss"), Sheen::Gloss);
    assert_eq!(parse_sheen("shiny"), Sheen::Satin);
}

#[test]
fn joint_key_strengths() {
    assert_eq!(joint_key_strength("butt"), 15);
    assert_eq!(joint_key_strength("mortise_tenon"), 85);
    assert_eq!(joint_key_strength("dovetail_through"), 90);
    assert_eq!(joint_key_strength("bridle"), 65);
    assert_eq!(joint_key_strength("unknown"), 30);
}

#[test]
fn lumber_lookup_by_label_and_category() {
    let catalog = LumberCatalog {
        sizes: vec![
            size("2x4", LumberCategory::Dimensional),
            size("1x6", LumberCategory::Board),
            size("2x6", LumberCategory::Dimensional),
        ],
        sheets: Vec::new(),
        standard_lengths: Vec::new(),
    };
    let found = catalog.find_by_label("1x6").unwrap();
    assert_eq!(found.category, LumberCategory::Board);
    assert!(catalog.find_by_label("4x4").is_none());
    let dims = catalog.sizes_by_category(LumberCategory::Dimensional);
    let labels: Vec<&str> = dims.iter().map(|s| s.nominal_label.as_str()).collect();
    assert_eq!(labels, vec!["2x4", "2x6"]);
    assert!(catalog.sizes_by_category(LumberCategory::Sheet).is_empty());
}

fn size(label: &str, cat: LumberCategory) -> LumberSize {
    LumberSize {
        nominal_label: label.to_string(),
        category: cat,
        actual_width: 1.5f64.to_bits(),
        actual_height: 3.5f64.to_bits(),
    }
}

#[test]
fn test_catalog_sizes() {
    let catalog = LumberCatalog::new();
    assert_eq!(catalog.sizes.len(), 17);
    assert_eq!(catalog.sheets.len(), 3);
    assert_eq!(catalog.standard_lengths.len(), 4);
}

#[test]
fn test_find_by_label() {
    let catalog = LumberCatalog::new();
    let two_by_four = catalog.find_by_label("2x4").unwrap();
    assert_eq!(f64::from_bits(two_by_four.actual_width), 1.5);
    assert_eq!(f64::from_bits(two_by_four.actual_height), 3.5);
    assert_eq!(two_by_four.category, LumberCategory::Dimensional);

    let one_by_six = catalog.find_by_label("1x6").unwrap();
    assert_eq!(f64::from_bits(one_by_six.actual_width), 0.75);
    assert_eq!(f64::from_bits(one_by_six.actual_height), 5.5);
    assert_eq!(one_by_six.category, LumberCategory::Board);

    assert!(catalog.find_by_label("3x3").is_none());
}

#[test]
fn test_category_filter() {
    let catalog = LumberCatalog::new();
    let boards = catalog.sizes_by_category(LumberCategory::Board);
    assert_eq!(boards.len(), 7); // 1x2 through 1x12
    let dimensional = catalog.sizes_by_category(LumberCategory::Dimensional);
    assert_eq!(dimensional.len(), 10); // 2x2 through 6x6
}

#[test]
fn test_standard_lengths() {
    let catalog = LumberCatalog::new();
    let lengths: Vec<f64> = catalog.standard_lengths.iter().map(|b| f64::from_bits(*b)).collect();
    assert_eq!(lengths, vec![96.0, 120.0, 144.0, 192.0]);
}

#[test]
fn catalog_sheets_are_plywood() {
    let catalog = LumberCatalog::new();
    assert_eq!(catalog.sheets[0].label, "1/4\" Plywood");
    assert_eq!(f64::from_bits(catalog.sheets[2].thickness), 0.75);
    assert_eq!(f64::from_bits(catalog.sheets[1].width), 48.0);
    assert_eq!(f64::from_bits(catalog.sheets[1].height), 96.0);
}

#[test]
fn species_lookup_by_id_and_name() {
    let ids = ["pine_sy", "red_oak", "black_walnut", "cherry"];
    let names = ["Pine (Southern Yellow)", "Red Oak", "Black Walnut", "Cherry"];
    assert_eq!(species_index_by_id(&ids, "pine_sy"), Some(0));
    assert_eq!(species_index_by_id(&ids, "black_walnut"), Some(2));
    assert_eq!(species_index_by_id(&ids, "nonexistent"), None);
    assert_eq!(species_index_by_name(&names, "red oak"), Some(1));
    assert_eq!(species_index_by_name(&names, "RED OAK"), Some(1));
    assert_eq!(species_index_by_name(&names, "Cherry"), Some(3));
    assert_eq!(species_index_by_name(&names, "cherry"), Some(3));
    assert_eq!(species_index_by_name(&names, "Spruce"), None);
}
