use woodforge::project::{
    days_to_ymd, is_leap, iso8601_from_unix, now_iso8601, Project, ProjectError, SavedBoard, SavedJoint,
    WarningSeverity, FORMAT_VERSION,
};
use woodforge::units::UnitSystem;

fn c(x: f64, y: f64, z: f64) -> [u64; 3] {
    [x.to_bits(), y.to_bits(), z.to_bits()]
}

fn board(id: &str, label: &str) -> SavedBoard {
    SavedBoard {
        id: id.to_string(),
        label: label.to_string(),
        position: c(0.0, 0.0, 0.0),
        rotation: c(0.0, 0.0, 0.0),
        dimensions: c(1.5, 3.5, 30.0),
        parent_id: None,
        lumber_type: "Standard:2x4".to_string(),
        species_id: None,
        finish_id: None,
        grain_direction: "AlongLength".to_string(),
    }
}

#[test]
fn test_new_project() {
    let project = Project::new("My Workbench".to_string());
    assert_eq!(project.name, "My Workbench");
    assert_eq!(project.format_version, FORMAT_VERSION);
    assert_eq!(project.unit_system, UnitSystem::Imperial);
    assert!(project.boards.is_empty());
    assert!(project.joints.is_empty());
    assert!(project.finishes.is_empty());
    assert!(project.camera.is_none());
    assert!(project.description.is_empty());
    assert!(!project.created_at.is_empty());
    assert!(!project.updated_at.is_empty());
}

#[test]
fn test_validate_missing_board_ref() {
    let mut project = Project::new("Validation Test".to_string());
    project.boards.push(board("board-a", "Left Leg"));
    project.joints.push(SavedJoint {
        id: "joint-1".to_string(),
        joint_type: "mortise_tenon".to_string(),
        board_a_id: "board-a".to_string(),
        board_b_id: "board-nonexistent".to_string(),
        face_a: "end".to_string(),
        face_b: "face".to_string(),
        offset: c(0.0, 0.0, 0.0),
        parameters: serde_json::Value::Object(serde_json::Map::new()),
    });

    let warnings = project.validate();
    assert!(!warnings.is_empty());
    assert!(warnings.iter().any(|w| w.message.contains("board-nonexistent")));
    assert!(warnings.iter().any(|w| w.severity == WarningSeverity::Error));
}

#[test]
fn test_unsupported_version() {
    let mut project = Project::new("Future Project".to_string());
    project.format_version = 999;
    project.created_at = "2026-01-01T00:00:00Z".to_string();
    project.updated_at = "2026-01-01T00:00:00Z".to_string();
    match Project::check_loaded(project) {
        Err(ProjectError::UnsupportedVersion(999)) => {}
        Err(other) => panic!("Expected UnsupportedVersion(999), got: {}", other.to_string()),
        Ok(_) => panic!("Expected an error"),
    }
}

#[test]
fn test_touch_updates_timestamp() {
    let mut project = Project::new("Touch Test".to_string());
    let original = project.updated_at.clone();
    project.touch();
    assert!(!project.updated_at.is_empty());
    assert!(project.updated_at.ends_with('Z'));
    assert_eq!(project.created_at, original);
}

#[test]
fn empty_name_is_a_missing_field() {
    let mut project = Project::new(String::new());
    project.name = String::new();
    match Project::check_loaded(project) {
        Err(ProjectError::MissingRequiredField(f)) => assert_eq!(f, "name"),
        _ => panic!("Expected MissingRequiredField"),
    }
}

#[test]
fn current_version_with_name_is_accepted() {
    let project = Project::new("Bench".to_string());
    match Project::check_loaded(project) {
        Ok(p) => assert_eq!(p.name, "Bench"),
        Err(e) => panic!("unexpected error {}", e.to_string()),
    }
}

#[test]
fn error_texts() {
    assert_eq!(ProjectError::UnsupportedVersion(999).to_string(), "Unsupported format version: 999 (max: 1)");
    assert_eq!(ProjectError::InvalidJson("eof".to_string()).to_string(), "Invalid JSON: eof");
    assert_eq!(
        ProjectError::MissingRequiredField("name".to_string()).to_string(),
        "Missing required field: name"
    );
}

#[test]
fn valid_project_has_no_findings() {
    let mut project = Project::new("Ok".to_string());
    project.boards.push(board("a", "A"));
    project.boards.push(board("b", "B"));
    project.joints.push(SavedJoint {
        id: "j".to_string(),
        joint_type: "dado".to_string(),
        board_a_id: "a".to_string(),
        board_b_id: "b".to_string(),
        face_a: "top".to_string(),
        face_b: "bottom".to_string(),
        offset: c(0.0, 0.0, 0.0),
        parameters: serde_json::Value::Null,
    });
    assert!(project.validate().is_empty());
}

#[test]
fn missing_parent_is_a_warning() {
    let mut project = Project::new("P".to_string());
    let mut b = board("a", "A");
    b.parent_id = Some("ghost".to_string());
    project.boards.push(b);
    let w = project.validate();
    assert_eq!(w.len(), 1);
    assert_eq!(w[0].severity, WarningSeverity::Warning);
    assert!(w[0].message.contains("ghost"));
}

#[test]
fn calendar_conversion() {
    assert_eq!(days_to_ymd(0), (1970, 1, 1));
    assert_eq!(days_to_ymd(59), (1970, 3, 1));
    assert_eq!(days_to_ymd(365), (1971, 1, 1));
    assert_eq!(days_to_ymd(789), (1972, 2, 29));
    assert_eq!(days_to_ymd(19723), (2024, 1, 1));
    assert!(is_leap(2000));
    assert!(!is_leap(1900));
    assert!(is_leap(2024));
    assert!(!is_leap(2023));
}

#[test]
fn iso_timestamps() {
    assert_eq!(iso8601_from_unix(0), "1970-01-01T00:00:00Z");
    assert_eq!(iso8601_from_unix(1_700_000_000), "2023-11-14T22:13:20Z");
    let now = now_iso8601();
    assert_eq!(now.len(), 20);
    assert!(now.ends_with('Z'));
}

#[test]
fn finding_messages_are_exact() {
    let mut project = Project::new("P".to_string());
    let mut b = board("a", "A");
    b.finish_id = Some("wax".to_string());
    project.boards.push(b);
    project.joints.push(SavedJoint {
        id: "j".to_string(),
        joint_type: "dado".to_string(),
        board_a_id: "x".to_string(),
        board_b_id: "a".to_string(),
        face_a: "top".to_string(),
        face_b: "bottom".to_string(),
        offset: c(0.0, 0.0, 0.0),
        parameters: serde_json::Value::Null,
    });
    let w = project.validate();
    assert_eq!(w.len(), 2);
    assert_eq!(w[0].message, "Joint 'j' references non-existent board_a 'x'");
    assert_eq!(w[0].severity, WarningSeverity::Error);
    assert_eq!(w[1].message, "Board 'a' references non-existent finish 'wax'");
    assert_eq!(w[1].severity, WarningSeverity::Warning);
}
