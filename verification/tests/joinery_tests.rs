use woodforge::joinery::{JointDifficulty, JointType, ALL_JOINT_TYPES};

#[test]
fn test_all_types_have_names() {
    for jt in &ALL_JOINT_TYPES {
        let name = jt.display_name();
        assert!(!name.is_empty(), "{:?} has empty display_name", jt);
    }
    assert_eq!(ALL_JOINT_TYPES.len(), 16);
}

#[test]
fn test_difficulty_levels() {
    assert_eq!(JointType::ButtJoint.difficulty(), JointDifficulty::Beginner);
    assert_eq!(JointType::PocketHole.difficulty(), JointDifficulty::Beginner);
    assert_eq!(JointType::Dado.difficulty(), JointDifficulty::Intermediate);
    assert_eq!(JointType::DovetailThrough.difficulty(), JointDifficulty::Advanced);
    assert_eq!(JointType::MortiseAndTenon.difficulty(), JointDifficulty::Advanced);
}

#[test]
fn test_base_strength_range() {
    for jt in &ALL_JOINT_TYPES {
        let strength = jt.base_strength();
        assert!(strength <= 100, "{:?} strength {} > 100", jt, strength);
        assert!(strength > 0, "{:?} strength is 0", jt);
    }
}

#[test]
fn test_all_types_have_descriptions() {
    for jt in &ALL_JOINT_TYPES {
        assert!(!jt.description().is_empty());
        assert!(!jt.tools_needed().is_empty());
    }
}

use woodforge::ids::NodeId;
use woodforge::joinery::{parse_face, parse_joint_type, Joint, JointFace, JointParams, JointStore};

#[test]
fn test_joint_store_crud() {
    let mut store = JointStore::new();
    assert_eq!(store.all_joints().len(), 0);

    let board_a = NodeId::new();
    let board_b = NodeId::new();
    let joint_id = NodeId::new();

    let joint = Joint {
        id: joint_id,
        joint_type: JointType::ButtJoint,
        board_a,
        board_b,
        face_a: JointFace::Right,
        face_b: JointFace::Left,
        offset: [0, 0, 0],
        parameters: JointParams::Butt,
    };

    store.add_joint(joint);
    assert_eq!(store.all_joints().len(), 1);
    assert!(store.get_joint(joint_id).is_some());
    assert_eq!(store.joints_for_board(board_a).len(), 1);
    assert_eq!(store.joints_for_board(board_b).len(), 1);
    assert_eq!(store.joints_for_board(NodeId::new()).len(), 0);

    store.remove_joint(joint_id);
    assert_eq!(store.all_joints().len(), 0);
    assert!(store.get_joint(joint_id).is_none());
}

#[test]
fn test_joinery_workflow() {
    let mut store = JointStore::new();
    let board_a = NodeId::new();
    let board_b = NodeId::new();
    let joint_id = NodeId::new();

    let joint = Joint {
        id: joint_id,
        joint_type: JointType::MortiseAndTenon,
        board_a,
        board_b,
        face_a: JointFace::Right,
        face_b: JointFace::Left,
        offset: [0, 0, 0],
        parameters: JointParams::MortiseAndTenon {
            tenon_width: 1.0f64.to_bits(),
            tenon_height: 1.0f64.to_bits(),
            tenon_depth: 2.0f64.to_bits(),
        },
    };

    store.add_joint(joint);

    let joints_a = store.joints_for_board(board_a);
    assert_eq!(joints_a.len(), 1, "Board A should have 1 joint");
    assert_eq!(joints_a[0].id, joint_id);
    assert_eq!(joints_a[0].joint_type, JointType::MortiseAndTenon);

    let joints_b = store.joints_for_board(board_b);
    assert_eq!(joints_b.len(), 1, "Board B should have 1 joint");

    let joints_c = store.joints_for_board(NodeId::new());
    assert_eq!(joints_c.len(), 0, "Unrelated board should have 0 joints");

    store.remove_joint(joint_id);

    assert_eq!(store.joints_for_board(board_a).len(), 0);
    assert_eq!(store.joints_for_board(board_b).len(), 0);
    assert_eq!(store.all_joints().len(), 0, "Store should be empty");
}

#[test]
fn parse_joint_type_names() {
    assert_eq!(parse_joint_type("dado"), Some(JointType::Dado));
    assert_eq!(parse_joint_type("mortise_tenon"), Some(JointType::MortiseAndTenon));
    assert_eq!(parse_joint_type("bridle"), Some(JointType::BridleJoint));
    assert_eq!(parse_joint_type("Dado"), None);
    assert_eq!(parse_joint_type(""), None);
}

#[test]
fn parse_face_names() {
    assert_eq!(parse_face("front"), Some(JointFace::Front));
    assert_eq!(parse_face("left"), Some(JointFace::Left));
    assert_eq!(parse_face("side"), None);
}

#[test]
fn joint_catalogue_values() {
    assert_eq!(JointType::ButtJoint.base_strength(), 15);
    assert_eq!(JointType::MortiseAndTenon.base_strength(), 85);
    assert_eq!(JointType::DovetailThrough.base_strength(), 90);
    assert!(JointType::Dado.has_geometry());
    assert!(JointType::MortiseAndTenon.has_geometry());
    assert!(!JointType::DovetailThrough.has_geometry());
    assert!(!JointType::BiscuitJoint.has_geometry());
    assert!(!JointType::ButtJoint.has_geometry());
}

#[test]
fn removing_a_joint_keeps_the_others_in_order() {
    let mut store = JointStore::new();
    let a = NodeId::new();
    let b = NodeId::new();
    let ids: Vec<NodeId> = (0..3).map(|_| NodeId::new()).collect();
    for id in &ids {
        store.add_joint(Joint {
            id: *id,
            joint_type: JointType::Dado,
            board_a: a,
            board_b: b,
            face_a: JointFace::Top,
            face_b: JointFace::Bottom,
            offset: [0, 0, 0],
            parameters: JointParams::Generic,
        });
    }
    store.remove_joint(ids[1]);
    let left: Vec<NodeId> = store.all_joints().iter().map(|j| j.id).collect();
    assert_eq!(left, vec![ids[0], ids[2]]);
}
