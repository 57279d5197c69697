use woodforge::output::{find_connected_components, group_letter, JointInfo};

#[test]
fn test_group_letter() {
    assert_eq!(group_letter(0), "A");
    assert_eq!(group_letter(1), "B");
    assert_eq!(group_letter(25), "Z");
    assert_eq!(group_letter(26), "AA");
    assert_eq!(group_letter(27), "AB");
}

#[test]
fn test_connected_components() {
    let joints = vec![
        JointInfo {
            joint_type: "ButtJoint".into(),
            board_a_id: "a".into(),
            board_b_id: "b".into(),
            description: "".into(),
        },
        JointInfo {
            joint_type: "ButtJoint".into(),
            board_a_id: "c".into(),
            board_b_id: "d".into(),
            description: "".into(),
        },
    ];
    let joint_refs: Vec<&JointInfo> = joints.iter().collect();
    let boards = vec!["a", "b", "c", "d", "e"];
    let components = find_connected_components(&boards, &joint_refs);

    // Should be 3 components: {a,b}, {c,d}, {e}
    assert_eq!(components.len(), 3);
}

use woodforge::instructions::generate_build_instructions;
use woodforge::materials::material_groups;
use woodforge::output::{generate_cut_list, is_joinery_prep_joint, tools_for_joint, BoardInfo, BuildPhase, CutListInput};

fn make_board(id: &str, label: &str, material: &str, w: f64, h: f64, d: f64) -> BoardInfo {
    BoardInfo {
        node_id: id.into(),
        label: label.into(),
        width: w.to_bits(),
        height: h.to_bits(),
        depth: d.to_bits(),
        material: material.into(),
        grain_direction: "AlongLength".into(),
    }
}

fn make_joint(jtype: &str, a: &str, b: &str, desc: &str) -> JointInfo {
    JointInfo {
        joint_type: jtype.into(),
        board_a_id: a.into(),
        board_b_id: b.into(),
        description: desc.into(),
    }
}

fn thousandths(v: f64) -> i64 {
    (v * 1000.0).round() as i64
}

fn sizes_of(input: &CutListInput) -> Vec<(i64, i64, i64)> {
    input
        .boards
        .iter()
        .map(|b| {
            (
                thousandths(f64::from_bits(b.width)),
                thousandths(f64::from_bits(b.height)),
                thousandths(f64::from_bits(b.depth)),
            )
        })
        .collect()
}

fn dims_of(input: &CutListInput) -> Vec<String> {
    input
        .boards
        .iter()
        .map(|b| {
            format!(
                "{}\" x {}\" x {}\"",
                f64::from_bits(b.height),
                f64::from_bits(b.width),
                f64::from_bits(b.depth)
            )
        })
        .collect()
}

fn phase_order_value(p: &BuildPhase) -> u8 {
    match p {
        BuildPhase::Preparation => 0,
        BuildPhase::Cutting => 1,
        BuildPhase::JoineryPrep => 2,
        BuildPhase::SubAssembly => 3,
        BuildPhase::FinalAssembly => 4,
        BuildPhase::Finishing => 5,
    }
}

#[test]
fn test_cut_list_grouping() {
    let input = CutListInput {
        boards: vec![
            make_board("n1", "Side", "Oak", 3.5, 0.75, 24.0),
            make_board("n2", "Side", "Oak", 3.5, 0.75, 24.0),
            make_board("n3", "Side", "Oak", 3.5, 0.75, 24.0),
        ],
        joints: vec![],
    };

    let cut_list = generate_cut_list(&input, &sizes_of(&input));
    assert_eq!(cut_list.entries.len(), 1, "3 identical boards should group into 1 entry");
    assert_eq!(cut_list.entries[0].quantity, 3);
    assert_eq!(cut_list.total_pieces, 3);
    assert_eq!(cut_list.entries[0].piece_id, "A1-A3");
}

#[test]
fn test_instructions_order() {
    let input = CutListInput {
        boards: vec![
            make_board("n1", "Top", "Maple", 11.25, 0.75, 48.0),
            make_board("n2", "Leg", "Maple", 1.5, 1.5, 30.0),
        ],
        joints: vec![make_joint("MortiseAndTenon", "n1", "n2", "1\" x 1\" x 2\" deep mortise")],
    };

    let instructions = generate_build_instructions(&input, &sizes_of(&input), &dims_of(&input), true);

    assert!(instructions.total_steps >= 4, "Expected at least 4 steps");

    let phases: Vec<BuildPhase> = instructions.steps.iter().map(|s| s.phase).collect();
    for window in phases.windows(2) {
        assert!(
            phase_order_value(&window[0]) <= phase_order_value(&window[1]),
            "Phases out of order: {:?} should come before {:?}",
            window[0],
            window[1],
        );
    }
    assert_eq!(phases.last(), Some(&BuildPhase::Finishing));
}

#[test]
fn test_empty_project() {
    let input = CutListInput { boards: vec![], joints: vec![] };

    let cut_list = generate_cut_list(&input, &sizes_of(&input));
    assert_eq!(cut_list.entries.len(), 0);
    assert_eq!(cut_list.total_pieces, 0);

    let instructions = generate_build_instructions(&input, &sizes_of(&input), &dims_of(&input), false);
    assert_eq!(instructions.steps.len(), 0);
    assert_eq!(instructions.total_steps, 0);
}

#[test]
fn test_multiple_materials_cut_list() {
    let input = CutListInput {
        boards: vec![
            make_board("n1", "Side", "Oak", 3.5, 0.75, 24.0),
            make_board("n2", "Top", "Maple", 11.25, 0.75, 48.0),
            make_board("n3", "Side", "Oak", 3.5, 0.75, 24.0),
        ],
        joints: vec![],
    };

    let cut_list = generate_cut_list(&input, &sizes_of(&input));
    assert_eq!(cut_list.entries.len(), 2, "Should have 2 groups (Oak + Maple)");
    assert_eq!(cut_list.total_pieces, 3);
}

#[test]
fn test_joint_notes_in_cut_list() {
    let input = CutListInput {
        boards: vec![
            make_board("n1", "Side", "Oak", 3.5, 0.75, 24.0),
            make_board("n2", "Shelf", "Oak", 3.5, 0.75, 20.0),
        ],
        joints: vec![make_joint("Dado", "n1", "n2", "3/4\" wide x 3/8\" deep")],
    };

    let cut_list = generate_cut_list(&input, &sizes_of(&input));
    let all_notes: Vec<&String> = cut_list.entries.iter().flat_map(|e| e.joint_notes.iter()).collect();
    assert!(!all_notes.is_empty(), "Joint notes should be populated");
}

#[test]
fn test_cut_list_and_optimization() {
    let input = CutListInput {
        boards: vec![
            make_board("n1", "Side A", "Pine", 3.5, 0.75, 24.0),
            make_board("n2", "Side B", "Pine", 3.5, 0.75, 36.0),
            make_board("n3", "Top", "Pine", 5.5, 0.75, 48.0),
        ],
        joints: vec![],
    };
    let cut_list = generate_cut_list(&input, &sizes_of(&input));
    assert!(!cut_list.entries.is_empty(), "Cut list should have entries for 3 boards");
    assert!(cut_list.total_pieces >= 3, "Should have at least 3 total pieces");
}

#[test]
fn cut_list_entries_are_exact() {
    let input = CutListInput {
        boards: vec![
            make_board("n1", "Side", "Oak", 3.5, 0.75, 24.0),
            make_board("n2", "Top", "Maple", 11.25, 0.75, 48.0),
            make_board("n3", "Side", "Oak", 3.5, 0.75, 24.0),
        ],
        joints: vec![make_joint("Dado", "n1", "n2", "3/4 wide"), make_joint("Butt", "n3", "n1", "glued")],
    };
    let cl = generate_cut_list(&input, &sizes_of(&input));
    assert_eq!(cl.entries.len(), 2);
    assert_eq!(cl.entries[0].piece_id, "A1-A2");
    assert_eq!(cl.entries[0].material, "Oak");
    assert_eq!(cl.entries[0].node_ids, vec!["n1".to_string(), "n3".to_string()]);
    assert_eq!(cl.entries[0].length, 24.0f64.to_bits());
    assert_eq!(cl.entries[0].thickness, 0.75f64.to_bits());
    assert_eq!(
        cl.entries[0].joint_notes,
        vec![
            "A1: Butt: glued".to_string(),
            "A1: Dado: 3/4 wide".to_string(),
            "A2: Butt: glued".to_string(),
        ]
    );
    assert_eq!(cl.entries[1].piece_id, "B1");
    assert_eq!(cl.entries[1].joint_notes, vec!["B1: Dado: 3/4 wide".to_string()]);
    assert_eq!(cl.total_pieces, 3);
    assert_eq!(cl.total_cuts, 3);
}

#[test]
fn instructions_steps_are_exact() {
    let input = CutListInput {
        boards: vec![
            make_board("n1", "Top", "Maple", 11.25, 0.75, 48.0),
            make_board("n2", "Leg", "Oak", 1.5, 1.5, 30.0),
            make_board("n3", "Shelf", "Maple", 11.25, 0.75, 48.0),
            make_board("n4", "Foot", "Oak", 1.5, 1.5, 4.0),
        ],
        joints: vec![
            make_joint("Dado", "n1", "n3", "shelf dado"),
            make_joint("ButtJoint", "n2", "n4", "screwed"),
        ],
    };
    let dims: Vec<String> = vec!["A".into(), "B".into(), "C".into(), "D".into()];
    let plan = generate_build_instructions(&input, &sizes_of(&input), &dims, true);
    let phases: Vec<BuildPhase> = plan.steps.iter().map(|s| s.phase).collect();
    assert_eq!(
        phases,
        vec![
            BuildPhase::Preparation,
            BuildPhase::Cutting,
            BuildPhase::Cutting,
            BuildPhase::JoineryPrep,
            BuildPhase::SubAssembly,
            BuildPhase::SubAssembly,
            BuildPhase::FinalAssembly,
            BuildPhase::Finishing,
        ]
    );
    assert_eq!(plan.total_steps, 8);
    let numbers: Vec<u32> = plan.steps.iter().map(|s| s.step_number).collect();
    assert_eq!(numbers, vec![1, 2, 3, 4, 5, 6, 7, 8]);
    assert_eq!(plan.steps[0].pieces_involved, vec!["A1-A2".to_string(), "B1".to_string(), "C1".to_string()]);
    assert_eq!(plan.steps[1].description, "Cut Maple pieces:\nA1-A2: A (x2)");
    assert_eq!(plan.steps[2].description, "Cut Oak pieces:\nB1: B (x1)\nC1: D (x1)");
    assert_eq!(
        plan.steps[3].description,
        "Prepare Dado joint between \"Top\" and \"Shelf\": shelf dado"
    );
    assert_eq!(plan.steps[3].joint_type, Some("Dado".to_string()));
    assert_eq!(plan.steps[4].description, "Assemble sub-unit 1 (2 boards):\nDado (n1 + n3)");
    assert_eq!(plan.steps[5].description, "Assemble sub-unit 2 (2 boards):\nButtJoint (n2 + n4)");
    assert_eq!(plan.steps[6].description, "Join all 2 sub-assemblies together.");
    assert_eq!(
        plan.estimated_phases,
        vec![
            (BuildPhase::Preparation, 1),
            (BuildPhase::Cutting, 2),
            (BuildPhase::JoineryPrep, 1),
            (BuildPhase::SubAssembly, 2),
            (BuildPhase::FinalAssembly, 1),
            (BuildPhase::Finishing, 1),
        ]
    );
}

#[test]
fn single_unit_gets_one_assembly_step() {
    let input = CutListInput {
        boards: vec![make_board("n1", "Top", "Maple", 11.25, 0.75, 48.0), make_board("n2", "Leg", "Maple", 1.5, 1.5, 30.0)],
        joints: vec![make_joint("PocketHole", "n1", "n2", "two screws")],
    };
    let plan = generate_build_instructions(&input, &sizes_of(&input), &dims_of(&input), false);
    let last = plan.steps.last().unwrap();
    assert_eq!(last.phase, BuildPhase::FinalAssembly);
    assert_eq!(last.description, "Assemble all pieces:\nPocketHole (n1 + n2)");
    assert_eq!(last.pieces_involved, vec!["n1".to_string(), "n2".to_string()]);
}

#[test]
fn components_are_listed_smallest_first() {
    let joints = vec![make_joint("Butt", "a", "b", ""), make_joint("Butt", "b", "c", "")];
    let refs: Vec<&JointInfo> = joints.iter().collect();
    let boards = vec!["a", "b", "c", "d"];
    let groups = find_connected_components(&boards, &refs);
    assert_eq!(groups, vec![vec!["d"], vec!["a", "b", "c"]]);
}

#[test]
fn prep_joint_detection_and_tools() {
    assert!(is_joinery_prep_joint("MortiseAndTenon"));
    assert!(is_joinery_prep_joint("SlidingDovetail"));
    assert!(!is_joinery_prep_joint("ButtJoint"));
    assert!(is_joinery_prep_joint("BridleJoint"));
    assert_eq!(tools_for_joint("Dado"), vec!["Router or table saw with dado blade".to_string()]);
    assert_eq!(tools_for_joint("ButtJoint"), vec!["Saw".to_string(), "Clamps".to_string()]);
    assert_eq!(BuildPhase::JoineryPrep.to_string(), "Joinery Prep");
}

#[test]
fn material_groups_sorted_with_pieces_by_quantity() {
    let input = CutListInput {
        boards: vec![
            make_board("1", "Shelf", "pine", 11.25, 0.75, 36.0),
            make_board("2", "Top", "oak", 24.0, 0.75, 48.0),
            make_board("3", "Side", "pine", 11.25, 0.75, 30.0),
            make_board("4", "Shelf", "pine", 11.25, 0.75, 30.0),
            make_board("5", "Leg", "oak", 1.5, 1.5, 29.0),
        ],
        joints: vec![],
    };
    let sizes = sizes_of(&input);
    let dims: Vec<String> = (0..input.boards.len()).map(|i| format!("size{}", i)).collect();
    let groups = material_groups(&input, &sizes, &dims);
    assert_eq!(groups.len(), 2);
    assert_eq!(groups[0].material, "oak");
    assert_eq!(groups[0].boards, vec![1, 4]);
    assert_eq!(groups[1].material, "pine");
    assert_eq!(groups[1].boards, vec![0, 2, 3]);

    // Oak: two sizes, one each, in order of first appearance.
    let oak = &groups[0].pieces;
    assert_eq!(oak.len(), 2);
    assert_eq!((oak[0].label.as_str(), oak[0].quantity, oak[0].dimensions.as_str()), ("Top", 1, "size1"));
    assert_eq!((oak[1].label.as_str(), oak[1].quantity, oak[1].dimensions.as_str()), ("Top", 1, "size4"));

    // Pine: the 30" pair first, then the single 36" board; labels are the
    // material's first board's.
    let pine = &groups[1].pieces;
    assert_eq!(pine.len(), 2);
    assert_eq!((pine[0].label.as_str(), pine[0].quantity, pine[0].dimensions.as_str()), ("Shelf", 2, "size2"));
    assert_eq!((pine[1].label.as_str(), pine[1].quantity, pine[1].dimensions.as_str()), ("Shelf", 1, "size0"));
}

#[test]
fn material_groups_of_nothing() {
    let input = CutListInput { boards: vec![], joints: vec![] };
    assert!(material_groups(&input, &Vec::new(), &Vec::new()).is_empty());
}
