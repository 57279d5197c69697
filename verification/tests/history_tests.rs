use woodforge::history::{History, Operation};

fn c(x: f64, y: f64, z: f64) -> [u64; 3] {
    [x.to_bits(), y.to_bits(), z.to_bits()]
}

fn sample_add_board() -> Operation {
    Operation::AddBoard {
        node_id: "board-1".to_string(),
        label: "2x4 Leg".to_string(),
        dimensions: c(1.5, 3.5, 30.0),
        position: c(0.0, 0.0, 0.0),
        lumber_type: "Standard:2x4".to_string(),
    }
}

fn sample_move() -> Operation {
    Operation::MoveBoard {
        node_id: "board-1".to_string(),
        old_position: c(0.0, 0.0, 0.0),
        new_position: c(10.0, 5.0, 0.0),
    }
}

fn dims_text(op: &Operation) -> String {
    match op {
        Operation::ResizeBoard { new_dimensions, .. } => format!(
            "[{:.2}, {:.2}, {:.2}]",
            f64::from_bits(new_dimensions[0]),
            f64::from_bits(new_dimensions[1]),
            f64::from_bits(new_dimensions[2])
        ),
        _ => String::new(),
    }
}

#[test]
fn test_undo_redo_cycle() {
    let mut history = History::new();
    let op = sample_add_board();

    history.record(op);
    assert_eq!(history.undo_count(), 1);
    assert_eq!(history.redo_count(), 0);
    assert!(history.can_undo());
    assert!(!history.can_redo());

    let undo_op = history.undo().unwrap();
    match undo_op {
        Operation::RemoveBoard { ref label, .. } => assert_eq!(label, "2x4 Leg"),
        _ => panic!("Expected RemoveBoard as undo of AddBoard"),
    }
    assert_eq!(history.undo_count(), 0);
    assert_eq!(history.redo_count(), 1);
    assert!(!history.can_undo());
    assert!(history.can_redo());

    let redo_op = history.redo().unwrap();
    match redo_op {
        Operation::AddBoard { ref label, .. } => assert_eq!(label, "2x4 Leg"),
        _ => panic!("Expected AddBoard as redo"),
    }
    assert_eq!(history.undo_count(), 1);
    assert_eq!(history.redo_count(), 0);
}

#[test]
fn test_record_clears_redo() {
    let mut history = History::new();
    history.record(sample_add_board());
    history.record(sample_move());

    history.undo();
    assert_eq!(history.redo_count(), 1);

    history.record(Operation::RotateBoard {
        node_id: "board-1".to_string(),
        old_rotation: c(0.0, 0.0, 0.0),
        new_rotation: c(0.0, 1.57, 0.0),
    });
    assert_eq!(history.redo_count(), 0);
    assert!(!history.can_redo());
}

#[test]
fn test_inverse_operations() {
    let add = sample_add_board();
    let inv = add.inverse();
    match inv {
        Operation::RemoveBoard { ref node_id, .. } => assert_eq!(node_id, "board-1"),
        _ => panic!("AddBoard inverse should be RemoveBoard"),
    }
    let double_inv = inv.inverse();
    match double_inv {
        Operation::AddBoard { ref node_id, .. } => assert_eq!(node_id, "board-1"),
        _ => panic!("RemoveBoard inverse should be AddBoard"),
    }

    let mv = sample_move();
    match mv.inverse() {
        Operation::MoveBoard { old_position, new_position, .. } => {
            assert_eq!(old_position, c(10.0, 5.0, 0.0));
            assert_eq!(new_position, c(0.0, 0.0, 0.0));
        }
        _ => panic!("MoveBoard inverse should be MoveBoard"),
    }

    let rot = Operation::RotateBoard {
        node_id: "b".to_string(),
        old_rotation: c(0.0, 0.0, 0.0),
        new_rotation: c(1.0, 2.0, 3.0),
    };
    match rot.inverse() {
        Operation::RotateBoard { old_rotation, new_rotation, .. } => {
            assert_eq!(old_rotation, c(1.0, 2.0, 3.0));
            assert_eq!(new_rotation, c(0.0, 0.0, 0.0));
        }
        _ => panic!("RotateBoard inverse should be RotateBoard"),
    }

    let sp = Operation::SetSpecies {
        node_id: "b".to_string(),
        old_species: Some("oak".to_string()),
        new_species: Some("walnut".to_string()),
    };
    match sp.inverse() {
        Operation::SetSpecies { old_species, new_species, .. } => {
            assert_eq!(old_species, Some("walnut".to_string()));
            assert_eq!(new_species, Some("oak".to_string()));
        }
        _ => panic!("SetSpecies inverse should be SetSpecies"),
    }

    let fin = Operation::SetFinish {
        node_id: "b".to_string(),
        old_finish: None,
        new_finish: Some("satin".to_string()),
    };
    match fin.inverse() {
        Operation::SetFinish { old_finish, new_finish, .. } => {
            assert_eq!(old_finish, Some("satin".to_string()));
            assert_eq!(new_finish, None);
        }
        _ => panic!("SetFinish inverse should be SetFinish"),
    }

    let resize = Operation::ResizeBoard {
        node_id: "b".to_string(),
        old_dimensions: c(1.5, 3.5, 30.0),
        new_dimensions: c(1.5, 5.5, 48.0),
    };
    match resize.inverse() {
        Operation::ResizeBoard { old_dimensions, new_dimensions, .. } => {
            assert_eq!(old_dimensions, c(1.5, 5.5, 48.0));
            assert_eq!(new_dimensions, c(1.5, 3.5, 30.0));
        }
        _ => panic!("ResizeBoard inverse should be ResizeBoard"),
    }

    let add_j = Operation::AddJoint {
        joint_id: "j1".to_string(),
        joint_type: "mortise_tenon".to_string(),
        board_a: "a".to_string(),
        board_b: "b".to_string(),
    };
    match add_j.inverse() {
        Operation::RemoveJoint { ref joint_id, .. } => assert_eq!(joint_id, "j1"),
        _ => panic!("AddJoint inverse should be RemoveJoint"),
    }

    let rem_j = Operation::RemoveJoint {
        joint_id: "j1".to_string(),
        joint_type: "mortise_tenon".to_string(),
        board_a: "a".to_string(),
        board_b: "b".to_string(),
        params_json: "{}".to_string(),
    };
    match rem_j.inverse() {
        Operation::AddJoint { ref joint_id, .. } => assert_eq!(joint_id, "j1"),
        _ => panic!("RemoveJoint inverse should be AddJoint"),
    }
}

#[test]
fn test_max_history() {
    let mut history = History::new();
    for i in 0..105 {
        history.record(Operation::MoveBoard {
            node_id: format!("board-{}", i),
            old_position: c(0.0, 0.0, 0.0),
            new_position: c(i as f64, 0.0, 0.0),
        });
    }
    assert_eq!(history.undo_count(), 100);

    let first_undo = history.undo().unwrap();
    match first_undo {
        Operation::MoveBoard { node_id, .. } => assert_eq!(node_id, "board-104"),
        _ => panic!("Expected MoveBoard"),
    }
}

#[test]
fn test_descriptions() {
    let ops = vec![
        sample_add_board(),
        Operation::RemoveBoard {
            node_id: "b".to_string(),
            label: "Rail".to_string(),
            dimensions: c(1.0, 2.0, 3.0),
            position: c(0.0, 0.0, 0.0),
            rotation: c(0.0, 0.0, 0.0),
            lumber_type: "Custom".to_string(),
            species_id: None,
        },
        sample_move(),
        Operation::RotateBoard {
            node_id: "b".to_string(),
            old_rotation: c(0.0, 0.0, 0.0),
            new_rotation: c(0.0, 1.57, 0.0),
        },
        Operation::AddJoint {
            joint_id: "j".to_string(),
            joint_type: "butt".to_string(),
            board_a: "a".to_string(),
            board_b: "b".to_string(),
        },
        Operation::RemoveJoint {
            joint_id: "j".to_string(),
            joint_type: "dado".to_string(),
            board_a: "a".to_string(),
            board_b: "b".to_string(),
            params_json: "{}".to_string(),
        },
        Operation::SetSpecies {
            node_id: "b".to_string(),
            old_species: None,
            new_species: Some("oak".to_string()),
        },
        Operation::SetFinish {
            node_id: "b".to_string(),
            old_finish: None,
            new_finish: Some("oil".to_string()),
        },
        Operation::ResizeBoard {
            node_id: "b".to_string(),
            old_dimensions: c(1.0, 2.0, 3.0),
            new_dimensions: c(4.0, 5.0, 6.0),
        },
    ];

    for op in &ops {
        let desc = op.description(&dims_text(op));
        assert!(!desc.is_empty(), "Description should not be empty for {:?}", op);
    }
}

#[test]
fn test_empty_undo_redo() {
    let mut history = History::new();
    assert!(history.undo().is_none());
    assert!(history.redo().is_none());
    assert!(!history.can_undo());
    assert!(!history.can_redo());
    assert_eq!(history.undo_count(), 0);
    assert_eq!(history.redo_count(), 0);
}

#[test]
fn test_clear() {
    let mut history = History::new();
    history.record(sample_add_board());
    history.record(sample_move());
    history.undo();

    assert!(history.can_undo());
    assert!(history.can_redo());

    history.clear();
    assert!(!history.can_undo());
    assert!(!history.can_redo());
    assert_eq!(history.undo_count(), 0);
    assert_eq!(history.redo_count(), 0);
}

#[test]
fn test_history_undo_redo() {
    let mut history = History::new();
    assert!(!history.can_undo());
    assert!(!history.can_redo());

    history.record(Operation::AddBoard {
        node_id: "board-1".into(),
        label: "Leg".into(),
        dimensions: c(1.5, 3.5, 30.0),
        position: c(0.0, 0.0, 0.0),
        lumber_type: "Standard:2x4".into(),
    });
    history.record(Operation::MoveBoard {
        node_id: "board-1".into(),
        old_position: c(0.0, 0.0, 0.0),
        new_position: c(10.0, 0.0, 0.0),
    });
    history.record(Operation::ResizeBoard {
        node_id: "board-1".into(),
        old_dimensions: c(1.5, 3.5, 30.0),
        new_dimensions: c(1.5, 5.5, 48.0),
    });

    assert!(history.can_undo());
    assert!(!history.can_redo());
    assert_eq!(history.undo_count(), 3);

    match history.undo().unwrap() {
        Operation::ResizeBoard { old_dimensions, new_dimensions, .. } => {
            assert_eq!(old_dimensions, c(1.5, 5.5, 48.0));
            assert_eq!(new_dimensions, c(1.5, 3.5, 30.0));
        }
        _ => panic!("Expected ResizeBoard inverse"),
    }
    assert_eq!(history.undo_count(), 2);
    assert_eq!(history.redo_count(), 1);
    assert!(history.can_redo());

    match history.undo().unwrap() {
        Operation::MoveBoard { old_position, new_position, .. } => {
            assert_eq!(old_position, c(10.0, 0.0, 0.0));
            assert_eq!(new_position, c(0.0, 0.0, 0.0));
        }
        _ => panic!("Expected MoveBoard inverse"),
    }
    assert_eq!(history.undo_count(), 1);
    assert_eq!(history.redo_count(), 2);

    match history.redo().unwrap() {
        Operation::MoveBoard { old_position, new_position, .. } => {
            assert_eq!(old_position, c(0.0, 0.0, 0.0));
            assert_eq!(new_position, c(10.0, 0.0, 0.0));
        }
        _ => panic!("Expected MoveBoard redo"),
    }
    assert_eq!(history.undo_count(), 2);
    assert_eq!(history.redo_count(), 1);

    history.record(Operation::SetSpecies {
        node_id: "board-1".into(),
        old_species: None,
        new_species: Some("pine_sy".into()),
    });
    assert!(!history.can_redo(), "New record should clear redo stack");
    assert_eq!(history.redo_count(), 0);
    assert_eq!(history.undo_count(), 3);
}

#[test]
fn description_texts_are_exact() {
    assert_eq!(sample_add_board().description(""), "Add board '2x4 Leg'");
    assert_eq!(sample_move().description(""), "Move board board-1");
    let sp = Operation::SetSpecies {
        node_id: "b".to_string(),
        old_species: Some("oak".to_string()),
        new_species: None,
    };
    assert_eq!(sp.description(""), "Clear species on b");
    let fin = Operation::SetFinish {
        node_id: "b".to_string(),
        old_finish: None,
        new_finish: Some("oil".to_string()),
    };
    assert_eq!(fin.description(""), "Set finish to 'oil' on b");
    let resize = Operation::ResizeBoard {
        node_id: "b".to_string(),
        old_dimensions: c(1.0, 2.0, 3.0),
        new_dimensions: c(4.0, 5.0, 6.0),
    };
    assert_eq!(resize.description(&dims_text(&resize)), "Resize board b to [4.00, 5.00, 6.00]");
    let rj = Operation::RemoveJoint {
        joint_id: "j".to_string(),
        joint_type: "dado".to_string(),
        board_a: "a".to_string(),
        board_b: "b".to_string(),
        params_json: "{}".to_string(),
    };
    assert_eq!(rj.description(""), "Remove dado joint");
}

#[test]
fn undo_then_redo_gives_back_the_operation() {
    let mut history = History::new();
    history.record(sample_move());
    let _ = history.undo();
    let again = history.redo().unwrap();
    assert_eq!(again, sample_move());
    assert_eq!(history.undo_count(), 1);
    assert_eq!(history.redo_count(), 0);
}

#[test]
fn inverse_of_inverse_is_lossless_for_moves() {
    let mv = sample_move();
    assert_eq!(mv.inverse().inverse(), mv);
    let add = sample_add_board();
    assert_eq!(add.inverse().inverse(), add);
}

#[test]
fn removed_board_inverse_forgets_rotation_and_species() {
    let rem = Operation::RemoveBoard {
        node_id: "b".to_string(),
        label: "Rail".to_string(),
        dimensions: c(1.0, 2.0, 3.0),
        position: c(0.0, 0.0, 0.0),
        rotation: c(0.5, 0.0, 0.0),
        lumber_type: "Custom".to_string(),
        species_id: Some("oak".to_string()),
    };
    match rem.inverse().inverse() {
        Operation::RemoveBoard { rotation, species_id, .. } => {
            assert_eq!(rotation, c(0.0, 0.0, 0.0));
            assert_eq!(species_id, None);
        }
        _ => panic!("Expected RemoveBoard"),
    }
}
