//! Load ratings for structural checks.
use vstd::prelude::*;

use crate::joinery::{joint_key, JointType};
use crate::text::text_eq;

verus! {

/// Load status indicator.
#[derive(Clone, Copy, Debug, PartialEq, Eq, Structural)]
pub enum LoadStatus {
    /// Comfortably within capacity.
    Green,
    /// Getting close to capacity.
    Yellow,
    /// At or beyond what is safe.
    Red,
}

/// Joint strength after species adjustment: the raw score capped at 100.
pub fn adjusted_joint_strength(raw: u32) -> (s: u32)
    ensures
        s == if raw < 100 { raw } else { 100 },
{
    if raw < 100 {
        raw
    } else {
        100
    }
}

/// Status of an adjusted joint strength: 70 and up is green, 45 and up
/// yellow, below that red.
pub open spec fn strength_status(adjusted: u32) -> LoadStatus {
    if adjusted >= 70 {
        LoadStatus::Green
    } else if adjusted >= 45 {
        LoadStatus::Yellow
    } else {
        LoadStatus::Red
    }
}

/// Status of an adjusted joint strength (see `strength_status`).
pub fn joint_strength_status(adjusted: u32) -> (st: LoadStatus)
    ensures
        st == strength_status(adjusted),
{
    if adjusted >= 70 {
        LoadStatus::Green
    } else if adjusted >= 45 {
        LoadStatus::Yellow
    } else {
        LoadStatus::Red
    }
}

/// Advice for each joint-strength status.
pub open spec fn recommendation_text(st: LoadStatus) -> Seq<char> {
    match st {
        LoadStatus::Green => "Joint is adequate for this species."@,
        LoadStatus::Yellow => "Joint may be marginal. Consider reinforcement (glue blocks, screws, or a stronger joint type)."@,
        LoadStatus::Red => "Joint is weak for this application. Use a stronger joint type or add mechanical fasteners."@,
    }
}

/// Advice for a joint-strength status.
pub fn joint_recommendation(st: LoadStatus) -> (s: String)
    ensures
        s@ == recommendation_text(st),
{
    match st {
        LoadStatus::Green => String::from_str("Joint is adequate for this species."),
        LoadStatus::Yellow => String::from_str(
            "Joint may be marginal. Consider reinforcement (glue blocks, screws, or a stronger joint type).",
        ),
        LoadStatus::Red => String::from_str(
            "Joint is weak for this application. Use a stronger joint type or add mechanical fasteners.",
        ),
    }
}

/// Base strength (0 to 100) that joint-strength analysis gives a joint
/// named by its user-interface key; an unknown key rates 30.
pub open spec fn key_strength(key: Seq<char>) -> u32 {
    if key == "butt"@ {
        15
    } else if key == "miter"@ {
        20
    } else if key == "pocket_hole"@ {
        45
    } else if key == "dado"@ {
        55
    } else if key == "rabbet"@ {
        40
    } else if key == "half_lap"@ {
        50
    } else if key == "mortise_tenon"@ {
        85
    } else if key == "dovetail_through"@ {
        90
    } else if key == "dovetail_half_blind"@ {
        85
    } else if key == "box_joint"@ {
        70
    } else if key == "finger_joint"@ {
        75
    } else if key == "dowel"@ {
        55
    } else if key == "biscuit"@ {
        45
    } else if key == "tongue_groove"@ {
        50
    } else if key == "bridle"@ {
        65
    } else {
        30
    }
}

/// The strength analysis follows the joint catalogue: it rates every joint
/// type by its key at the type's base strength, give or take 10 points
/// (box joints 70 against 80, biscuit joints 45 against 40, bridle joints
/// 65 against 70; every other type exactly), and never at the 30 it gives
/// unknown keys. The cross lap, which it has no key for, rates 30.
pub proof fn lemma_key_strength_follows_catalogue(t: JointType)
    ensures
        t != JointType::CrossLap ==> key_strength(joint_key(t)) != 30,
        t != JointType::CrossLap ==> t.spec_base_strength() - 10 <= key_strength(joint_key(t)) <= t.spec_base_strength() + 10,
        t != JointType::BoxJoint && t != JointType::BiscuitJoint && t != JointType::BridleJoint && t != JointType::CrossLap
            ==> key_strength(joint_key(t)) == t.spec_base_strength(),
        t == JointType::CrossLap ==> key_strength(joint_key(t)) == 30,
{
    reveal_strlit("butt");
    reveal_strlit("miter");
    reveal_strlit("pocket_hole");
    reveal_strlit("dado");
    reveal_strlit("rabbet");
    reveal_strlit("half_lap");
    reveal_strlit("cross_lap");
    reveal_strlit("mortise_tenon");
    reveal_strlit("dovetail_through");
    reveal_strlit("dovetail_half_blind");
    reveal_strlit("box_joint");
    reveal_strlit("finger_joint");
    reveal_strlit("dowel");
    reveal_strlit("biscuit");
    reveal_strlit("tongue_groove");
    reveal_strlit("bridle");
    match t {
        JointType::ButtJoint => {
        },
        JointType::MiterJoint => {
            assert("miter"@.len() == 5 && "butt"@.len() == 4);
        },
        JointType::PocketHole => {
            assert("pocket_hole"@.len() == 11 && "butt"@.len() == 4);
            assert("pocket_hole"@.len() == 11 && "miter"@.len() == 5);
        },
        JointType::Dado => {
            assert("dado"@[0] == 'd' && "butt"@[0] == 'b');
            assert("dado"@.len() == 4 && "miter"@.len() == 5);
            assert("dado"@.len() == 4 && "pocket_hole"@.len() == 11);
        },
        JointType::Rabbet => {
            assert("rabbet"@.len() == 6 && "butt"@.len() == 4);
            assert("rabbet"@.len() == 6 && "miter"@.len() == 5);
            assert("rabbet"@.len() == 6 && "pocket_hole"@.len() == 11);
            assert("rabbet"@.len() == 6 && "dado"@.len() == 4);
        },
        JointType::HalfLap => {
            assert("half_lap"@.len() == 8 && "butt"@.len() == 4);
            assert("half_lap"@.len() == 8 && "miter"@.len() == 5);
            assert("half_lap"@.len() == 8 && "pocket_hole"@.len() == 11);
            assert("half_lap"@.len() == 8 && "dado"@.len() == 4);
            assert("half_lap"@.len() == 8 && "rabbet"@.len() == 6);
        },
        JointType::CrossLap => {
            assert("cross_lap"@.len() == 9 && "butt"@.len() == 4);
            assert("cross_lap"@.len() == 9 && "miter"@.len() == 5);
            assert("cross_lap"@.len() == 9 && "pocket_hole"@.len() == 11);
            assert("cross_lap"@.len() == 9 && "dado"@.len() == 4);
            assert("cross_lap"@.len() == 9 && "rabbet"@.len() == 6);
            assert("cross_lap"@.len() == 9 && "half_lap"@.len() == 8);
            assert("cross_lap"@.len() == 9 && "mortise_tenon"@.len() == 13);
            assert("cross_lap"@.len() == 9 && "dovetail_through"@.len() == 16);
            assert("cross_lap"@.len() == 9 && "dovetail_half_blind"@.len() == 19);
            assert("cross_lap"@[0] == 'c' && "box_joint"@[0] == 'b');
            assert("cross_lap"@.len() == 9 && "finger_joint"@.len() == 12);
            assert("cross_lap"@.len() == 9 && "dowel"@.len() == 5);
            assert("cross_lap"@.len() == 9 && "biscuit"@.len() == 7);
            assert("cross_lap"@.len() == 9 && "tongue_groove"@.len() == 13);
            assert("cross_lap"@.len() == 9 && "bridle"@.len() == 6);
        },
        JointType::MortiseAndTenon => {
            assert("mortise_tenon"@.len() == 13 && "butt"@.len() == 4);
            assert("mortise_tenon"@.len() == 13 && "miter"@.len() == 5);
            assert("mortise_tenon"@.len() == 13 && "pocket_hole"@.len() == 11);
            assert("mortise_tenon"@.len() == 13 && "dado"@.len() == 4);
            assert("mortise_tenon"@.len() == 13 && "rabbet"@.len() == 6);
            assert("mortise_tenon"@.len() == 13 && "half_lap"@.len() == 8);
        },
        JointType::DovetailThrough => {
            assert("dovetail_through"@.len() == 16 && "butt"@.len() == 4);
            assert("dovetail_through"@.len() == 16 && "miter"@.len() == 5);
            assert("dovetail_through"@.len() == 16 && "pocket_hole"@.len() == 11);
            assert("dovetail_through"@.len() == 16 && "dado"@.len() == 4);
            assert("dovetail_through"@.len() == 16 && "rabbet"@.len() == 6);
            assert("dovetail_through"@.len() == 16 && "half_lap"@.len() == 8);
            assert("dovetail_through"@.len() == 16 && "mortise_tenon"@.len() == 13);
        },
        JointType::DovetailHalfBlind => {
            assert("dovetail_half_blind"@.len() == 19 && "butt"@.len() == 4);
            assert("dovetail_half_blind"@.len() == 19 && "miter"@.len() == 5);
            assert("dovetail_half_blind"@.len() == 19 && "pocket_hole"@.len() == 11);
            assert("dovetail_half_blind"@.len() == 19 && "dado"@.len() == 4);
            assert("dovetail_half_blind"@.len() == 19 && "rabbet"@.len() == 6);
            assert("dovetail_half_blind"@.len() == 19 && "half_lap"@.len() == 8);
            assert("dovetail_half_blind"@.len() == 19 && "mortise_tenon"@.len() == 13);
            assert("dovetail_half_blind"@.len() == 19 && "dovetail_through"@.len() == 16);
        },
        JointType::BoxJoint => {
            assert("box_joint"@.len() == 9 && "butt"@.len() == 4);
            assert("box_joint"@.len() == 9 && "miter"@.len() == 5);
            assert("box_joint"@.len() == 9 && "pocket_hole"@.len() == 11);
            assert("box_joint"@.len() == 9 && "dado"@.len() == 4);
            assert("box_joint"@.len() == 9 && "rabbet"@.len() == 6);
            assert("box_joint"@.len() == 9 && "half_lap"@.len() == 8);
            assert("box_joint"@.len() == 9 && "mortise_tenon"@.len() == 13);
            assert("box_joint"@.len() == 9 && "dovetail_through"@.len() == 16);
            assert("box_joint"@.len() == 9 && "dovetail_half_blind"@.len() == 19);
        },
        JointType::FingerJoint => {
            assert("finger_joint"@.len() == 12 && "butt"@.len() == 4);
            assert("finger_joint"@.len() == 12 && "miter"@.len() == 5);
            assert("finger_joint"@.len() == 12 && "pocket_hole"@.len() == 11);
            assert("finger_joint"@.len() == 12 && "dado"@.len() == 4);
            assert("finger_joint"@.len() == 12 && "rabbet"@.len() == 6);
            assert("finger_joint"@.len() == 12 && "half_lap"@.len() == 8);
            assert("finger_joint"@.len() == 12 && "mortise_tenon"@.len() == 13);
            assert("finger_joint"@.len() == 12 && "dovetail_through"@.len() == 16);
            assert("finger_joint"@.len() == 12 && "dovetail_half_blind"@.len() == 19);
            assert("finger_joint"@.len() == 12 && "box_joint"@.len() == 9);
        },
        JointType::DowelJoint => {
            assert("dowel"@.len() == 5 && "butt"@.len() == 4);
            assert("dowel"@[0] == 'd' && "miter"@[0] == 'm');
            assert("dowel"@.len() == 5 && "pocket_hole"@.len() == 11);
            assert("dowel"@.len() == 5 && "dado"@.len() == 4);
            assert("dowel"@.len() == 5 && "rabbet"@.len() == 6);
            assert("dowel"@.len() == 5 && "half_lap"@.len() == 8);
            assert("dowel"@.len() == 5 && "mortise_tenon"@.len() == 13);
            assert("dowel"@.len() == 5 && "dovetail_through"@.len() == 16);
            assert("dowel"@.len() == 5 && "dovetail_half_blind"@.len() == 19);
            assert("dowel"@.len() == 5 && "box_joint"@.len() == 9);
            assert("dowel"@.len() == 5 && "finger_joint"@.len() == 12);
        },
        JointType::BiscuitJoint => {
            assert("biscuit"@.len() == 7 && "butt"@.len() == 4);
            assert("biscuit"@.len() == 7 && "miter"@.len() == 5);
            assert("biscuit"@.len() == 7 && "pocket_hole"@.len() == 11);
            assert("biscuit"@.len() == 7 && "dado"@.len() == 4);
            assert("biscuit"@.len() == 7 && "rabbet"@.len() == 6);
            assert("biscuit"@.len() == 7 && "half_lap"@.len() == 8);
            assert("biscuit"@.len() == 7 && "mortise_tenon"@.len() == 13);
            assert("biscuit"@.len() == 7 && "dovetail_through"@.len() == 16);
            assert("biscuit"@.len() == 7 && "dovetail_half_blind"@.len() == 19);
            assert("biscuit"@.len() == 7 && "box_joint"@.len() == 9);
            assert("biscuit"@.len() == 7 && "finger_joint"@.len() == 12);
            assert("biscuit"@.len() == 7 && "dowel"@.len() == 5);
        },
        JointType::TongueAndGroove => {
            assert("tongue_groove"@.len() == 13 && "butt"@.len() == 4);
            assert("tongue_groove"@.len() == 13 && "miter"@.len() == 5);
            assert("tongue_groove"@.len() == 13 && "pocket_hole"@.len() == 11);
            assert("tongue_groove"@.len() == 13 && "dado"@.len() == 4);
            assert("tongue_groove"@.len() == 13 && "rabbet"@.len() == 6);
            assert("tongue_groove"@.len() == 13 && "half_lap"@.len() == 8);
            assert("tongue_groove"@[0] == 't' && "mortise_tenon"@[0] == 'm');
            assert("tongue_groove"@.len() == 13 && "dovetail_through"@.len() == 16);
            assert("tongue_groove"@.len() == 13 && "dovetail_half_blind"@.len() == 19);
            assert("tongue_groove"@.len() == 13 && "box_joint"@.len() == 9);
            assert("tongue_groove"@.len() == 13 && "finger_joint"@.len() == 12);
            assert("tongue_groove"@.len() == 13 && "dowel"@.len() == 5);
            assert("tongue_groove"@.len() == 13 && "biscuit"@.len() == 7);
        },
        JointType::BridleJoint => {
            assert("bridle"@.len() == 6 && "butt"@.len() == 4);
            assert("bridle"@.len() == 6 && "miter"@.len() == 5);
            assert("bridle"@.len() == 6 && "pocket_hole"@.len() == 11);
            assert("bridle"@.len() == 6 && "dado"@.len() == 4);
            assert("bridle"@[0] == 'b' && "rabbet"@[0] == 'r');
            assert("bridle"@.len() == 6 && "half_lap"@.len() == 8);
            assert("bridle"@.len() == 6 && "mortise_tenon"@.len() == 13);
            assert("bridle"@.len() == 6 && "dovetail_through"@.len() == 16);
            assert("bridle"@.len() == 6 && "dovetail_half_blind"@.len() == 19);
            assert("bridle"@.len() == 6 && "box_joint"@.len() == 9);
            assert("bridle"@.len() == 6 && "finger_joint"@.len() == 12);
            assert("bridle"@.len() == 6 && "dowel"@.len() == 5);
            assert("bridle"@.len() == 6 && "biscuit"@.len() == 7);
            assert("bridle"@.len() == 6 && "tongue_groove"@.len() == 13);
        },
    }

}

/// Base strength for a joint key (see `key_strength`).
pub fn joint_key_strength(key: &str) -> (s: u32)
    ensures
        s == key_strength(key@),
{
    if text_eq(key, "butt") {
        15
    } else if text_eq(key, "miter") {
        20
    } else if text_eq(key, "pocket_hole") {
        45
    } else if text_eq(key, "dado") {
        55
    } else if text_eq(key, "rabbet") {
        40
    } else if text_eq(key, "half_lap") {
        50
    } else if text_eq(key, "mortise_tenon") {
        85
    } else if text_eq(key, "dovetail_through") {
        90
    } else if text_eq(key, "dovetail_half_blind") {
        85
    } else if text_eq(key, "box_joint") {
        70
    } else if text_eq(key, "finger_joint") {
        75
    } else if text_eq(key, "dowel") {
        55
    } else if text_eq(key, "biscuit") {
        45
    } else if text_eq(key, "tongue_groove") {
        50
    } else if text_eq(key, "bridle") {
        65
    } else {
        30
    }
}

} // verus!
