//! Joint types, faces and the store of joints in a design.
use vstd::prelude::*;

use crate::ids::NodeId;
use crate::text::text_eq;

verus! {

/// The kinds of woodworking joint the tool knows.
#[derive(Clone, Copy, Debug, PartialEq, Eq, Structural)]
pub enum JointType {
    ButtJoint,
    MiterJoint,
    PocketHole,
    MortiseAndTenon,
    Dado,
    Rabbet,
    HalfLap,
    CrossLap,
    DovetailThrough,
    DovetailHalfBlind,
    BoxJoint,
    FingerJoint,
    DowelJoint,
    BiscuitJoint,
    TongueAndGroove,
    BridleJoint,
}

/// Face of a board, named by the axis direction it faces.
#[derive(Clone, Copy, Debug, PartialEq, Eq, Structural)]
pub enum JointFace {
    /// +Z
    Front,
    /// -Z
    Back,
    /// +Y
    Top,
    /// -Y
    Bottom,
    /// +X
    Right,
    /// -X
    Left,
}

/// Skill level a joint asks for.
#[derive(Clone, Copy, Debug, PartialEq, Eq, Structural)]
pub enum JointDifficulty {
    Beginner,
    Intermediate,
    Advanced,
}

/// Every joint type, in declaration order.
pub const ALL_JOINT_TYPES: [JointType; 16] = [
    JointType::ButtJoint,
    JointType::MiterJoint,
    JointType::PocketHole,
    JointType::MortiseAndTenon,
    JointType::Dado,
    JointType::Rabbet,
    JointType::HalfLap,
    JointType::CrossLap,
    JointType::DovetailThrough,
    JointType::DovetailHalfBlind,
    JointType::BoxJoint,
    JointType::FingerJoint,
    JointType::DowelJoint,
    JointType::BiscuitJoint,
    JointType::TongueAndGroove,
    JointType::BridleJoint,
];

impl JointType {
    /// Base strength rating, before the wood species is taken into account.
    pub open spec fn spec_base_strength(self) -> u32 {
        match self {
            JointType::ButtJoint => 15,
            JointType::MiterJoint => 20,
            JointType::PocketHole => 45,
            JointType::MortiseAndTenon => 85,
            JointType::Dado => 55,
            JointType::Rabbet => 40,
            JointType::HalfLap => 50,
            JointType::CrossLap => 45,
            JointType::DovetailThrough => 90,
            JointType::DovetailHalfBlind => 85,
            JointType::BoxJoint => 80,
            JointType::FingerJoint => 75,
            JointType::DowelJoint => 55,
            JointType::BiscuitJoint => 40,
            JointType::TongueAndGroove => 50,
            JointType::BridleJoint => 70,
        }
    }

    /// Skill level of each joint type.
    pub open spec fn spec_difficulty(self) -> JointDifficulty {
        match self {
            JointType::ButtJoint => JointDifficulty::Beginner,
            JointType::MiterJoint => JointDifficulty::Intermediate,
            JointType::PocketHole => JointDifficulty::Beginner,
            JointType::MortiseAndTenon => JointDifficulty::Advanced,
            JointType::Dado => JointDifficulty::Intermediate,
            JointType::Rabbet => JointDifficulty::Intermediate,
            JointType::HalfLap => JointDifficulty::Intermediate,
            JointType::CrossLap => JointDifficulty::Intermediate,
            JointType::DovetailThrough => JointDifficulty::Advanced,
            JointType::DovetailHalfBlind => JointDifficulty::Advanced,
            JointType::BoxJoint => JointDifficulty::Advanced,
            JointType::FingerJoint => JointDifficulty::Advanced,
            JointType::DowelJoint => JointDifficulty::Intermediate,
            JointType::BiscuitJoint => JointDifficulty::Intermediate,
            JointType::TongueAndGroove => JointDifficulty::Intermediate,
            JointType::BridleJoint => JointDifficulty::Advanced,
        }
    }

    /// The joint types whose geometry the modelling step cuts into boards.
    pub open spec fn spec_has_geometry(self) -> bool {
        self == JointType::MiterJoint
        || self == JointType::MortiseAndTenon
        || self == JointType::Dado
        || self == JointType::Rabbet
        || self == JointType::HalfLap
    }

    /// Human-readable name.
    pub open spec fn spec_display_name(self) -> Seq<char> {
        match self {
            JointType::ButtJoint => "Butt Joint"@,
            JointType::MiterJoint => "Miter Joint"@,
            JointType::PocketHole => "Pocket Hole"@,
            JointType::MortiseAndTenon => "Mortise and Tenon"@,
            JointType::Dado => "Dado"@,
            JointType::Rabbet => "Rabbet"@,
            JointType::HalfLap => "Half Lap"@,
            JointType::CrossLap => "Cross Lap"@,
            JointType::DovetailThrough => "Through Dovetail"@,
            JointType::DovetailHalfBlind => "Half-Blind Dovetail"@,
            JointType::BoxJoint => "Box Joint"@,
            JointType::FingerJoint => "Finger Joint"@,
            JointType::DowelJoint => "Dowel Joint"@,
            JointType::BiscuitJoint => "Biscuit Joint"@,
            JointType::TongueAndGroove => "Tongue and Groove"@,
            JointType::BridleJoint => "Bridle Joint"@,
        }
    }

    /// One-sentence description.
    pub open spec fn spec_description(self) -> Seq<char> {
        match self {
            JointType::ButtJoint => "Two boards joined end-to-end or end-to-face, the simplest joint"@,
            JointType::MiterJoint => "Angled cut (typically 45 degrees) where two boards meet at a corner"@,
            JointType::PocketHole => "Angled screw driven through a pocket hole for hidden fastening"@,
            JointType::MortiseAndTenon => "A tenon tongue fits into a mortise pocket for strong structural joints"@,
            JointType::Dado => "A rectangular channel cut across the grain to receive another board"@,
            JointType::Rabbet => "An L-shaped cut along the edge of a board"@,
            JointType::HalfLap => "Half the material removed from each board so they overlap flush"@,
            JointType::CrossLap => "Both boards notched at the intersection so they interlock"@,
            JointType::DovetailThrough => "Interlocking trapezoidal pins and tails visible on both faces"@,
            JointType::DovetailHalfBlind => "Dovetail visible on one face only, hidden on the other"@,
            JointType::BoxJoint => "Interlocking rectangular fingers, a simpler alternative to dovetails"@,
            JointType::FingerJoint => "Multiple interlocking rectangular fingers along the board end"@,
            JointType::DowelJoint => "Cylindrical dowel pins inserted into aligned holes in both boards"@,
            JointType::BiscuitJoint => "Oval biscuit inserted into matching slots for alignment and strength"@,
            JointType::TongueAndGroove => "A protruding tongue on one board fits into a groove on another"@,
            JointType::BridleJoint => "An open mortise-and-tenon where the mortise is cut through the end"@,
        }
    }

    /// Tools typically needed.
    pub open spec fn spec_tools_needed(self) -> Seq<Seq<char>> {
        match self {
            JointType::ButtJoint => seq!["saw"@, "clamps"@, "wood glue"@],
            JointType::MiterJoint => seq!["miter saw"@, "clamps"@, "wood glue"@],
            JointType::PocketHole => seq!["pocket hole jig"@, "drill"@, "pocket screws"@],
            JointType::MortiseAndTenon => seq!["chisel"@, "mallet"@, "drill press"@, "table saw"@],
            JointType::Dado => seq!["table saw"@, "dado blade set"@, "router"@],
            JointType::Rabbet => seq!["table saw"@, "router"@, "rabbet bit"@],
            JointType::HalfLap => seq!["table saw"@, "chisel"@, "mallet"@],
            JointType::CrossLap => seq!["table saw"@, "chisel"@, "mallet"@],
            JointType::DovetailThrough => seq!["dovetail saw"@, "chisel"@, "mallet"@, "marking gauge"@],
            JointType::DovetailHalfBlind => seq!["dovetail saw"@, "chisel"@, "mallet"@, "marking gauge"@],
            JointType::BoxJoint => seq!["table saw"@, "box joint jig"@, "chisel"@],
            JointType::FingerJoint => seq!["table saw"@, "finger joint jig"@, "chisel"@],
            JointType::DowelJoint => seq!["drill"@, "doweling jig"@, "dowel pins"@],
            JointType::BiscuitJoint => seq!["biscuit joiner"@, "biscuits"@, "wood glue"@],
            JointType::TongueAndGroove => seq!["table saw"@, "router"@, "tongue and groove bit set"@],
            JointType::BridleJoint => seq!["table saw"@, "chisel"@, "mallet"@],
        }
    }

    /// Base strength rating (out of 100) before species adjustment.
    pub fn base_strength(&self) -> (s: u32)
        ensures
            s == self.spec_base_strength(),
            0 < s <= 100,
    {
        match self {
            JointType::ButtJoint => 15,
            JointType::MiterJoint => 20,
            JointType::PocketHole => 45,
            JointType::MortiseAndTenon => 85,
            JointType::Dado => 55,
            JointType::Rabbet => 40,
            JointType::HalfLap => 50,
            JointType::CrossLap => 45,
            JointType::DovetailThrough => 90,
            JointType::DovetailHalfBlind => 85,
            JointType::BoxJoint => 80,
            JointType::FingerJoint => 75,
            JointType::DowelJoint => 55,
            JointType::BiscuitJoint => 40,
            JointType::TongueAndGroove => 50,
            JointType::BridleJoint => 70,
        }
    }

    /// Difficulty level for build instructions.
    pub fn difficulty(&self) -> (d: JointDifficulty)
        ensures
            d == self.spec_difficulty(),
    {
        match self {
            JointType::ButtJoint | JointType::PocketHole => JointDifficulty::Beginner,
            JointType::MiterJoint
            | JointType::Dado
            | JointType::Rabbet
            | JointType::HalfLap
            | JointType::CrossLap
            | JointType::DowelJoint
            | JointType::BiscuitJoint
            | JointType::TongueAndGroove => JointDifficulty::Intermediate,
            JointType::MortiseAndTenon
            | JointType::DovetailThrough
            | JointType::DovetailHalfBlind
            | JointType::BoxJoint
            | JointType::FingerJoint
            | JointType::BridleJoint => JointDifficulty::Advanced,
        }
    }

    /// Whether the modelling step cuts this joint's geometry into the boards.
    pub fn has_geometry(&self) -> (b: bool)
        ensures
            b == self.spec_has_geometry(),
    {
        match self {
            JointType::MiterJoint
            | JointType::Dado
            | JointType::Rabbet
            | JointType::HalfLap
            | JointType::MortiseAndTenon => true,
            _ => false,
        }
    }

    /// Human-readable name; never empty.
    pub fn display_name(&self) -> (name: &'static str)
        ensures
            name@ == self.spec_display_name(),
            name@.len() > 0,
    {
        match self {
            JointType::ButtJoint => {
                proof { reveal_strlit("Butt Joint"); }
                "Butt Joint"
            },
            JointType::MiterJoint => {
                proof { reveal_strlit("Miter Joint"); }
                "Miter Joint"
            },
            JointType::PocketHole => {
                proof { reveal_strlit("Pocket Hole"); }
                "Pocket Hole"
            },
            JointType::MortiseAndTenon => {
                proof { reveal_strlit("Mortise and Tenon"); }
                "Mortise and Tenon"
            },
            JointType::Dado => {
                proof { reveal_strlit("Dado"); }
                "Dado"
            },
            JointType::Rabbet => {
                proof { reveal_strlit("Rabbet"); }
                "Rabbet"
            },
            JointType::HalfLap => {
                proof { reveal_strlit("Half Lap"); }
                "Half Lap"
            },
            JointType::CrossLap => {
                proof { reveal_strlit("Cross Lap"); }
                "Cross Lap"
            },
            JointType::DovetailThrough => {
                proof { reveal_strlit("Through Dovetail"); }
                "Through Dovetail"
            },
            JointType::DovetailHalfBlind => {
                proof { reveal_strlit("Half-Blind Dovetail"); }
                "Half-Blind Dovetail"
            },
            JointType::BoxJoint => {
                proof { reveal_strlit("Box Joint"); }
                "Box Joint"
            },
            JointType::FingerJoint => {
                proof { reveal_strlit("Finger Joint"); }
                "Finger Joint"
            },
            JointType::DowelJoint => {
                proof { reveal_strlit("Dowel Joint"); }
                "Dowel Joint"
            },
            JointType::BiscuitJoint => {
                proof { reveal_strlit("Biscuit Joint"); }
                "Biscuit Joint"
            },
            JointType::TongueAndGroove => {
                proof { reveal_strlit("Tongue and Groove"); }
                "Tongue and Groove"
            },
            JointType::BridleJoint => {
                proof { reveal_strlit("Bridle Joint"); }
                "Bridle Joint"
            },
        }
    }

    /// Brief description; never empty.
    pub fn description(&self) -> (text: &'static str)
        ensures
            text@ == self.spec_description(),
            text@.len() > 0,
    {
        match self {
            JointType::ButtJoint => {
                proof { reveal_strlit("Two boards joined end-to-end or end-to-face, the simplest joint"); }
                "Two boards joined end-to-end or end-to-face, the simplest joint"
            },
            JointType::MiterJoint => {
                proof { reveal_strlit("Angled cut (typically 45 degrees) where two boards meet at a corner"); }
                "Angled cut (typically 45 degrees) where two boards meet at a corner"
            },
            JointType::PocketHole => {
                proof { reveal_strlit("Angled screw driven through a pocket hole for hidden fastening"); }
                "Angled screw driven through a pocket hole for hidden fastening"
            },
            JointType::MortiseAndTenon => {
                proof { reveal_strlit("A tenon tongue fits into a mortise pocket for strong structural joints"); }
                "A tenon tongue fits into a mortise pocket for strong structural joints"
            },
            JointType::Dado => {
                proof { reveal_strlit("A rectangular channel cut across the grain to receive another board"); }
                "A rectangular channel cut across the grain to receive another board"
            },
            JointType::Rabbet => {
                proof { reveal_strlit("An L-shaped cut along the edge of a board"); }
                "An L-shaped cut along the edge of a board"
            },
            JointType::HalfLap => {
                proof { reveal_strlit("Half the material removed from each board so they overlap flush"); }
                "Half the material removed from each board so they overlap flush"
            },
            JointType::CrossLap => {
                proof { reveal_strlit("Both boards notched at the intersection so they interlock"); }
                "Both boards notched at the intersection so they interlock"
            },
            JointType::DovetailThrough => {
                proof { reveal_strlit("Interlocking trapezoidal pins and tails visible on both faces"); }
                "Interlocking trapezoidal pins and tails visible on both faces"
            },
            JointType::DovetailHalfBlind => {
                proof { reveal_strlit("Dovetail visible on one face only, hidden on the other"); }
                "Dovetail visible on one face only, hidden on the other"
            },
            JointType::BoxJoint => {
                proof { reveal_strlit("Interlocking rectangular fingers, a simpler alternative to dovetails"); }
                "Interlocking rectangular fingers, a simpler alternative to dovetails"
            },
            JointType::FingerJoint => {
                proof { reveal_strlit("Multiple interlocking rectangular fingers along the board end"); }
                "Multiple interlocking rectangular fingers along the board end"
            },
            JointType::DowelJoint => {
                proof { reveal_strlit("Cylindrical dowel pins inserted into aligned holes in both boards"); }
                "Cylindrical dowel pins inserted into aligned holes in both boards"
            },
            JointType::BiscuitJoint => {
                proof { reveal_strlit("Oval biscuit inserted into matching slots for alignment and strength"); }
                "Oval biscuit inserted into matching slots for alignment and strength"
            },
            JointType::TongueAndGroove => {
                proof { reveal_strlit("A protruding tongue on one board fits into a groove on another"); }
                "A protruding tongue on one board fits into a groove on another"
            },
            JointType::BridleJoint => {
                proof { reveal_strlit("An open mortise-and-tenon where the mortise is cut through the end"); }
                "An open mortise-and-tenon where the mortise is cut through the end"
            },
        }
    }

    /// Tools typically needed; never empty.
    pub fn tools_needed(&self) -> (tools: Vec<&'static str>)
        ensures
            tools@.map_values(|t: &'static str| t@) == self.spec_tools_needed(),
            tools@.len() > 0,
    {
        let tools = match self {
            JointType::ButtJoint => vec!["saw", "clamps", "wood glue"],
            JointType::MiterJoint => vec!["miter saw", "clamps", "wood glue"],
            JointType::PocketHole => vec!["pocket hole jig", "drill", "pocket screws"],
            JointType::MortiseAndTenon => vec!["chisel", "mallet", "drill press", "table saw"],
            JointType::Dado => vec!["table saw", "dado blade set", "router"],
            JointType::Rabbet => vec!["table saw", "router", "rabbet bit"],
            JointType::HalfLap => vec!["table saw", "chisel", "mallet"],
            JointType::CrossLap => vec!["table saw", "chisel", "mallet"],
            JointType::DovetailThrough => vec!["dovetail saw", "chisel", "mallet", "marking gauge"],
            JointType::DovetailHalfBlind => vec!["dovetail saw", "chisel", "mallet", "marking gauge"],
            JointType::BoxJoint => vec!["table saw", "box joint jig", "chisel"],
            JointType::FingerJoint => vec!["table saw", "finger joint jig", "chisel"],
            JointType::DowelJoint => vec!["drill", "doweling jig", "dowel pins"],
            JointType::BiscuitJoint => vec!["biscuit joiner", "biscuits", "wood glue"],
            JointType::TongueAndGroove => vec!["table saw", "router", "tongue and groove bit set"],
            JointType::BridleJoint => vec!["table saw", "chisel", "mallet"],
        };
        assert(tools@.map_values(|t: &'static str| t@) =~= self.spec_tools_needed());
        tools
    }
}

/// Parameters of a joint. Lengths and angles are carried, not computed on:
/// they hold IEEE-754 binary64 bit patterns.
pub enum JointParams {
    Butt,
    Miter { angle: u64 },
    PocketHole { screw_angle: u64, screw_count: u32 },
    MortiseAndTenon { tenon_width: u64, tenon_height: u64, tenon_depth: u64 },
    Dado { width: u64, depth: u64 },
    Rabbet { width: u64, depth: u64 },
    HalfLap { depth: u64 },
    DowelJoint { dowel_diameter: u64, dowel_count: u32, spacing: u64 },
    CrossLap { depth: u64 },
    TongueAndGroove { tongue_width: u64, tongue_depth: u64 },
    BridleJoint { slot_width: u64 },
    Generic,
}

/// A joint between two boards. `offset` holds binary64 bit patterns.
pub struct Joint {
    pub id: NodeId,
    pub joint_type: JointType,
    pub board_a: NodeId,
    pub board_b: NodeId,
    pub face_a: JointFace,
    pub face_b: JointFace,
    pub offset: [u64; 3],
    pub parameters: JointParams,
}

/// `s` without the joints whose id is `id`, in order.
pub open spec fn without_id(s: Seq<Joint>, id: NodeId) -> Seq<Joint>
    decreases s.len(),
{
    if s.len() == 0 {
        s
    } else if s.last().id == id {
        without_id(s.drop_last(), id)
    } else {
        without_id(s.drop_last(), id).push(s.last())
    }
}

/// The joints of `s` that involve board `board`, in order.
pub open spec fn touching(s: Seq<Joint>, board: NodeId) -> Seq<Joint>
    decreases s.len(),
{
    if s.len() == 0 {
        s
    } else if s.last().board_a == board || s.last().board_b == board {
        touching(s.drop_last(), board).push(s.last())
    } else {
        touching(s.drop_last(), board)
    }
}

/// After a removal no joint with that id is left, and every other joint
/// stays, in the same order.
pub proof fn lemma_without_id(s: Seq<Joint>, id: NodeId)
    ensures
        forall|k: int| 0 <= k < without_id(s, id).len() ==> #[trigger] without_id(s, id)[k].id != id,
        forall|k: int| 0 <= k < s.len() && s[k].id != id ==> without_id(s, id).contains(#[trigger] s[k]),
        without_id(s, id).len() <= s.len(),
    decreases s.len(),
{
    if s.len() > 0 {
        let p = s.drop_last();
        lemma_without_id(p, id);
        assert forall|k: int| 0 <= k < s.len() && s[k].id != id implies without_id(s, id).contains(#[trigger] s[k]) by {
            if k < s.len() - 1 {
                assert(p[k] == s[k]);
                let w = without_id(p, id);
                let x = choose|x: int| 0 <= x < w.len() && w[x] == p[k];
                if s.last().id != id {
                    assert(without_id(s, id)[x] == w[x]);
                }
            } else {
                assert(without_id(s, id).last() == s[k]);
            }
        }
    }
}

/// Storage for all joints in a project, in the order they were added.
pub struct JointStore {
    joints: Vec<Joint>,
}

impl JointStore {
    /// The stored joints, oldest first.
    pub closed spec fn joints(&self) -> Seq<Joint> {
        self.joints@
    }

    /// An empty store.
    pub fn new() -> (s: JointStore)
        ensures
            s.joints() == Seq::<Joint>::empty(),
    {
        JointStore { joints: Vec::new() }
    }

    /// Adds a joint after the existing ones.
    pub fn add_joint(&mut self, joint: Joint)
        ensures
            final(self).joints() == old(self).joints().push(joint),
    {
        self.joints.push(joint);
    }

    /// Removes every joint with the given id; the others keep their order.
    pub fn remove_joint(&mut self, id: NodeId)
        ensures
            final(self).joints() == without_id(old(self).joints(), id),
    {
        let ghost start = self.joints@;
        let total = self.joints.len();
        assert(start.len() == total);
        let mut k: usize = 0;
        let mut i: usize = 0;
        while i < self.joints.len()
            invariant
                k <= start.len(),
                start.len() <= usize::MAX,
                i <= k,
                i == without_id(start.take(k as int), id).len(),
                self.joints@.len() == i + start.len() - k,
                self.joints@ == without_id(start.take(k as int), id) + start.skip(k as int),
            decreases start.len() - k,
        {
            assert(k < start.len());
            proof {
                assert(start.take(k + 1).drop_last() =~= start.take(k as int));
                assert(start.take(k + 1).last() == start[k as int]);
                assert(self.joints@[i as int] == start[k as int]);
            }
            if self.joints[i].id == id {
                let ghost prev = self.joints@;
                self.joints.remove(i);
                assert(self.joints@ =~= without_id(start.take(k + 1), id) + start.skip(k + 1));
            } else {
                i = i + 1;
                assert(self.joints@ =~= without_id(start.take(k + 1), id) + start.skip(k + 1));
            }
            k = k + 1;
        }
        assert(k == start.len()) by {
            assert(self.joints@.len() == i + start.len() - k);
        }
        assert(start.take(start.len() as int) =~= start);
        assert(self.joints@ =~= without_id(start, id));
    }

    /// The joints involving a board, oldest first.
    pub fn joints_for_board(&self, board_id: NodeId) -> (r: Vec<&Joint>)
        ensures
            r@.map_values(|j: &Joint| *j) == touching(self.joints(), board_id),
    {
        let mut r: Vec<&Joint> = Vec::new();
        let mut k: usize = 0;
        while k < self.joints.len()
            invariant
                k <= self.joints@.len(),
                r@.map_values(|j: &Joint| *j) == touching(self.joints@.take(k as int), board_id),
            decreases self.joints.len() - k,
        {
            proof {
                assert(self.joints@.take(k + 1).drop_last() =~= self.joints@.take(k as int));
                assert(self.joints@.take(k + 1).last() == self.joints@[k as int]);
            }
            let j = &self.joints[k];
            if j.board_a == board_id || j.board_b == board_id {
                r.push(j);
            }
            assert(r@.map_values(|j: &Joint| *j) =~= touching(self.joints@.take(k + 1), board_id));
            k = k + 1;
        }
        assert(self.joints@.take(self.joints@.len() as int) =~= self.joints@);
        r
    }

    /// All joints, oldest first.
    pub fn all_joints(&self) -> (r: &[Joint])
        ensures
            r@ == self.joints(),
    {
        self.joints.as_slice()
    }

    /// The oldest joint with the given id, if any.
    pub fn get_joint(&self, id: NodeId) -> (r: Option<&Joint>)
        ensures
            r is None ==> forall|k: int| 0 <= k < self.joints().len() ==> (#[trigger] self.joints()[k]).id != id,
            r matches Some(j) ==> exists|k: int|
                0 <= k < self.joints().len() && *j == #[trigger] self.joints()[k] && j.id == id
                    && forall|m: int| 0 <= m < k ==> (#[trigger] self.joints()[m]).id != id,
    {
        let mut k: usize = 0;
        while k < self.joints.len()
            invariant
                k <= self.joints@.len(),
                forall|m: int| 0 <= m < k ==> (#[trigger] self.joints@[m]).id != id,
            decreases self.joints.len() - k,
        {
            if self.joints[k].id == id {
                return Some(&self.joints[k]);
            }
            k = k + 1;
        }
        None
    }
}

/// The name of a joint type as `{:?}` prints it: its variant's name. The
/// cut list and build plan receive joint types in this form.
pub open spec fn joint_type_name(t: JointType) -> Seq<char> {
    match t {
        JointType::ButtJoint => "ButtJoint"@,
        JointType::MiterJoint => "MiterJoint"@,
        JointType::PocketHole => "PocketHole"@,
        JointType::MortiseAndTenon => "MortiseAndTenon"@,
        JointType::Dado => "Dado"@,
        JointType::Rabbet => "Rabbet"@,
        JointType::HalfLap => "HalfLap"@,
        JointType::CrossLap => "CrossLap"@,
        JointType::DovetailThrough => "DovetailThrough"@,
        JointType::DovetailHalfBlind => "DovetailHalfBlind"@,
        JointType::BoxJoint => "BoxJoint"@,
        JointType::FingerJoint => "FingerJoint"@,
        JointType::DowelJoint => "DowelJoint"@,
        JointType::BiscuitJoint => "BiscuitJoint"@,
        JointType::TongueAndGroove => "TongueAndGroove"@,
        JointType::BridleJoint => "BridleJoint"@,
    }
}

/// The key by which the user interface names a joint type.
pub open spec fn joint_key(t: JointType) -> Seq<char> {
    match t {
        JointType::ButtJoint => "butt"@,
        JointType::MiterJoint => "miter"@,
        JointType::PocketHole => "pocket_hole"@,
        JointType::Dado => "dado"@,
        JointType::Rabbet => "rabbet"@,
        JointType::HalfLap => "half_lap"@,
        JointType::CrossLap => "cross_lap"@,
        JointType::MortiseAndTenon => "mortise_tenon"@,
        JointType::DovetailThrough => "dovetail_through"@,
        JointType::DovetailHalfBlind => "dovetail_half_blind"@,
        JointType::BoxJoint => "box_joint"@,
        JointType::FingerJoint => "finger_joint"@,
        JointType::DowelJoint => "dowel"@,
        JointType::BiscuitJoint => "biscuit"@,
        JointType::TongueAndGroove => "tongue_groove"@,
        JointType::BridleJoint => "bridle"@,
    }
}

/// A letter in lower case (ASCII letters only; other characters unchanged).
pub open spec fn fold_case(c: char) -> char {
    if 65 <= (c as u32) <= 90 {
        ((c as u32) + 32) as char
    } else {
        c
    }
}

/// Whether the letters of `key`, ignoring case and the `_` that separate
/// its words, occur in `name` in the same order.
pub open spec fn spelled_within(key: Seq<char>, name: Seq<char>) -> bool
    decreases key.len() + name.len(),
{
    if key.len() == 0 {
        true
    } else if key[0] == '_' {
        spelled_within(key.drop_first(), name)
    } else if name.len() == 0 {
        false
    } else if fold_case(key[0]) == fold_case(name[0]) {
        spelled_within(key.drop_first(), name.drop_first())
    } else {
        spelled_within(key, name.drop_first())
    }
}

/// The key of a joint type spells the type's own name: its words, read
/// without case, are words of the type's name in order (`half_lap` in
/// `HalfLap`, `tongue_groove` in `TongueAndGroove`). So a key names the
/// type it stands for, and parsing a type's key gives back that type.
pub proof fn lemma_joint_key_names_type(t: JointType)
    ensures
        spelled_within(joint_key(t), joint_type_name(t)),
{
    reveal_with_fuel(spelled_within, 25);
    match t {
        JointType::ButtJoint => {
            reveal_strlit("butt");
            reveal_strlit("ButtJoint");
        },
        JointType::MiterJoint => {
            reveal_strlit("miter");
            reveal_strlit("MiterJoint");
        },
        JointType::PocketHole => {
            reveal_strlit("pocket_hole");
            reveal_strlit("PocketHole");
        },
        JointType::Dado => {
            reveal_strlit("dado");
            reveal_strlit("Dado");
        },
        JointType::Rabbet => {
            reveal_strlit("rabbet");
            reveal_strlit("Rabbet");
        },
        JointType::HalfLap => {
            reveal_strlit("half_lap");
            reveal_strlit("HalfLap");
        },
        JointType::CrossLap => {
            reveal_strlit("cross_lap");
            reveal_strlit("CrossLap");
        },
        JointType::MortiseAndTenon => {
            reveal_strlit("mortise_tenon");
            reveal_strlit("MortiseAndTenon");
        },
        JointType::DovetailThrough => {
            reveal_strlit("dovetail_through");
            reveal_strlit("DovetailThrough");
        },
        JointType::DovetailHalfBlind => {
            reveal_strlit("dovetail_half_blind");
            reveal_strlit("DovetailHalfBlind");
        },
        JointType::BoxJoint => {
            reveal_strlit("box_joint");
            reveal_strlit("BoxJoint");
        },
        JointType::FingerJoint => {
            reveal_strlit("finger_joint");
            reveal_strlit("FingerJoint");
        },
        JointType::DowelJoint => {
            reveal_strlit("dowel");
            reveal_strlit("DowelJoint");
        },
        JointType::BiscuitJoint => {
            reveal_strlit("biscuit");
            reveal_strlit("BiscuitJoint");
        },
        JointType::TongueAndGroove => {
            reveal_strlit("tongue_groove");
            reveal_strlit("TongueAndGroove");
        },
        JointType::BridleJoint => {
            reveal_strlit("bridle");
            reveal_strlit("BridleJoint");
        },
    }
}

/// The key by which the user interface names a face.
pub open spec fn face_key(f: JointFace) -> Seq<char> {
    match f {
        JointFace::Front => "front"@,
        JointFace::Back => "back"@,
        JointFace::Top => "top"@,
        JointFace::Bottom => "bottom"@,
        JointFace::Right => "right"@,
        JointFace::Left => "left"@,
    }
}

/// The joint type a user-interface key names, if any.
pub fn parse_joint_type(s: &str) -> (r: Option<JointType>)
    ensures
        r matches Some(t) ==> joint_key(t) == s@,
        r is None ==> forall|t: JointType| joint_key(t) != s@,
{
    if text_eq(s, "butt") {
        return Some(JointType::ButtJoint);
    }
    if text_eq(s, "miter") {
        return Some(JointType::MiterJoint);
    }
    if text_eq(s, "pocket_hole") {
        return Some(JointType::PocketHole);
    }
    if text_eq(s, "dado") {
        return Some(JointType::Dado);
    }
    if text_eq(s, "rabbet") {
        return Some(JointType::Rabbet);
    }
    if text_eq(s, "half_lap") {
        return Some(JointType::HalfLap);
    }
    if text_eq(s, "cross_lap") {
        return Some(JointType::CrossLap);
    }
    if text_eq(s, "mortise_tenon") {
        return Some(JointType::MortiseAndTenon);
    }
    if text_eq(s, "dovetail_through") {
        return Some(JointType::DovetailThrough);
    }
    if text_eq(s, "dovetail_half_blind") {
        return Some(JointType::DovetailHalfBlind);
    }
    if text_eq(s, "box_joint") {
        return Some(JointType::BoxJoint);
    }
    if text_eq(s, "finger_joint") {
        return Some(JointType::FingerJoint);
    }
    if text_eq(s, "dowel") {
        return Some(JointType::DowelJoint);
    }
    if text_eq(s, "biscuit") {
        return Some(JointType::BiscuitJoint);
    }
    if text_eq(s, "tongue_groove") {
        return Some(JointType::TongueAndGroove);
    }
    if text_eq(s, "bridle") {
        return Some(JointType::BridleJoint);
    }
    proof {
        reveal_strlit("butt");
        reveal_strlit("miter");
        reveal_strlit("pocket_hole");
        reveal_strlit("dado");
        reveal_strlit("rabbet");
        reveal_strlit("half_lap");
        reveal_strlit("cross_lap");
        reveal_strlit("mortise_tenon");
        reveal_strlit("dovetail_through");
        reveal_strlit("dovetail_half_blind");
        reveal_strlit("box_joint");
        reveal_strlit("finger_joint");
        reveal_strlit("dowel");
        reveal_strlit("biscuit");
        reveal_strlit("tongue_groove");
        reveal_strlit("bridle");
    }
    assert forall|t: JointType| joint_key(t) != s@ by {
        match t {
            JointType::ButtJoint => {},
            JointType::MiterJoint => {},
            JointType::PocketHole => {},
            JointType::Dado => {},
            JointType::Rabbet => {},
            JointType::HalfLap => {},
            JointType::CrossLap => {},
            JointType::MortiseAndTenon => {},
            JointType::DovetailThrough => {},
            JointType::DovetailHalfBlind => {},
            JointType::BoxJoint => {},
            JointType::FingerJoint => {},
            JointType::DowelJoint => {},
            JointType::BiscuitJoint => {},
            JointType::TongueAndGroove => {},
            JointType::BridleJoint => {},
        }
    }
    None
}

/// The face a user-interface key names, if any.
pub fn parse_face(s: &str) -> (r: Option<JointFace>)
    ensures
        r matches Some(f) ==> face_key(f) == s@,
        r is None ==> forall|f: JointFace| face_key(f) != s@,
{
    if text_eq(s, "front") {
        return Some(JointFace::Front);
    }
    if text_eq(s, "back") {
        return Some(JointFace::Back);
    }
    if text_eq(s, "top") {
        return Some(JointFace::Top);
    }
    if text_eq(s, "bottom") {
        return Some(JointFace::Bottom);
    }
    if text_eq(s, "right") {
        return Some(JointFace::Right);
    }
    if text_eq(s, "left") {
        return Some(JointFace::Left);
    }
    assert forall|f: JointFace| face_key(f) != s@ by {
        match f {
            JointFace::Front => {},
            JointFace::Back => {},
            JointFace::Top => {},
            JointFace::Bottom => {},
            JointFace::Right => {},
            JointFace::Left => {},
        }
    }
    None
}

} // verus!
