//! Cut lists, material lists and build instructions.
use vstd::prelude::*;

use crate::joinery::{joint_type_name, JointType};
use crate::components::{component_groups, linked, lists_classes};
use crate::text::{
    contains_text, decimal, insert_sorted_distinct, occurs_in, push_char, push_decimal, push_text,
    strictly_sorted, string_views, text_eq,
};

verus! {

/// A joint as the output generators see it: its type name, the ids of the
/// two boards it connects, and a description for notes.
pub struct JointInfo {
    pub joint_type: String,
    pub board_a_id: String,
    pub board_b_id: String,
    pub description: String,
}

/// Identical pieces of one material, with their printed dimensions.
pub struct PieceSummary {
    pub label: String,
    pub quantity: u32,
    pub dimensions: String,
}

/// A stock board to buy, with how many and why.
pub struct StockSuggestion {
    pub lumber_label: String,
    pub quantity: u32,
    pub reasoning: String,
}

/// The phases of a build, in the order they happen.
#[derive(Clone, Copy, Debug, PartialEq, Eq, Hash, Structural)]
pub enum BuildPhase {
    Preparation,
    Cutting,
    JoineryPrep,
    SubAssembly,
    FinalAssembly,
    Finishing,
}

/// Display text of each phase.
pub open spec fn phase_text(p: BuildPhase) -> Seq<char> {
    match p {
        BuildPhase::Preparation => "Preparation"@,
        BuildPhase::Cutting => "Cutting"@,
        BuildPhase::JoineryPrep => "Joinery Prep"@,
        BuildPhase::SubAssembly => "Sub-Assembly"@,
        BuildPhase::FinalAssembly => "Final Assembly"@,
        BuildPhase::Finishing => "Finishing"@,
    }
}

/// Position of a phase in the build order.
pub open spec fn phase_rank(p: BuildPhase) -> int {
    match p {
        BuildPhase::Preparation => 0,
        BuildPhase::Cutting => 1,
        BuildPhase::JoineryPrep => 2,
        BuildPhase::SubAssembly => 3,
        BuildPhase::FinalAssembly => 4,
        BuildPhase::Finishing => 5,
    }
}

impl BuildPhase {
    /// The phase's display text.
    pub fn to_string(&self) -> (s: String)
        ensures
            s@ == phase_text(*self),
    {
        match self {
            BuildPhase::Preparation => String::from_str("Preparation"),
            BuildPhase::Cutting => String::from_str("Cutting"),
            BuildPhase::JoineryPrep => String::from_str("Joinery Prep"),
            BuildPhase::SubAssembly => String::from_str("Sub-Assembly"),
            BuildPhase::FinalAssembly => String::from_str("Final Assembly"),
            BuildPhase::Finishing => String::from_str("Finishing"),
        }
    }
}

/// One step of the build instructions.
pub struct BuildStep {
    pub step_number: u32,
    pub phase: BuildPhase,
    pub description: String,
    pub pieces_involved: Vec<String>,
    pub joint_type: Option<String>,
    pub tools_needed: Vec<String>,
    pub tips: Vec<String>,
}

/// Build instructions: the steps, their number, and how many steps each
/// phase that occurs has, in build order.
pub struct BuildInstructions {
    pub steps: Vec<BuildStep>,
    pub total_steps: u32,
    pub estimated_phases: Vec<(BuildPhase, u32)>,
}

/// Bijective base-26 letters for a group index: 0 is `A`, 25 is `Z`, 26 is
/// `AA`, 27 is `AB`, and so on.
pub open spec fn group_letters(n: nat) -> Seq<char>
    decreases n,
{
    if n < 26 {
        seq![(65 + n) as char]
    } else {
        group_letters((n / 26 - 1) as nat).push((65 + n % 26) as char)
    }
}

proof fn lemma_group_letters_shape(n: nat)
    ensures
        group_letters(n).len() >= 1,
        n < 26 <==> group_letters(n).len() == 1,
        group_letters(n).last() == (65 + n % 26) as char,
    decreases n,
{
    if n >= 26 {
        lemma_group_letters_shape((n / 26 - 1) as nat);
    }
}

/// Different groups never get the same letters.
pub proof fn lemma_group_letters_injective(a: nat, b: nat)
    requires
        group_letters(a) == group_letters(b),
    ensures
        a == b,
    decreases a,
{
    lemma_group_letters_shape(a);
    lemma_group_letters_shape(b);
    if a >= 26 && b >= 26 {
        let pa = (a / 26 - 1) as nat;
        let pb = (b / 26 - 1) as nat;
        assert(group_letters(pa) == group_letters(a).drop_last());
        assert(group_letters(pb) == group_letters(b).drop_last());
        lemma_group_letters_injective(pa, pb);
        assert(a % 26 == b % 26);
    }
}

/// Letters for a group index (0 is `A`, 26 is `AA`).
pub fn group_letter(index: usize) -> (s: String)
    ensures
        s@ == group_letters(index as nat),
    decreases index,
{
    let c = ((65 + index % 26) as u8) as char;
    if index < 26 {
        let mut s = String::new();
        push_char(&mut s, c);
        assert(s@ =~= group_letters(index as nat));
        s
    } else {
        let mut s = group_letter(index / 26 - 1);
        push_char(&mut s, c);
        s
    }
}

/// Names whose presence in a joint type marks it as needing preparatory cuts.
pub open spec fn prep_joint_names() -> Seq<Seq<char>> {
    seq!["Dado"@, "Rabbet"@, "Groove"@, "Mortise"@, "Tenon"@, "MortiseAndTenon"@, "HalfLap"@, "CrossLap"@, "BridleJoint"@, "FingerJoint"@, "BoxJoint"@, "Dovetail"@, "SlidingDovetail"@, "ThroughDovetail"@, "HalfBlindDovetail"@, "LockMiter"@, "TonguAndGroove"@, "TongueAndGroove"@]
}

/// Whether a joint type needs preparatory cuts before assembly: its name
/// contains one of `prep_joint_names`.
pub open spec fn needs_joinery_prep(joint_type: Seq<char>) -> bool {
    exists|k: int| 0 <= k < prep_joint_names().len() && occurs_in(joint_type, #[trigger] prep_joint_names()[k])
}

/// The tools of the glued and fastened joints include neither a chisel nor
/// a table saw.
proof fn lemma_glued_tools(t: JointType)
    requires
        t == JointType::ButtJoint || t == JointType::MiterJoint || t == JointType::PocketHole
            || t == JointType::DowelJoint || t == JointType::BiscuitJoint,
    ensures
        !t.spec_tools_needed().contains("chisel"@),
        !t.spec_tools_needed().contains("table saw"@),
{
    reveal_strlit("chisel");
    reveal_strlit("table saw");
    reveal_strlit("saw");
    reveal_strlit("clamps");
    reveal_strlit("wood glue");
    reveal_strlit("miter saw");
    reveal_strlit("pocket hole jig");
    reveal_strlit("drill");
    reveal_strlit("pocket screws");
    reveal_strlit("doweling jig");
    reveal_strlit("dowel pins");
    reveal_strlit("biscuit joiner");
    reveal_strlit("biscuits");
    let tools = t.spec_tools_needed();
    assert(tools.len() == 3);
    assert("chisel"@[1] == 'h' && "chisel"@.len() == 6);
    assert("table saw"@[0] == 't' && "table saw"@.len() == 9);
    assert forall|i: int| 0 <= i < 3 implies #[trigger] tools[i] != "chisel"@ && tools[i] != "table saw"@ by {
        assert(tools[i].len() != 6 || tools[i][1] != 'h');
        assert(tools[i].len() != 9 || tools[i][0] != 't');
    }
}

/// A text does not occur where no position starts with its first three
/// characters.
proof fn lemma_start_absent(hay: Seq<char>, needle: Seq<char>)
    requires
        needle.len() >= 3,
        forall|i: int|
            0 <= i && i + needle.len() <= hay.len() ==> #[trigger] hay[i] != needle[0] || hay[i + 1] != needle[1]
                || hay[i + 2] != needle[2],
    ensures
        !occurs_in(hay, needle),
{
    if occurs_in(hay, needle) {
        let i = choose|i: int| 0 <= i && i + needle.len() <= hay.len() && #[trigger] hay.subrange(i, i + needle.len()) == needle;
        let w = hay.subrange(i, i + needle.len());
        assert(w[0] == hay[i] && w[1] == hay[i + 1] && w[2] == hay[i + 2]);
    }
}

/// Glued and fastened joints need no preparatory cuts: a joint type whose
/// tools include neither a chisel nor a table saw (butt, miter, pocket
/// hole, dowel and biscuit joints) is, by its type name, not one that
/// needs preparation before assembly.
pub proof fn lemma_glued_joints_need_no_prep(t: JointType)
    requires
        !t.spec_tools_needed().contains("chisel"@),
        !t.spec_tools_needed().contains("table saw"@),
    ensures
        !needs_joinery_prep(joint_type_name(t)),
{
    let tools = t.spec_tools_needed();
    match t {
        JointType::ButtJoint | JointType::MiterJoint | JointType::PocketHole | JointType::DowelJoint
        | JointType::BiscuitJoint => {},
        _ => {
            assert(tools[0] == "chisel"@ || tools[0] == "table saw"@ || tools[1] == "chisel"@ || tools[2] == "chisel"@);
        },
    }
    let n = joint_type_name(t);
    let names = prep_joint_names();
    reveal_strlit("ButtJoint");
    reveal_strlit("MiterJoint");
    reveal_strlit("PocketHole");
    reveal_strlit("DowelJoint");
    reveal_strlit("BiscuitJoint");
    reveal_strlit("Dado");
    reveal_strlit("Rabbet");
    reveal_strlit("Groove");
    reveal_strlit("Mortise");
    reveal_strlit("Tenon");
    reveal_strlit("MortiseAndTenon");
    reveal_strlit("HalfLap");
    reveal_strlit("CrossLap");
    reveal_strlit("BridleJoint");
    reveal_strlit("FingerJoint");
    reveal_strlit("BoxJoint");
    reveal_strlit("Dovetail");
    reveal_strlit("SlidingDovetail");
    reveal_strlit("ThroughDovetail");
    reveal_strlit("HalfBlindDovetail");
    reveal_strlit("LockMiter");
    reveal_strlit("TonguAndGroove");
    reveal_strlit("TongueAndGroove");
    assert forall|k: int| 0 <= k < names.len() implies !occurs_in(n, #[trigger] names[k]) by {
        lemma_start_absent(n, names[k]);
    }
}


/// Cut joinery needs preparatory cuts: every joint type whose tools include
/// a chisel or a table saw (mortises, dados, rabbets, laps, dovetails, box
/// and finger joints, tongue and groove, bridles) is, by its type name, a
/// joint that needs preparation before assembly.
pub proof fn lemma_cut_joinery_needs_prep(t: JointType)
    requires
        t.spec_tools_needed().contains("chisel"@) || t.spec_tools_needed().contains("table saw"@),
    ensures
        needs_joinery_prep(joint_type_name(t)),
{
    let names = prep_joint_names();
    let n = joint_type_name(t);
    reveal_strlit("chisel");
    reveal_strlit("table saw");
    reveal_strlit("saw");
    reveal_strlit("clamps");
    reveal_strlit("wood glue");
    reveal_strlit("miter saw");
    reveal_strlit("pocket hole jig");
    reveal_strlit("drill");
    reveal_strlit("pocket screws");
    reveal_strlit("doweling jig");
    reveal_strlit("dowel pins");
    reveal_strlit("biscuit joiner");
    reveal_strlit("biscuits");
    match t {
        JointType::ButtJoint | JointType::MiterJoint | JointType::PocketHole | JointType::DowelJoint
        | JointType::BiscuitJoint => {
            lemma_glued_tools(t);
        },
        JointType::MortiseAndTenon => {
            reveal_strlit("MortiseAndTenon");
            reveal_strlit("Mortise");
            assert(n.subrange(0int, 0int + names[3].len()) =~= names[3]);
            assert(occurs_in(n, names[3]));
        },
        JointType::Dado => {
            reveal_strlit("Dado");
            assert(n.subrange(0int, 0int + names[0].len()) =~= names[0]);
            assert(occurs_in(n, names[0]));
        },
        JointType::Rabbet => {
            reveal_strlit("Rabbet");
            assert(n.subrange(0int, 0int + names[1].len()) =~= names[1]);
            assert(occurs_in(n, names[1]));
        },
        JointType::HalfLap => {
            reveal_strlit("HalfLap");
            assert(n.subrange(0int, 0int + names[6].len()) =~= names[6]);
            assert(occurs_in(n, names[6]));
        },
        JointType::CrossLap => {
            reveal_strlit("CrossLap");
            assert(n.subrange(0int, 0int + names[7].len()) =~= names[7]);
            assert(occurs_in(n, names[7]));
        },
        JointType::DovetailThrough => {
            reveal_strlit("DovetailThrough");
            reveal_strlit("Dovetail");
            assert(n.subrange(0int, 0int + names[11].len()) =~= names[11]);
            assert(occurs_in(n, names[11]));
        },
        JointType::DovetailHalfBlind => {
            reveal_strlit("DovetailHalfBlind");
            reveal_strlit("Dovetail");
            assert(n.subrange(0int, 0int + names[11].len()) =~= names[11]);
            assert(occurs_in(n, names[11]));
        },
        JointType::BoxJoint => {
            reveal_strlit("BoxJoint");
            assert(n.subrange(0int, 0int + names[10].len()) =~= names[10]);
            assert(occurs_in(n, names[10]));
        },
        JointType::FingerJoint => {
            reveal_strlit("FingerJoint");
            assert(n.subrange(0int, 0int + names[9].len()) =~= names[9]);
            assert(occurs_in(n, names[9]));
        },
        JointType::TongueAndGroove => {
            reveal_strlit("TongueAndGroove");
            assert(n.subrange(0int, 0int + names[17].len()) =~= names[17]);
            assert(occurs_in(n, names[17]));
        },
        JointType::BridleJoint => {
            reveal_strlit("BridleJoint");
            assert(n.subrange(0int, 0int + names[8].len()) =~= names[8]);
            assert(occurs_in(n, names[8]));
        },
    }
}

/// Joint types that require preparatory cuts before assembly.
pub fn is_joinery_prep_joint(joint_type: &str) -> (b: bool)
    ensures
        b == needs_joinery_prep(joint_type@),
{
    let prep: Vec<&str> = vec!["Dado", "Rabbet", "Groove", "Mortise", "Tenon", "MortiseAndTenon", "HalfLap", "CrossLap", "BridleJoint", "FingerJoint", "BoxJoint", "Dovetail", "SlidingDovetail", "ThroughDovetail", "HalfBlindDovetail", "LockMiter", "TonguAndGroove", "TongueAndGroove"];
    assert(prep@.map_values(|p: &str| p@) =~= prep_joint_names());
    let mut k: usize = 0;
    while k < prep.len()
        invariant
            prep@.map_values(|p: &str| p@) == prep_joint_names(),
            k <= prep.len(),
            forall|j: int| 0 <= j < k ==> !occurs_in(joint_type@, #[trigger] prep_joint_names()[j]),
        decreases prep.len() - k,
    {
        assert(prep@.map_values(|p: &str| p@)[k as int] == prep@[k as int]@);
        if contains_text(joint_type, prep[k]) {
            return true;
        }
        k = k + 1;
    }
    false
}

/// Tools for a joint type, chosen by the first rule whose name occurs in it.
pub open spec fn joint_tools(joint_type: Seq<char>) -> Seq<Seq<char>> {
    if occurs_in(joint_type, "Dovetail"@) {
        seq!["Dovetail saw"@, "Chisels"@, "Marking gauge"@]
    } else if occurs_in(joint_type, "Mortise"@) || occurs_in(joint_type, "Tenon"@) {
        seq!["Mortising chisel"@, "Drill press or hand drill"@, "Tenon saw"@]
    } else if occurs_in(joint_type, "Dado"@) || occurs_in(joint_type, "Rabbet"@) || occurs_in(joint_type, "Groove"@) {
        seq!["Router or table saw with dado blade"@]
    } else if occurs_in(joint_type, "Miter"@) {
        seq!["Miter saw or miter box"@]
    } else if occurs_in(joint_type, "Lap"@) {
        seq!["Table saw or router"@, "Chisels"@]
    } else if occurs_in(joint_type, "Finger"@) || occurs_in(joint_type, "Box"@) {
        seq!["Table saw with box joint jig"@]
    } else if occurs_in(joint_type, "Biscuit"@) {
        seq!["Biscuit joiner"@]
    } else if occurs_in(joint_type, "Dowel"@) {
        seq!["Doweling jig"@, "Drill"@]
    } else if occurs_in(joint_type, "Pocket"@) {
        seq!["Pocket hole jig"@, "Drill"@]
    } else {
        seq!["Saw"@, "Clamps"@]
    }
}

pub(crate) fn texts(items: Vec<&str>) -> (v: Vec<String>)
    ensures
        v@.map_values(|t: String| t@) == items@.map_values(|t: &str| t@),
{
    let mut v: Vec<String> = Vec::new();
    let mut k: usize = 0;
    while k < items.len()
        invariant
            k <= items.len(),
            v.len() == k,
            forall|j: int| 0 <= j < k ==> #[trigger] v@[j]@ == items@[j]@,
        decreases items.len() - k,
    {
        let t = String::from_str(items[k]);
        v.push(t);
        k = k + 1;
    }
    assert(v@.map_values(|t: String| t@) =~= items@.map_values(|t: &str| t@));
    v
}

/// Tools typically needed for a joint type.
pub fn tools_for_joint(joint_type: &str) -> (tools: Vec<String>)
    ensures
        tools@.map_values(|t: String| t@) == joint_tools(joint_type@),
{
    let items: Vec<&str> = 
    if contains_text(joint_type, "Dovetail") {
        vec!["Dovetail saw", "Chisels", "Marking gauge"]
    } else if contains_text(joint_type, "Mortise") || contains_text(joint_type, "Tenon") {
        vec!["Mortising chisel", "Drill press or hand drill", "Tenon saw"]
    } else if contains_text(joint_type, "Dado") || contains_text(joint_type, "Rabbet") || contains_text(joint_type, "Groove") {
        vec!["Router or table saw with dado blade"]
    } else if contains_text(joint_type, "Miter") {
        vec!["Miter saw or miter box"]
    } else if contains_text(joint_type, "Lap") {
        vec!["Table saw or router", "Chisels"]
    } else if contains_text(joint_type, "Finger") || contains_text(joint_type, "Box") {
        vec!["Table saw with box joint jig"]
    } else if contains_text(joint_type, "Biscuit") {
        vec!["Biscuit joiner"]
    } else if contains_text(joint_type, "Dowel") {
        vec!["Doweling jig", "Drill"]
    } else if contains_text(joint_type, "Pocket") {
        vec!["Pocket hole jig", "Drill"]
    } else {
        vec!["Saw", "Clamps"]
    };
    let tools = texts(items);
    assert(items@.map_values(|t: &str| t@) =~= joint_tools(joint_type@));
    tools
}

/// Index of the last entry of `ids` equal to `s`, if any.
pub open spec fn last_index_of(ids: Seq<Seq<char>>, s: Seq<char>) -> Option<int>
    decreases ids.len(),
{
    if ids.len() == 0 {
        None
    } else if ids.last() == s {
        Some(ids.len() - 1)
    } else {
        last_index_of(ids.drop_last(), s)
    }
}

proof fn lemma_last_index_in_range(ids: Seq<Seq<char>>, s: Seq<char>)
    ensures
        last_index_of(ids, s) matches Some(i) ==> 0 <= i < ids.len() && ids[i] == s,
    decreases ids.len(),
{
    if ids.len() > 0 && ids.last() != s {
        lemma_last_index_in_range(ids.drop_last(), s);
    }
}

/// The board-index edges of the joints whose two boards are both among
/// `ids` (a repeated id stands for its last board), in joint order.
pub open spec fn joint_edges(ids: Seq<Seq<char>>, ends: Seq<(Seq<char>, Seq<char>)>) -> Seq<(usize, usize)>
    decreases ends.len(),
{
    if ends.len() == 0 {
        Seq::empty()
    } else {
        let prev = joint_edges(ids, ends.drop_last());
        match (last_index_of(ids, ends.last().0), last_index_of(ids, ends.last().1)) {
            (Some(a), Some(b)) => prev.push((a as usize, b as usize)),
            _ => prev,
        }
    }
}

/// The texts of a list of ids.
pub open spec fn id_texts(ids: Seq<&str>) -> Seq<Seq<char>> {
    ids.map_values(|t: &str| t@)
}

/// The ids of the boards each joint connects.
pub open spec fn joint_ends(joints: Seq<&JointInfo>) -> Seq<(Seq<char>, Seq<char>)> {
    joints.map_values(|j: &JointInfo| (j.board_a_id@, j.board_b_id@))
}

/// `g` lists, as index groups, the sub-assemblies of the boards `ids` under
/// the joints with ends `ends` (see `lists_classes`).
pub open spec fn assembly_listing(
    ids: Seq<Seq<char>>,
    ends: Seq<(Seq<char>, Seq<char>)>,
    g: Seq<Seq<usize>>,
) -> bool {
    lists_classes(ids.len() as int, |i: int, j: int| linked(joint_edges(ids, ends), i, j), g)
}

fn last_index(ids: &[&str], s: &str) -> (r: Option<usize>)
    ensures
        r matches Some(i) ==> last_index_of(ids@.map_values(|t: &str| t@), s@) == Some(i as int),
        r is None ==> last_index_of(ids@.map_values(|t: &str| t@), s@) is None,
{
    let ghost all = ids@.map_values(|t: &str| t@);
    let mut found: Option<usize> = None;
    let mut k: usize = 0;
    while k < ids.len()
        invariant
            k <= ids@.len(),
            all == ids@.map_values(|t: &str| t@),
            found matches Some(i) ==> last_index_of(all.take(k as int), s@) == Some(i as int),
            found is None ==> last_index_of(all.take(k as int), s@) is None,
        decreases ids.len() - k,
    {
        assert(all.take(k + 1).drop_last() =~= all.take(k as int));
        assert(all.take(k + 1).last() == ids@[k as int]@);
        if text_eq(ids[k], s) {
            found = Some(k);
        }
        k = k + 1;
    }
    assert(all.take(ids@.len() as int) =~= all);
    found
}

/// Finds the sub-assemblies: boards joined directly or through other boards
/// end up in the same group. Each group lists its boards in input order;
/// groups run from smallest to largest, equal sizes by first board.
pub fn find_connected_components<'a>(board_ids: &[&'a str], joints: &[&JointInfo]) -> (groups: Vec<Vec<&'a str>>)
    ensures
        exists|g: Seq<Seq<usize>>| {
            &&& #[trigger] assembly_listing(id_texts(board_ids@), joint_ends(joints@), g)
            &&& groups@.len() == g.len()
            &&& forall|c: int| 0 <= c < g.len() ==> (#[trigger] groups@[c])@.len() == g[c].len()
            &&& forall|c: int, x: int|
                0 <= c < g.len() && 0 <= x < g[c].len() ==> groups@[c]@[x] == board_ids@[#[trigger] g[c][x] as int]
        },
{
    let ghost ids = id_texts(board_ids@);
    let ghost ends = joint_ends(joints@);
    let n = board_ids.len();
    let mut edges: Vec<(usize, usize)> = Vec::new();
    let mut t: usize = 0;
    while t < joints.len()
        invariant
            t <= joints@.len(),
            n == board_ids@.len(),
            ids == board_ids@.map_values(|t: &str| t@),
            ends == joint_ends(joints@),
            edges@ == joint_edges(ids, ends.take(t as int)),
            forall|e: int| 0 <= e < edges@.len() ==> (#[trigger] edges@[e]).0 < n && edges@[e].1 < n,
        decreases joints.len() - t,
    {
        let joint = joints[t];
        let ga = last_index(board_ids, joint.board_a_id.as_str());
        let gb = last_index(board_ids, joint.board_b_id.as_str());
        proof {
            let cur = ends.take(t + 1);
            assert(cur.drop_last() =~= ends.take(t as int));
            assert(cur.last() == (joint.board_a_id@, joint.board_b_id@));
            lemma_last_index_in_range(ids, joint.board_a_id@);
            lemma_last_index_in_range(ids, joint.board_b_id@);
        }
        match (ga, gb) {
            (Some(a), Some(b)) => {
                edges.push((a, b));
            },
            _ => {},
        }
        t = t + 1;
    }
    assert(ends.take(joints@.len() as int) =~= ends);
    let index_groups = component_groups(n, &edges);
    let ghost g = index_groups@.map_values(|v: Vec<usize>| v@);
    let mut groups: Vec<Vec<&'a str>> = Vec::new();
    let mut c: usize = 0;
    while c < index_groups.len()
        invariant
            c <= index_groups@.len(),
            n == board_ids@.len(),
            g == index_groups@.map_values(|v: Vec<usize>| v@),
            forall|c: int, x: int| 0 <= c < g.len() && 0 <= x < g[c].len() ==> #[trigger] g[c][x] < n,
            groups@.len() == c,
            forall|d: int| 0 <= d < c ==> (#[trigger] groups@[d])@.len() == g[d].len(),
            forall|d: int, x: int|
                0 <= d < c && 0 <= x < g[d].len() ==> groups@[d]@[x] == board_ids@[#[trigger] g[d][x] as int],
        decreases index_groups.len() - c,
    {
        let members = &index_groups[c];
        let mut names: Vec<&'a str> = Vec::new();
        let mut x: usize = 0;
        while x < members.len()
            invariant
                x <= members@.len(),
                members@ == g[c as int],
                c < g.len(),
                n == board_ids@.len(),
                forall|x: int| 0 <= x < members@.len() ==> #[trigger] members@[x] < n,
                names@.len() == x,
                forall|y: int| 0 <= y < x ==> names@[y] == board_ids@[#[trigger] members@[y] as int],
            decreases members.len() - x,
        {
            assert(members@[x as int] == g[c as int][x as int]);
            names.push(board_ids[members[x]]);
            x = x + 1;
        }
        groups.push(names);
        c = c + 1;
    }
    assert(assembly_listing(ids, ends, g));
    groups
}

// ========== Cut list ==========

/// A board as the output generators see it. Its width, height and depth are
/// carried, not computed on: they hold IEEE-754 binary64 bit patterns.
pub struct BoardInfo {
    pub node_id: String,
    pub label: String,
    pub width: u64,
    pub height: u64,
    pub depth: u64,
    pub material: String,
    pub grain_direction: String,
}

/// Input of the cut list, material list and build instruction generators.
pub struct CutListInput {
    pub boards: Vec<BoardInfo>,
    pub joints: Vec<JointInfo>,
}

/// One line of the cut list: a group of identical pieces. Length, width and
/// thickness hold binary64 bit patterns.
pub struct CutListEntry {
    pub piece_id: String,
    pub label: String,
    pub material: String,
    pub length: u64,
    pub width: u64,
    pub thickness: u64,
    pub quantity: u32,
    pub grain_direction: String,
    pub joint_notes: Vec<String>,
    pub node_ids: Vec<String>,
}

/// The cut list.
pub struct CutList {
    pub entries: Vec<CutListEntry>,
    pub total_pieces: u32,
    pub total_cuts: u32,
}

/// Boards `i` and `j` are identical pieces: same material, same size (as
/// the integer keys in `sizes`, thousandths of an inch per dimension) and
/// same grain direction.
pub open spec fn same_piece(boards: Seq<BoardInfo>, sizes: Seq<(i64, i64, i64)>, i: int, j: int) -> bool {
    &&& boards[i].material@ == boards[j].material@
    &&& sizes[i] == sizes[j]
    &&& boards[i].grain_direction@ == boards[j].grain_direction@
}

/// Total number of indices in a list of groups.
pub open spec fn total_len(groups: Seq<Seq<usize>>) -> int
    decreases groups.len(),
{
    if groups.len() == 0 {
        0
    } else {
        total_len(groups.drop_last()) + groups.last().len()
    }
}

proof fn lemma_total_len_update(groups: Seq<Seq<usize>>, c: int, x: usize)
    requires
        0 <= c < groups.len(),
    ensures
        total_len(groups.update(c, groups[c].push(x))) == total_len(groups) + 1,
    decreases groups.len(),
{
    let u = groups.update(c, groups[c].push(x));
    if c < groups.len() - 1 {
        assert(u.drop_last() =~= groups.drop_last().update(c, groups[c].push(x)));
        lemma_total_len_update(groups.drop_last(), c, x);
    } else {
        assert(u.drop_last() =~= groups.drop_last());
    }
}

proof fn lemma_total_len_prefix(groups: Seq<Seq<usize>>, c: int)
    requires
        0 <= c <= groups.len(),
    ensures
        0 <= total_len(groups.take(c)) <= total_len(groups),
    decreases groups.len(),
{
    if c < groups.len() {
        lemma_total_len_prefix(groups.drop_last(), c);
        assert(groups.drop_last().take(c) =~= groups.take(c));
    } else {
        assert(groups.take(c) =~= groups);
        if groups.len() > 0 {
            lemma_total_len_prefix(groups.drop_last(), c - 1);
            assert(groups.drop_last().take(c - 1) =~= groups.drop_last());
        }
    }
}

/// `groups` splits indices `0..n` into the classes of `same`, in order of
/// first appearance: each group lists its indices ascending, every index
/// is in exactly one group, indices share a group exactly when `same`
/// holds, and groups are ordered by their first index.
pub open spec fn groups_by_first(
    n: int,
    same: spec_fn(int, int) -> bool,
    groups: Seq<Seq<usize>>,
) -> bool {
    &&& forall|c: int| 0 <= c < groups.len() ==> #[trigger] groups[c].len() > 0
    &&& forall|c: int, x: int, y: int|
        0 <= c < groups.len() && 0 <= x < y < groups[c].len() ==> #[trigger] groups[c][x]
            < #[trigger] groups[c][y]
    &&& forall|c: int, x: int|
        0 <= c < groups.len() && 0 <= x < groups[c].len() ==> #[trigger] groups[c][x] < n
            && same(groups[c][0] as int, groups[c][x] as int)
    &&& forall|c: int, k: int|
        0 <= c < groups.len() && 0 <= k < n && #[trigger] same(groups[c][0] as int, k)
            ==> exists|x: int| 0 <= x < groups[c].len() && #[trigger] groups[c][x] == k
    &&& forall|c: int, d: int|
        0 <= c < d < groups.len() ==> #[trigger] groups[c][0] < #[trigger] groups[d][0] && !same(
            groups[c][0] as int,
            groups[d][0] as int,
        )
    &&& forall|k: int| 0 <= k < n ==> #[trigger] crate::components::in_some_group(groups, k)
    &&& total_len(groups) == n
}

fn same_piece_at(boards: &Vec<BoardInfo>, sizes: &Vec<(i64, i64, i64)>, i: usize, j: usize) -> (r: bool)
    requires
        i < boards@.len(),
        j < boards@.len(),
        sizes@.len() == boards@.len(),
    ensures
        r == same_piece(boards@, sizes@, i as int, j as int),
{
    text_eq(boards[i].material.as_str(), boards[j].material.as_str()) && sizes[i].0 == sizes[j].0
        && sizes[i].1 == sizes[j].1 && sizes[i].2 == sizes[j].2 && text_eq(boards[i].grain_direction.as_str(), boards[j].grain_direction.as_str())
}

fn copy_positions(v: &Vec<usize>) -> (c: Vec<usize>)
    ensures
        c@ == v@,
{
    let mut c: Vec<usize> = Vec::new();
    let mut k: usize = 0;
    while k < v.len()
        invariant
            k <= v.len(),
            c@ == v@.subrange(0, k as int),
        decreases v.len() - k,
    {
        c.push(v[k]);
        k = k + 1;
        assert(c@ =~= v@.subrange(0, k as int));
    }
    assert(v@.subrange(0, v.len() as int) =~= v@);
    c
}

/// Groups identical boards (see `same_piece`) in order of first appearance.
pub fn group_pieces(boards: &Vec<BoardInfo>, sizes: &Vec<(i64, i64, i64)>) -> (groups: Vec<Vec<usize>>)
    requires
        sizes@.len() == boards@.len(),
    ensures
        groups_by_first(
            boards@.len() as int,
            |i: int, j: int| same_piece(boards@, sizes@, i, j),
            groups@.map_values(|g: Vec<usize>| g@),
        ),
{
    let n = boards.len();
    let ghost same = |i: int, j: int| same_piece(boards@, sizes@, i, j);
    let mut groups: Vec<Vec<usize>> = Vec::new();
    let mut i: usize = 0;
    while i < n
        invariant
            n == boards@.len(),
            sizes@.len() == n,
            i <= n,
            same == (|i: int, j: int| same_piece(boards@, sizes@, i, j)),
            ({
                let gs = groups@.map_values(|g: Vec<usize>| g@);
                &&& forall|c: int| 0 <= c < gs.len() ==> #[trigger] gs[c].len() > 0
                &&& forall|c: int, x: int, y: int|
                    0 <= c < gs.len() && 0 <= x < y < gs[c].len() ==> #[trigger] gs[c][x] < #[trigger] gs[c][y]
                &&& forall|c: int, x: int|
                    0 <= c < gs.len() && 0 <= x < gs[c].len() ==> #[trigger] gs[c][x] < i
                        && same(gs[c][0] as int, gs[c][x] as int)
                &&& forall|c: int, k: int|
                    0 <= c < gs.len() && 0 <= k < i && #[trigger] same(gs[c][0] as int, k)
                        ==> exists|x: int| 0 <= x < gs[c].len() && #[trigger] gs[c][x] == k
                &&& forall|c: int, d: int|
                    0 <= c < d < gs.len() ==> #[trigger] gs[c][0] < #[trigger] gs[d][0] && !same(
                        gs[c][0] as int,
                        gs[d][0] as int,
                    )
                &&& forall|k: int| 0 <= k < i ==> #[trigger] crate::components::in_some_group(gs, k)
                &&& total_len(gs) == i
            }),
        decreases n - i,
    {
        let ghost gs = groups@.map_values(|g: Vec<usize>| g@);
        let mut c: usize = 0;
        let mut found = false;
        while c < groups.len()
            invariant
                n == boards@.len(),
                sizes@.len() == n,
                i < n,
                c <= groups@.len(),
                gs == groups@.map_values(|g: Vec<usize>| g@),
                forall|c: int| 0 <= c < gs.len() ==> #[trigger] gs[c].len() > 0,
                forall|c: int, x: int| 0 <= c < gs.len() && 0 <= x < gs[c].len() ==> #[trigger] gs[c][x] < i,
                !found ==> forall|d: int| 0 <= d < c ==> !same_piece(boards@, sizes@, #[trigger] gs[d][0] as int, i as int),
                found ==> c < groups@.len() && same_piece(boards@, sizes@, gs[c as int][0] as int, i as int),
            ensures
                !found ==> c == groups@.len() && forall|d: int| 0 <= d < c ==> !same_piece(boards@, sizes@, #[trigger] gs[d][0] as int, i as int),
                found ==> c < groups@.len() && same_piece(boards@, sizes@, gs[c as int][0] as int, i as int),
            decreases groups.len() - c,
        {
            assert(gs[c as int] == groups@[c as int]@);
            assert(gs[c as int].len() > 0);
            if same_piece_at(boards, sizes, groups[c][0], i) {
                found = true;
                break;
            }
            assert(!same_piece(boards@, sizes@, gs[c as int][0] as int, i as int));
            c = c + 1;
        }
        if found {
            let mut g = copy_positions(&groups[c]);
            g.push(i);
            let ghost old_groups = groups@;
            groups.set(c, g);
            proof {
                let ngs = groups@.map_values(|g: Vec<usize>| g@);
                assert(ngs =~= gs.update(c as int, gs[c as int].push(i)));
                lemma_total_len_update(gs, c as int, i);
                let first = gs[c as int][0] as int;
                assert forall|d: int| 0 <= d < gs.len() && d != c implies !same(#[trigger] gs[d][0] as int, i as int) by {
                    if d < c {
                        assert(gs[d][0] < gs[c as int][0]);
                    } else {
                        assert(gs[c as int][0] < gs[d][0]);
                    }
                }
                assert forall|c2: int, k: int|
                    0 <= c2 < ngs.len() && 0 <= k < i + 1 && #[trigger] same(ngs[c2][0] as int, k)
                        implies exists|x: int| 0 <= x < ngs[c2].len() && #[trigger] ngs[c2][x] == k by {
                    if k == i {
                        if c2 == c {
                            assert(ngs[c2][ngs[c2].len() - 1] == i);
                        } else {
                            assert(ngs[c2][0] == gs[c2][0]);
                        }
                    } else {
                        assert(ngs[c2][0] == gs[c2][0]);
                        let x = choose|x: int| 0 <= x < gs[c2].len() && #[trigger] gs[c2][x] == k;
                        assert(ngs[c2][x] == gs[c2][x]);
                    }
                }
                assert forall|k: int| 0 <= k < i + 1 implies #[trigger] crate::components::in_some_group(ngs, k) by {
                    if k == i {
                        assert(ngs[c as int][ngs[c as int].len() - 1] == i);
                    } else {
                        assert(crate::components::in_some_group(gs, k));
                        let (c2, x) = choose|c2: int, x: int| 0 <= c2 < gs.len() && 0 <= x < gs[c2].len() && #[trigger] gs[c2][x] == k;
                        assert(ngs[c2][x] == gs[c2][x]);
                    }
                }
                assert forall|c2: int, x: int, y: int|
                    0 <= c2 < ngs.len() && 0 <= x < y < ngs[c2].len() implies #[trigger] ngs[c2][x] < #[trigger] ngs[c2][y] by {
                    if c2 == c && y == ngs[c2].len() - 1 {
                        assert(ngs[c2][x] == gs[c2][x]);
                    }
                }
            }
        } else {
            let mut g: Vec<usize> = Vec::new();
            g.push(i);
            groups.push(g);
            proof {
                let ngs = groups@.map_values(|g: Vec<usize>| g@);
                assert(ngs =~= gs.push(seq![i]));
                assert(ngs.drop_last() =~= gs);
                assert forall|k: int| 0 <= k < i + 1 implies #[trigger] crate::components::in_some_group(ngs, k) by {
                    if k == i {
                        assert(ngs[ngs.len() - 1][0] == i);
                    } else {
                        assert(crate::components::in_some_group(gs, k));
                        let (c2, x) = choose|c2: int, x: int| 0 <= c2 < gs.len() && 0 <= x < gs[c2].len() && #[trigger] gs[c2][x] == k;
                        assert(ngs[c2][x] == gs[c2][x]);
                    }
                }
                assert forall|c2: int, k: int|
                    0 <= c2 < ngs.len() && 0 <= k < i + 1 && #[trigger] same(ngs[c2][0] as int, k)
                        implies exists|x: int| 0 <= x < ngs[c2].len() && #[trigger] ngs[c2][x] == k by {
                    if c2 == gs.len() {
                        if k < i {
                            assert(crate::components::in_some_group(gs, k));
                            let (c3, x) = choose|c3: int, x: int| 0 <= c3 < gs.len() && 0 <= x < gs[c3].len() && #[trigger] gs[c3][x] == k;
                            assert(same(gs[c3][0] as int, k));
                            assert(!same(gs[c3][0] as int, i as int));
                        } else {
                            assert(ngs[c2][0] == k);
                        }
                    } else {
                        assert(ngs[c2] == gs[c2]);
                        if k == i {
                            assert(!same(gs[c2][0] as int, i as int));
                        }
                    }
                }
                assert forall|c2: int, d: int|
                    0 <= c2 < d < ngs.len() implies #[trigger] ngs[c2][0] < #[trigger] ngs[d][0] && !same(
                        ngs[c2][0] as int,
                        ngs[d][0] as int,
                    ) by {
                    if d == gs.len() {
                        assert(ngs[c2] == gs[c2]);
                        assert(!same(gs[c2][0] as int, i as int));
                    } else {
                        assert(ngs[c2] == gs[c2] && ngs[d] == gs[d]);
                    }
                }
            }
        }
        i = i + 1;
    }
    groups
}

/// `groups` groups the boards of `boards` into identical pieces (see
/// `same_piece` and `groups_by_first`).
pub open spec fn piece_groups(boards: Seq<BoardInfo>, sizes: Seq<(i64, i64, i64)>, groups: Seq<Seq<usize>>) -> bool {
    groups_by_first(boards.len() as int, |i: int, j: int| same_piece(boards, sizes, i, j), groups)
}

/// Piece id of group `c` with `q` pieces: `A1` for one piece, `A1-A3` for three.
pub open spec fn piece_id_text(c: nat, q: nat) -> Seq<char> {
    if q == 1 {
        group_letters(c) + "1"@
    } else {
        group_letters(c) + "1-"@ + group_letters(c) + decimal(q)
    }
}

/// A joint's note: `type: description`.
pub open spec fn note_text(j: JointInfo) -> Seq<char> {
    j.joint_type@ + ": "@ + j.description@
}

/// The joint involves the board with id `id`.
pub open spec fn touches(j: JointInfo, id: Seq<char>) -> bool {
    j.board_a_id@ == id || j.board_b_id@ == id
}

/// A joint's note tagged with the piece it belongs to: `A2: type: description`.
pub open spec fn tagged_note(letters: Seq<char>, x: int, j: JointInfo) -> Seq<char> {
    letters + decimal((x + 1) as nat) + ": "@ + note_text(j)
}

/// `t` is the tagged note of a board of group `g` and a joint that involves
/// it, taking boards before position `x` and, at `x`, joints before `k`.
pub open spec fn group_note_before(
    boards: Seq<BoardInfo>,
    joints: Seq<JointInfo>,
    g: Seq<usize>,
    letters: Seq<char>,
    x: int,
    k: int,
    t: Seq<char>,
) -> bool {
    exists|x2: int, k2: int|
        0 <= x2 < g.len() && 0 <= k2 < joints.len() && (x2 < x || (x2 == x && k2 < k)) && touches(
            joints[k2],
            boards[g[x2] as int].node_id@,
        ) && t == #[trigger] tagged_note(letters, x2, joints[k2])
}

/// `e` is the cut-list line of group `c`, whose boards are `g`: its piece
/// id, the first board's label, material, grain and size (length from
/// depth, thickness from height), the number of pieces, the tagged notes of
/// every joint involving one of its boards (sorted, without repeats), and
/// the boards' ids.
pub open spec fn cut_entry_for(input: CutListInput, c: int, g: Seq<usize>, e: CutListEntry) -> bool {
    let boards = input.boards@;
    let rep = boards[g[0] as int];
    &&& e.piece_id@ == piece_id_text(c as nat, g.len())
    &&& e.label == rep.label
    &&& e.material == rep.material
    &&& e.grain_direction == rep.grain_direction
    &&& e.length == rep.depth
    &&& e.width == rep.width
    &&& e.thickness == rep.height
    &&& e.quantity == g.len()
    &&& strictly_sorted(string_views(e.joint_notes@))
    &&& forall|t: Seq<char>|
        #[trigger] string_views(e.joint_notes@).contains(t) <==> group_note_before(
            boards,
            input.joints@,
            g,
            group_letters(c as nat),
            g.len() as int,
            0,
            t,
        )
    &&& string_views(e.node_ids@) == g.map_values(|i: usize| boards[i as int].node_id@)
}

fn tagged_note_string(letters: &String, pos: usize, j: &JointInfo) -> (s: String)
    requires
        pos >= 1,
    ensures
        s@ == tagged_note(letters@, pos - 1, *j),
{
    let mut s = String::new();
    push_text(&mut s, letters.as_str());
    push_decimal(&mut s, pos as u64);
    push_text(&mut s, ": ");
    push_text(&mut s, j.joint_type.as_str());
    push_text(&mut s, ": ");
    push_text(&mut s, j.description.as_str());
    assert(s@ =~= tagged_note(letters@, pos - 1, *j));
    s
}

pub(crate) fn piece_id_string(c: usize, letters: &String, quantity: usize) -> (s: String)
    requires
        letters@ == group_letters(c as nat),
        quantity >= 1,
    ensures
        s@ == piece_id_text(c as nat, quantity as nat),
{
    let mut s = String::new();
    push_text(&mut s, letters.as_str());
    if quantity == 1 {
        push_text(&mut s, "1");
    } else {
        push_text(&mut s, "1-");
        push_text(&mut s, letters.as_str());
        push_decimal(&mut s, quantity as u64);
    }
    assert(s@ =~= piece_id_text(c as nat, quantity as nat));
    s
}

fn group_notes(input: &CutListInput, g: &Vec<usize>, letters: &String) -> (notes: Vec<String>)
    requires
        forall|x: int| 0 <= x < g@.len() ==> #[trigger] g@[x] < input.boards@.len(),
    ensures
        strictly_sorted(string_views(notes@)),
        forall|t: Seq<char>|
            #[trigger] string_views(notes@).contains(t) <==> group_note_before(
                input.boards@,
                input.joints@,
                g@,
                letters@,
                g@.len() as int,
                0,
                t,
            ),
{
    let ghost boards = input.boards@;
    let ghost joints = input.joints@;
    let mut notes: Vec<String> = Vec::new();
    let n = g.len();
    let mut x: usize = 0;
    while x < n
        invariant
            boards == input.boards@,
            joints == input.joints@,
            n == g@.len(),
            x <= g@.len(),
            forall|x: int| 0 <= x < g@.len() ==> #[trigger] g@[x] < boards.len(),
            strictly_sorted(string_views(notes@)),
            forall|t: Seq<char>|
                #[trigger] string_views(notes@).contains(t) <==> group_note_before(boards, joints, g@, letters@, x as int, 0, t),
        decreases n - x,
    {
        let board = &input.boards[g[x]];
        let mut k: usize = 0;
        while k < input.joints.len()
            invariant
                boards == input.boards@,
                joints == input.joints@,
                n == g@.len(),
                x < n,
                forall|x: int| 0 <= x < g@.len() ==> #[trigger] g@[x] < boards.len(),
                *board == boards[g@[x as int] as int],
                k <= joints.len(),
                strictly_sorted(string_views(notes@)),
                forall|t: Seq<char>|
                    #[trigger] string_views(notes@).contains(t) <==> group_note_before(boards, joints, g@, letters@, x as int, k as int, t),
            decreases input.joints.len() - k,
        {
            let j = &input.joints[k];
            let hit = text_eq(j.board_a_id.as_str(), board.node_id.as_str()) || text_eq(
                j.board_b_id.as_str(),
                board.node_id.as_str(),
            );
            let ghost before = string_views(notes@);
            let ghost cur = tagged_note(letters@, x as int, joints[k as int]);
            if hit {
                let t = tagged_note_string(letters, x + 1, j);
                insert_sorted_distinct(&mut notes, t);
            }
            proof {
                let after = string_views(notes@);
                assert forall|t: Seq<char>|
                    #[trigger] after.contains(t) <==> group_note_before(boards, joints, g@, letters@, x as int, k + 1, t) by {
                    if hit {
                        assert(after.to_set().contains(t) == after.contains(t));
                        assert(before.to_set().contains(t) == before.contains(t));
                    }
                    if group_note_before(boards, joints, g@, letters@, x as int, k + 1, t) {
                        let (x2, k2) = choose|x2: int, k2: int|
                            0 <= x2 < g@.len() && 0 <= k2 < joints.len() && (x2 < x || (x2 == x && k2 < k + 1)) && touches(
                                joints[k2],
                                boards[g@[x2] as int].node_id@,
                            ) && t == #[trigger] tagged_note(letters@, x2, joints[k2]);
                        if !(x2 == x && k2 == k) {
                            assert(group_note_before(boards, joints, g@, letters@, x as int, k as int, t));
                        }
                    }
                    if hit && t == cur {
                        assert(touches(joints[k as int], boards[g@[x as int] as int].node_id@));
                        assert(group_note_before(boards, joints, g@, letters@, x as int, k + 1, t));
                    }
                    if group_note_before(boards, joints, g@, letters@, x as int, k as int, t) {
                        let (x2, k2) = choose|x2: int, k2: int|
                            0 <= x2 < g@.len() && 0 <= k2 < joints.len() && (x2 < x || (x2 == x && k2 < k)) && touches(
                                joints[k2],
                                boards[g@[x2] as int].node_id@,
                            ) && t == #[trigger] tagged_note(letters@, x2, joints[k2]);
                        assert(group_note_before(boards, joints, g@, letters@, x as int, k + 1, t));
                    }
                }
            }
            k = k + 1;
        }
        proof {
            assert forall|t: Seq<char>|
                group_note_before(boards, joints, g@, letters@, x as int, joints.len() as int, t)
                    <==> group_note_before(boards, joints, g@, letters@, x + 1, 0, t) by {
                if group_note_before(boards, joints, g@, letters@, x + 1, 0, t) {
                    let (x2, k2) = choose|x2: int, k2: int|
                        0 <= x2 < g@.len() && 0 <= k2 < joints.len() && (x2 < x + 1 || (x2 == x + 1 && k2 < 0)) && touches(
                            joints[k2],
                            boards[g@[x2] as int].node_id@,
                        ) && t == #[trigger] tagged_note(letters@, x2, joints[k2]);
                    assert(group_note_before(boards, joints, g@, letters@, x as int, joints.len() as int, t));
                }
                if group_note_before(boards, joints, g@, letters@, x as int, joints.len() as int, t) {
                    let (x2, k2) = choose|x2: int, k2: int|
                        0 <= x2 < g@.len() && 0 <= k2 < joints.len() && (x2 < x || (x2 == x && k2 < joints.len())) && touches(
                            joints[k2],
                            boards[g@[x2] as int].node_id@,
                        ) && t == #[trigger] tagged_note(letters@, x2, joints[k2]);
                    assert(group_note_before(boards, joints, g@, letters@, x + 1, 0, t));
                }
            }
        }
        x = x + 1;
    }
    notes
}


fn group_node_ids(boards: &Vec<BoardInfo>, g: &Vec<usize>) -> (ids: Vec<String>)
    requires
        forall|x: int| 0 <= x < g@.len() ==> #[trigger] g@[x] < boards@.len(),
    ensures
        string_views(ids@) == g@.map_values(|i: usize| boards@[i as int].node_id@),
{
    let mut ids: Vec<String> = Vec::new();
    let mut x: usize = 0;
    while x < g.len()
        invariant
            x <= g@.len(),
            forall|x: int| 0 <= x < g@.len() ==> #[trigger] g@[x] < boards@.len(),
            string_views(ids@) == g@.subrange(0, x as int).map_values(|i: usize| boards@[i as int].node_id@),
        decreases g.len() - x,
    {
        let ghost before = ids@;
        let id = boards[g[x]].node_id.clone();
        ids.push(id);
        proof {
            assert(ids@ == before.push(id));
            assert(string_views(ids@) =~= string_views(before).push(id@));
            assert(g@.subrange(0, x + 1).map_values(|i: usize| boards@[i as int].node_id@) =~= g@.subrange(
                0,
                x as int,
            ).map_values(|i: usize| boards@[i as int].node_id@).push(boards@[g@[x as int] as int].node_id@));
        }
        x = x + 1;
    }
    assert(g@.subrange(0, g@.len() as int) =~= g@);
    ids
}

proof fn lemma_total_len_take_next(groups: Seq<Seq<usize>>, c: int)
    requires
        0 <= c < groups.len(),
    ensures
        total_len(groups.take(c + 1)) == total_len(groups.take(c)) + groups[c].len(),
{
    assert(groups.take(c + 1).drop_last() =~= groups.take(c));
}

/// The cut list groups identical boards only: every board of an entry has
/// the entry's material and grain direction and the size of the entry's
/// other boards, and two boards in different entries differ in material,
/// size or grain direction.
pub proof fn lemma_cut_list_groups_identical(
    input: CutListInput,
    sizes: Seq<(i64, i64, i64)>,
    groups: Seq<Seq<usize>>,
    entries: Seq<CutListEntry>,
)
    requires
        sizes.len() == input.boards@.len(),
        piece_groups(input.boards@, sizes, groups),
        entries.len() == groups.len(),
        forall|c: int| 0 <= c < groups.len() ==> #[trigger] cut_entry_for(input, c, groups[c], entries[c]),
    ensures
        forall|c: int, x: int|
            0 <= c < groups.len() && 0 <= x < groups[c].len() ==> {
                let b = input.boards@[#[trigger] groups[c][x] as int];
                &&& b.grain_direction@ == entries[c].grain_direction@
                &&& b.material@ == entries[c].material@
                &&& sizes[groups[c][x] as int] == sizes[groups[c][0] as int]
            },
        forall|c: int, d: int, x: int, y: int|
            0 <= c < groups.len() && 0 <= d < groups.len() && c != d && 0 <= x < groups[c].len() && 0 <= y
                < groups[d].len() ==> {
                let a = input.boards@[#[trigger] groups[c][x] as int];
                let b = input.boards@[#[trigger] groups[d][y] as int];
                a.material@ != b.material@ || a.grain_direction@ != b.grain_direction@ || sizes[groups[c][x] as int]
                    != sizes[groups[d][y] as int]
            },
{
    let boards = input.boards@;
    assert forall|c: int, x: int| 0 <= c < groups.len() && 0 <= x < groups[c].len() implies {
        let b = boards[#[trigger] groups[c][x] as int];
        &&& b.grain_direction@ == entries[c].grain_direction@
        &&& b.material@ == entries[c].material@
        &&& sizes[groups[c][x] as int] == sizes[groups[c][0] as int]
    } by {
        assert(cut_entry_for(input, c, groups[c], entries[c]));
        assert(groups[c].len() > 0);
        assert(same_piece(boards, sizes, groups[c][0] as int, groups[c][x] as int));
    }
    assert forall|c: int, d: int, x: int, y: int|
        0 <= c < groups.len() && 0 <= d < groups.len() && c != d && 0 <= x < groups[c].len() && 0 <= y
            < groups[d].len() implies {
            let a = boards[#[trigger] groups[c][x] as int];
            let b = boards[#[trigger] groups[d][y] as int];
            a.material@ != b.material@ || a.grain_direction@ != b.grain_direction@ || sizes[groups[c][x] as int]
                != sizes[groups[d][y] as int]
        } by {
        assert(groups[c].len() > 0 && groups[d].len() > 0);
        assert(same_piece(boards, sizes, groups[c][0] as int, groups[c][x] as int));
        assert(same_piece(boards, sizes, groups[d][0] as int, groups[d][y] as int));
        if c < d {
            assert(!same_piece(boards, sizes, groups[c][0] as int, groups[d][0] as int));
        } else {
            assert(!same_piece(boards, sizes, groups[d][0] as int, groups[c][0] as int));
        }
    }
}

/// Generates the cut list: boards are grouped into identical pieces (same
/// material, size key and grain, see `same_piece`) in order of first
/// appearance, and each group becomes one line (see `cut_entry_for`) whose
/// piece ids run `A1`, `A2`, ... with the group's letter. `sizes` holds, for
/// each board, its width, height and depth in thousandths of an inch.
/// Every piece takes one cut to length, so the cut count equals the piece
/// count, which is the number of boards.
pub fn generate_cut_list(input: &CutListInput, sizes: &Vec<(i64, i64, i64)>) -> (cl: CutList)
    requires
        sizes@.len() == input.boards@.len(),
        input.boards@.len() <= u32::MAX,
    ensures
        exists|groups: Seq<Seq<usize>>|
            #[trigger] piece_groups(input.boards@, sizes@, groups) && cl.entries@.len() == groups.len()
                && forall|c: int| 0 <= c < groups.len() ==> #[trigger] cut_entry_for(*input, c, groups[c], cl.entries@[c]),
        cl.total_pieces == input.boards@.len(),
        cl.total_cuts == input.boards@.len(),
{
    let groups = group_pieces(&input.boards, sizes);
    let ghost gs = groups@.map_values(|g: Vec<usize>| g@);
    let ghost n = input.boards@.len();
    let mut entries: Vec<CutListEntry> = Vec::new();
    let mut total_pieces: u32 = 0;
    let mut c: usize = 0;
    while c < groups.len()
        invariant
            gs == groups@.map_values(|g: Vec<usize>| g@),
            piece_groups(input.boards@, sizes@, gs),
            n == input.boards@.len(),
            n <= u32::MAX,
            c <= gs.len(),
            entries@.len() == c,
            total_pieces == total_len(gs.take(c as int)),
            forall|d: int| 0 <= d < c ==> #[trigger] cut_entry_for(*input, d, gs[d], entries@[d]),
        decreases groups.len() - c,
    {
        let g = &groups[c];
        proof {
            lemma_total_len_take_next(gs, c as int);
            lemma_total_len_prefix(gs, c + 1);
            assert(g@ == gs[c as int]);
            assert(g@.len() > 0);
            assert forall|x: int| 0 <= x < g@.len() implies #[trigger] g@[x] < input.boards@.len() by {
                assert(gs[c as int][x] == g@[x]);
            }
        }
        let letters = group_letter(c);
        let quantity = g.len() as u32;
        let rep = &input.boards[g[0]];
        let piece_id = piece_id_string(c, &letters, g.len());
        let joint_notes = group_notes(input, g, &letters);
        let node_ids = group_node_ids(&input.boards, g);
        let entry = CutListEntry {
            piece_id,
            label: rep.label.clone(),
            material: rep.material.clone(),
            length: rep.depth,
            width: rep.width,
            thickness: rep.height,
            quantity,
            grain_direction: rep.grain_direction.clone(),
            joint_notes,
            node_ids,
        };
        assert(cut_entry_for(*input, c as int, gs[c as int], entry));
        entries.push(entry);
        total_pieces = total_pieces + quantity;
        c = c + 1;
    }
    assert(gs.take(gs.len() as int) =~= gs);
    CutList { entries, total_pieces, total_cuts: total_pieces }
}

} // verus!
