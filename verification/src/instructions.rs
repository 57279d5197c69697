//! Build instructions: the ordered steps of turning a design into furniture.
use vstd::prelude::*;

use crate::components::linked;
use crate::output::{
    assembly_listing, find_connected_components, group_letter, group_letters, group_pieces, id_texts,
    is_joinery_prep_joint, joint_edges, joint_ends, joint_tools, needs_joinery_prep, phase_rank,
    piece_groups, piece_id_string, piece_id_text, same_piece, texts, tools_for_joint, BoardInfo,
    BuildInstructions, BuildPhase, BuildStep, CutListInput, JointInfo,
};
use vstd::set_lib::{lemma_int_range, lemma_len_subset, set_int_range};
use crate::text::{decimal, push_decimal, push_text, string_views, text_eq};

verus! {

/// What a step says, apart from its number.
pub struct StepOutline {
    pub phase: BuildPhase,
    pub description: Seq<char>,
    pub pieces: Seq<Seq<char>>,
    pub joint_type: Option<Seq<char>>,
    pub tools: Seq<Seq<char>>,
    pub tips: Seq<Seq<char>>,
}

/// The text of an optional string.
pub open spec fn opt_text(o: Option<String>) -> Option<Seq<char>> {
    match o {
        Some(t) => Some(t@),
        None => None,
    }
}

/// The outline of a step.
pub open spec fn outline(s: BuildStep) -> StepOutline {
    StepOutline {
        phase: s.phase,
        description: s.description@,
        pieces: string_views(s.pieces_involved@),
        joint_type: opt_text(s.joint_type),
        tools: string_views(s.tools_needed@),
        tips: string_views(s.tips@),
    }
}

/// The outlines of a list of steps.
pub open spec fn outlines(steps: Seq<BuildStep>) -> Seq<StepOutline> {
    steps.map_values(|s: BuildStep| outline(s))
}

/// Steps are numbered 1, 2, 3, ... in order.
pub open spec fn numbered(steps: Seq<BuildStep>) -> bool {
    forall|i: int| 0 <= i < steps.len() ==> #[trigger] steps[i].step_number == i + 1
}

/// Lines joined with a newline between each two.
pub open spec fn join_lines(lines: Seq<Seq<char>>) -> Seq<char>
    decreases lines.len(),
{
    if lines.len() == 0 {
        Seq::empty()
    } else if lines.len() == 1 {
        lines[0]
    } else {
        join_lines(lines.drop_last()) + "\n"@ + lines.last()
    }
}

/// The distinct texts of a list, in order of first appearance.
pub open spec fn first_seen(items: Seq<Seq<char>>) -> Seq<Seq<char>>
    decreases items.len(),
{
    if items.len() == 0 {
        Seq::empty()
    } else {
        let prev = first_seen(items.drop_last());
        if prev.contains(items.last()) {
            prev
        } else {
            prev.push(items.last())
        }
    }
}

/// Positions of the entries of `items` equal to `m`, ascending.
pub open spec fn positions_of(items: Seq<Seq<char>>, m: Seq<char>) -> Seq<int>
    decreases items.len(),
{
    if items.len() == 0 {
        Seq::empty()
    } else {
        let prev = positions_of(items.drop_last(), m);
        if items.last() == m {
            prev.push(items.len() - 1)
        } else {
            prev
        }
    }
}

/// Position of the first entry of `ids` equal to `s`, if any.
pub open spec fn first_index_of(ids: Seq<Seq<char>>, s: Seq<char>) -> Option<int>
    decreases ids.len(),
{
    if ids.len() == 0 {
        None
    } else {
        match first_index_of(ids.drop_last(), s) {
            Some(i) => Some(i),
            None => if ids.last() == s {
                Some(ids.len() - 1)
            } else {
                None
            },
        }
    }
}

/// Ids of a list of boards.
pub open spec fn board_ids(boards: Seq<BoardInfo>) -> Seq<Seq<char>> {
    boards.map_values(|b: BoardInfo| b.node_id@)
}

/// Label of the first board with id `id`, or `unknown`.
pub open spec fn label_of(boards: Seq<BoardInfo>, id: Seq<char>) -> Seq<char> {
    match first_index_of(board_ids(boards), id) {
        Some(i) => boards[i].label@,
        None => "unknown"@,
    }
}

/// Material of each cut-list group (that of its first board).
pub open spec fn group_materials(boards: Seq<BoardInfo>, g: Seq<Seq<usize>>) -> Seq<Seq<char>> {
    Seq::new(g.len(), |c: int| boards[g[c][0] as int].material@)
}

/// Piece id of each cut-list group.
pub open spec fn group_piece_ids(g: Seq<Seq<usize>>) -> Seq<Seq<char>> {
    Seq::new(g.len(), |c: int| piece_id_text(c as nat, g[c].len()))
}

/// Line of the cutting step for group `c`: piece id, printed dimensions of
/// its first board, and count, as in `A1: 3/4" x 3-1/2" x 24" (x2)`.
pub open spec fn cut_line(dims: Seq<Seq<char>>, g: Seq<Seq<usize>>, c: int) -> Seq<char> {
    piece_id_text(c as nat, g[c].len()) + ": "@ + dims[g[c][0] as int] + " (x"@ + decimal(g[c].len())
        + ")"@
}

/// The preparation step.
pub open spec fn prep_step(g: Seq<Seq<usize>>) -> StepOutline {
    StepOutline {
        phase: BuildPhase::Preparation,
        description: "Gather all materials and verify dimensions against the cut list."@,
        pieces: group_piece_ids(g),
        joint_type: None,
        tools: seq!["Tape measure"@, "Square"@, "Pencil"@],
        tips: seq![
            "Check all boards for warping, splits, or defects before cutting."@,
            "Mark each board with its piece ID for easy identification."@,
        ],
    }
}

/// The cutting step for the groups of material `m`.
pub open spec fn cutting_step(
    boards: Seq<BoardInfo>,
    dims: Seq<Seq<char>>,
    g: Seq<Seq<usize>>,
    m: Seq<char>,
) -> StepOutline {
    let cs = positions_of(group_materials(boards, g), m);
    StepOutline {
        phase: BuildPhase::Cutting,
        description: "Cut "@ + m + " pieces:\n"@ + join_lines(cs.map_values(|c: int| cut_line(dims, g, c))),
        pieces: cs.map_values(|c: int| piece_id_text(c as nat, g[c].len())),
        joint_type: None,
        tools: seq!["Miter saw or table saw"@, "Tape measure"@],
        tips: seq![
            "Cut slightly long and trim to final dimension for accuracy."@,
            "Group all "@ + m + " cuts together to minimize setup changes."@,
        ],
    }
}

/// One cutting step per material, materials in order of first appearance.
pub open spec fn cutting_steps(boards: Seq<BoardInfo>, dims: Seq<Seq<char>>, g: Seq<Seq<usize>>) -> Seq<StepOutline> {
    first_seen(group_materials(boards, g)).map_values(|m: Seq<char>| cutting_step(boards, dims, g, m))
}

/// The joinery preparation step of a joint.
pub open spec fn joinery_step(boards: Seq<BoardInfo>, j: JointInfo) -> StepOutline {
    StepOutline {
        phase: BuildPhase::JoineryPrep,
        description: "Prepare "@ + j.joint_type@ + " joint between \""@ + label_of(boards, j.board_a_id@)
            + "\" and \""@ + label_of(boards, j.board_b_id@) + "\": "@ + j.description@,
        pieces: seq![j.board_a_id@, j.board_b_id@],
        joint_type: Some(j.joint_type@),
        tools: joint_tools(j.joint_type@),
        tips: seq![
            "Test fit joints before applying glue."@,
            "Use scrap wood for practice cuts when trying a new joint."@,
        ],
    }
}

/// One joinery preparation step per joint that needs preparatory cuts, in
/// joint order.
pub open spec fn joinery_steps(boards: Seq<BoardInfo>, joints: Seq<JointInfo>) -> Seq<StepOutline>
    decreases joints.len(),
{
    if joints.len() == 0 {
        Seq::empty()
    } else {
        let prev = joinery_steps(boards, joints.drop_last());
        if needs_joinery_prep(joints.last().joint_type@) {
            prev.push(joinery_step(boards, joints.last()))
        } else {
            prev
        }
    }
}

/// A joint as an assembly line: `type (a + b)`.
pub open spec fn link_text(j: JointInfo) -> Seq<char> {
    j.joint_type@ + " ("@ + j.board_a_id@ + " + "@ + j.board_b_id@ + ")"@
}

/// Assembly lines of the joints that involve one of the boards `names`.
pub open spec fn unit_links(joints: Seq<JointInfo>, names: Seq<Seq<char>>) -> Seq<Seq<char>>
    decreases joints.len(),
{
    if joints.len() == 0 {
        Seq::empty()
    } else {
        let prev = unit_links(joints.drop_last(), names);
        let j = joints.last();
        if names.contains(j.board_a_id@) || names.contains(j.board_b_id@) {
            prev.push(link_text(j))
        } else {
            prev
        }
    }
}

/// Ids of the boards of one sub-assembly.
pub open spec fn unit_names(boards: Seq<BoardInfo>, unit: Seq<usize>) -> Seq<Seq<char>> {
    unit.map_values(|i: usize| boards[i as int].node_id@)
}

/// The step that assembles sub-unit `c` (numbered from 1 in text).
pub open spec fn unit_step(joints: Seq<JointInfo>, c: int, names: Seq<Seq<char>>) -> StepOutline {
    StepOutline {
        phase: BuildPhase::SubAssembly,
        description: "Assemble sub-unit "@ + decimal((c + 1) as nat) + " ("@ + decimal(names.len())
            + " boards):\n"@ + join_lines(unit_links(joints, names)),
        pieces: names,
        joint_type: None,
        tools: seq!["Clamps"@, "Wood glue"@, "Square"@],
        tips: seq!["Dry-fit all pieces before applying glue."@, "Check for square after clamping."@],
    }
}

/// The step that joins `k` sub-assemblies.
pub open spec fn join_units_step(boards: Seq<BoardInfo>, k: nat) -> StepOutline {
    StepOutline {
        phase: BuildPhase::FinalAssembly,
        description: "Join all "@ + decimal(k) + " sub-assemblies together."@,
        pieces: board_ids(boards),
        joint_type: None,
        tools: seq!["Clamps"@, "Wood glue"@, "Square"@, "Mallet"@],
        tips: seq![
            "Work on a flat surface to ensure the assembly stays true."@,
            "Allow adequate drying time between sub-assembly joins."@,
        ],
    }
}

/// The single assembly step of a design that forms one unit.
pub open spec fn assemble_all_step(boards: Seq<BoardInfo>, joints: Seq<JointInfo>) -> StepOutline {
    StepOutline {
        phase: BuildPhase::FinalAssembly,
        description: "Assemble all pieces:\n"@ + join_lines(joints.map_values(|j: JointInfo| link_text(j))),
        pieces: board_ids(boards),
        joint_type: None,
        tools: seq!["Clamps"@, "Wood glue"@, "Square"@],
        tips: seq!["Dry-fit all pieces before applying glue."@, "Check for square after clamping."@],
    }
}

/// Assembly steps: none without joints; with several sub-assemblies `units`,
/// one step per unit and a final join; otherwise one step for everything.
pub open spec fn assembly_steps(boards: Seq<BoardInfo>, joints: Seq<JointInfo>, units: Seq<Seq<usize>>) -> Seq<StepOutline> {
    if joints.len() == 0 {
        Seq::empty()
    } else if units.len() > 1 {
        Seq::new(units.len(), |c: int| unit_step(joints, c, unit_names(boards, units[c]))).push(
            join_units_step(boards, units.len()),
        )
    } else {
        seq![assemble_all_step(boards, joints)]
    }
}

/// The finishing step.
pub open spec fn finishing_step() -> StepOutline {
    StepOutline {
        phase: BuildPhase::Finishing,
        description: "Sand all surfaces (120, 180, then 220 grit). Apply finish as desired."@,
        pieces: Seq::empty(),
        joint_type: None,
        tools: seq!["Sandpaper (120, 180, 220 grit)"@, "Tack cloth"@, "Brush or applicator"@],
        tips: seq![
            "Sand with the grain to avoid scratches."@,
            "Apply finish in thin, even coats and allow proper drying time between coats."@,
        ],
    }
}

/// All steps of the build plan, given the cut-list groups `g` and the
/// sub-assemblies `units`; none for a design without boards.
pub open spec fn plan_outline(
    input: CutListInput,
    dims: Seq<Seq<char>>,
    g: Seq<Seq<usize>>,
    units: Seq<Seq<usize>>,
    has_finish: bool,
) -> Seq<StepOutline> {
    let boards = input.boards@;
    let joints = input.joints@;
    if boards.len() == 0 {
        Seq::empty()
    } else {
        seq![prep_step(g)] + cutting_steps(boards, dims, g) + joinery_steps(boards, joints)
            + assembly_steps(boards, joints, units) + if has_finish {
            seq![finishing_step()]
        } else {
            Seq::empty()
        }
    }
}

/// Number of steps of phase `p`.
pub open spec fn phase_count(steps: Seq<StepOutline>, p: BuildPhase) -> nat
    decreases steps.len(),
{
    if steps.len() == 0 {
        0
    } else {
        phase_count(steps.drop_last(), p) + if steps.last().phase == p {
            1nat
        } else {
            0nat
        }
    }
}

/// The phases in build order.
pub open spec fn phase_order() -> Seq<BuildPhase> {
    seq![
        BuildPhase::Preparation,
        BuildPhase::Cutting,
        BuildPhase::JoineryPrep,
        BuildPhase::SubAssembly,
        BuildPhase::FinalAssembly,
        BuildPhase::Finishing,
    ]
}

/// Each phase of `phases` that occurs in `steps`, with its step count.
pub open spec fn phase_summary(steps: Seq<StepOutline>, phases: Seq<BuildPhase>) -> Seq<(BuildPhase, nat)>
    decreases phases.len(),
{
    if phases.len() == 0 {
        Seq::empty()
    } else {
        let prev = phase_summary(steps, phases.drop_last());
        let n = phase_count(steps, phases.last());
        if n > 0 {
            prev.push((phases.last(), n))
        } else {
            prev
        }
    }
}


/// Appends a step numbered after the steps before it.
fn push_step(
    steps: &mut Vec<BuildStep>,
    phase: BuildPhase,
    description: String,
    pieces: Vec<String>,
    joint_type: Option<String>,
    tools: Vec<String>,
    tips: Vec<String>,
)
    requires
        numbered(old(steps)@),
        old(steps)@.len() < u32::MAX,
    ensures
        numbered(final(steps)@),
        final(steps)@.len() == old(steps)@.len() + 1,
        outlines(final(steps)@) == outlines(old(steps)@).push(
            (StepOutline {
                phase,
                description: description@,
                pieces: string_views(pieces@),
                joint_type: opt_text(joint_type),
                tools: string_views(tools@),
                tips: string_views(tips@),
            }),
        ),
{
    let step_number = (steps.len() + 1) as u32;
    let step = BuildStep {
        step_number,
        phase,
        description,
        pieces_involved: pieces,
        joint_type,
        tools_needed: tools,
        tips,
    };
    let ghost before = steps@;
    steps.push(step);
    assert(steps@ == before.push(step));
    assert(outlines(steps@) =~= outlines(before).push(outline(step)));
}

/// Lines joined with newlines (see `join_lines`).
fn join_lines_text(lines: &Vec<String>) -> (s: String)
    ensures
        s@ == join_lines(string_views(lines@)),
{
    let mut s = String::new();
    let mut k: usize = 0;
    while k < lines.len()
        invariant
            k <= lines@.len(),
            s@ == join_lines(string_views(lines@).take(k as int)),
        decreases lines.len() - k,
    {
        let ghost prev = string_views(lines@).take(k as int);
        let ghost next = string_views(lines@).take(k + 1);
        assert(next.drop_last() =~= prev);
        if k > 0 {
            push_text(&mut s, "\n");
        }
        push_text(&mut s, lines[k].as_str());
        proof {
            if k == 0 {
                assert(s@ =~= next[0]);
            } else {
                assert(s@ =~= join_lines(prev) + "\n"@ + next.last());
            }
        }
        k = k + 1;
    }
    assert(string_views(lines@).take(lines@.len() as int) =~= string_views(lines@));
    s
}

/// Whether `t` is one of the texts of `v`.
fn has_text(v: &Vec<String>, t: &str) -> (r: bool)
    ensures
        r == string_views(v@).contains(t@),
{
    let mut k: usize = 0;
    while k < v.len()
        invariant
            k <= v@.len(),
            forall|i: int| 0 <= i < k ==> v@[i]@ != t@,
        decreases v.len() - k,
    {
        if text_eq(v[k].as_str(), t) {
            assert(string_views(v@)[k as int] == t@);
            return true;
        }
        k = k + 1;
    }
    assert forall|i: int| 0 <= i < string_views(v@).len() implies string_views(v@)[i] != t@ by {
        assert(v@[i]@ != t@);
    }
    false
}

/// Whether `t` is one of the texts of `v`.
fn has_name(v: &Vec<&str>, t: &str) -> (r: bool)
    ensures
        r == v@.map_values(|s: &str| s@).contains(t@),
{
    let ghost names = v@.map_values(|s: &str| s@);
    let mut k: usize = 0;
    while k < v.len()
        invariant
            k <= v@.len(),
            names == v@.map_values(|s: &str| s@),
            forall|i: int| 0 <= i < k ==> v@[i]@ != t@,
        decreases v.len() - k,
    {
        if text_eq(v[k], t) {
            assert(names[k as int] == t@);
            return true;
        }
        k = k + 1;
    }
    assert forall|i: int| 0 <= i < names.len() implies names[i] != t@ by {
        assert(v@[i]@ != t@);
    }
    false
}

/// Label of the first board with id `id`, or `unknown` (see `label_of`).
fn board_label(boards: &Vec<BoardInfo>, id: &str) -> (s: String)
    ensures
        s@ == label_of(boards@, id@),
{
    let ghost ids = board_ids(boards@);
    let mut k: usize = 0;
    while k < boards.len()
        invariant
            k <= boards@.len(),
            ids == board_ids(boards@),
            first_index_of(ids.take(k as int), id@) is None,
        decreases boards.len() - k,
    {
        assert(ids.take(k + 1).drop_last() =~= ids.take(k as int));
        if text_eq(boards[k].node_id.as_str(), id) {
            proof {
                lemma_first_index_prefix(ids, k + 1);
            }
            return boards[k].label.clone();
        }
        k = k + 1;
    }
    assert(ids.take(boards@.len() as int) =~= ids);
    String::from_str("unknown")
}

/// A first match found in a prefix is the first match of the whole list.
proof fn lemma_first_index_prefix(ids: Seq<Seq<char>>, k: int)
    requires
        0 <= k <= ids.len(),
        first_index_of(ids.take(k), ids[k - 1]) is Some || k == 0,
    ensures
        k > 0 ==> first_index_of(ids, ids[k - 1]) == first_index_of(ids.take(k), ids[k - 1]),
    decreases ids.len(),
{
    if k > 0 && k < ids.len() {
        assert(ids.drop_last().take(k) =~= ids.take(k));
        lemma_first_index_prefix(ids.drop_last(), k);
    } else if k > 0 {
        assert(ids.take(k) =~= ids);
    }
}


/// The list of distinct texts is no longer than the list.
proof fn lemma_first_seen_len(items: Seq<Seq<char>>)
    ensures
        first_seen(items).len() <= items.len(),
    decreases items.len(),
{
    if items.len() > 0 {
        lemma_first_seen_len(items.drop_last());
    }
}

/// Groups are non-empty and name boards among the first `n`.
pub open spec fn groups_within(g: Seq<Seq<usize>>, n: int) -> bool {
    &&& forall|c: int| 0 <= c < g.len() ==> #[trigger] g[c].len() > 0
    &&& forall|c: int, x: int| 0 <= c < g.len() && 0 <= x < g[c].len() ==> #[trigger] g[c][x] < n
}

/// The line of the cutting step for group `c` (see `cut_line`).
fn cut_line_text(dims: &Vec<String>, g: &Vec<Vec<usize>>, c: usize, piece_id: &String) -> (s: String)
    requires
        c < g@.len(),
        g@[c as int]@.len() > 0,
        g@[c as int]@[0] < dims@.len(),
        piece_id@ == piece_id_text(c as nat, g@[c as int]@.len()),
    ensures
        s@ == cut_line(string_views(dims@), g@.map_values(|v: Vec<usize>| v@), c as int),
{
    let ghost gs = g@.map_values(|v: Vec<usize>| v@);
    let mut s = piece_id.clone();
    push_text(&mut s, ": ");
    push_text(&mut s, dims[g[c][0]].as_str());
    push_text(&mut s, " (x");
    push_decimal(&mut s, g[c].len() as u64);
    push_text(&mut s, ")");
    assert(gs[c as int] == g@[c as int]@);
    assert(s@ =~= cut_line(string_views(dims@), gs, c as int));
    s
}

/// The cutting step for the groups of material `m` (see `cutting_step`).
fn cutting_step_for(
    steps: &mut Vec<BuildStep>,
    boards: &Vec<BoardInfo>,
    dims: &Vec<String>,
    g: &Vec<Vec<usize>>,
    mats: &Vec<String>,
    m: &String,
)
    requires
        numbered(old(steps)@),
        old(steps)@.len() < u32::MAX,
        dims@.len() == boards@.len(),
        groups_within(g@.map_values(|v: Vec<usize>| v@), boards@.len() as int),
        string_views(mats@) == group_materials(boards@, g@.map_values(|v: Vec<usize>| v@)),
    ensures
        numbered(final(steps)@),
        final(steps)@.len() == old(steps)@.len() + 1,
        outlines(final(steps)@) == outlines(old(steps)@).push(
            cutting_step(boards@, string_views(dims@), g@.map_values(|v: Vec<usize>| v@), m@),
        ),
{
    let ghost gs = g@.map_values(|v: Vec<usize>| v@);
    let ghost dv = string_views(dims@);
    let ghost mv = string_views(mats@);
    let mut pids: Vec<String> = Vec::new();
    let mut lines: Vec<String> = Vec::new();
    let mut c: usize = 0;
    while c < g.len()
        invariant
            c <= g@.len(),
            gs == g@.map_values(|v: Vec<usize>| v@),
            dv == string_views(dims@),
            mv == string_views(mats@),
            mv.len() == g@.len(),
            dims@.len() == boards@.len(),
            groups_within(gs, boards@.len() as int),
            string_views(pids@) == positions_of(mv.take(c as int), m@).map_values(
                |c: int| piece_id_text(c as nat, gs[c].len()),
            ),
            string_views(lines@) == positions_of(mv.take(c as int), m@).map_values(|c: int| cut_line(dv, gs, c)),
        decreases g.len() - c,
    {
        assert(mv.take(c + 1).drop_last() =~= mv.take(c as int));
        assert(mv.take(c + 1).last() == mats@[c as int]@);
        let ghost prev = positions_of(mv.take(c as int), m@);
        if text_eq(mats[c].as_str(), m.as_str()) {
            assert(gs[c as int] == g@[c as int]@);
            assert(gs[c as int].len() > 0);
            assert(gs[c as int][0] < boards@.len());
            let letters = group_letter(c);
            let pid = piece_id_string(c, &letters, g[c].len());
            let line = cut_line_text(dims, g, c, &pid);
            let ghost pids0 = pids@;
            let ghost lines0 = lines@;
            pids.push(pid);
            lines.push(line);
            proof {
                assert(positions_of(mv.take(c + 1), m@) == prev.push(c as int));
                assert(string_views(pids@) =~= string_views(pids0).push(pid@));
                assert(string_views(lines@) =~= string_views(lines0).push(line@));
                assert(prev.push(c as int).map_values(|c: int| piece_id_text(c as nat, gs[c].len())) =~= prev.map_values(
                    |c: int| piece_id_text(c as nat, gs[c].len()),
                ).push(piece_id_text(c as nat, gs[c as int].len())));
                assert(prev.push(c as int).map_values(|c: int| cut_line(dv, gs, c)) =~= prev.map_values(
                    |c: int| cut_line(dv, gs, c),
                ).push(cut_line(dv, gs, c as int)));
            }
        }
        c = c + 1;
    }
    assert(mv.take(g@.len() as int) =~= mv);
    assert(mv =~= group_materials(boards@, gs));
    let mut description = String::from_str("Cut ");
    push_text(&mut description, m.as_str());
    push_text(&mut description, " pieces:\n");
    let joined = join_lines_text(&lines);
    push_text(&mut description, joined.as_str());
    let mut group_tip = String::from_str("Group all ");
    push_text(&mut group_tip, m.as_str());
    push_text(&mut group_tip, " cuts together to minimize setup changes.");
    let mut tips: Vec<String> = Vec::new();
    tips.push(String::from_str("Cut slightly long and trim to final dimension for accuracy."));
    tips.push(group_tip);
    let tools = texts(vec!["Miter saw or table saw", "Tape measure"]);
    let ghost cs = positions_of(mv, m@);
    proof {
        let want = cutting_step(boards@, dv, gs, m@);
        assert(description@ =~= want.description);
        assert(string_views(tips@) =~= want.tips);
        assert(string_views(tools@) =~= want.tools);
    }
    push_step(steps, BuildPhase::Cutting, description, pids, None, tools, tips);
}

/// Appends the cutting steps (see `cutting_steps`).
fn add_cutting_steps(steps: &mut Vec<BuildStep>, boards: &Vec<BoardInfo>, dims: &Vec<String>, g: &Vec<Vec<usize>>)
    requires
        numbered(old(steps)@),
        old(steps)@.len() + g@.len() < u32::MAX,
        dims@.len() == boards@.len(),
        groups_within(g@.map_values(|v: Vec<usize>| v@), boards@.len() as int),
    ensures
        numbered(final(steps)@),
        outlines(final(steps)@) == outlines(old(steps)@) + cutting_steps(
            boards@,
            string_views(dims@),
            g@.map_values(|v: Vec<usize>| v@),
        ),
        final(steps)@.len() <= old(steps)@.len() + g@.len(),
{
    let ghost gs = g@.map_values(|v: Vec<usize>| v@);
    let ghost all = group_materials(boards@, gs);
    let mut mats: Vec<String> = Vec::new();
    let mut order: Vec<String> = Vec::new();
    let mut c: usize = 0;
    while c < g.len()
        invariant
            c <= g@.len(),
            gs == g@.map_values(|v: Vec<usize>| v@),
            all == group_materials(boards@, gs),
            groups_within(gs, boards@.len() as int),
            string_views(mats@) == all.take(c as int),
            string_views(order@) == first_seen(all.take(c as int)),
        decreases g.len() - c,
    {
        assert(gs[c as int] == g@[c as int]@);
        assert(gs[c as int].len() > 0);
        let m = boards[g[c][0]].material.clone();
        assert(all.take(c + 1).drop_last() =~= all.take(c as int));
        assert(all.take(c + 1).last() == m@);
        if !has_text(&order, m.as_str()) {
            let ghost order0 = order@;
            order.push(m.clone());
            assert(string_views(order@) =~= string_views(order0).push(m@));
        }
        let ghost mats0 = mats@;
        mats.push(m);
        assert(string_views(mats@) =~= string_views(mats0).push(all[c as int]));
        assert(all.take(c as int).push(all[c as int]) =~= all.take(c + 1));
        c = c + 1;
    }
    assert(all.take(g@.len() as int) =~= all);
    proof {
        lemma_first_seen_len(all);
    }
    let ghost order_v = string_views(order@);
    let ghost start = outlines(steps@);
    let ghost dv = string_views(dims@);
    let mut o: usize = 0;
    while o < order.len()
        invariant
            o <= order@.len(),
            order_v == string_views(order@),
            order_v == first_seen(all),
            order_v.len() <= g@.len(),
            gs == g@.map_values(|v: Vec<usize>| v@),
            all == group_materials(boards@, gs),
            string_views(mats@) == all,
            groups_within(gs, boards@.len() as int),
            dims@.len() == boards@.len(),
            dv == string_views(dims@),
            numbered(steps@),
            steps@.len() == old(steps)@.len() + o,
            old(steps)@.len() + g@.len() < u32::MAX,
            start == outlines(old(steps)@),
            outlines(steps@) == start + order_v.take(o as int).map_values(
                |m: Seq<char>| cutting_step(boards@, dv, gs, m),
            ),
        decreases order.len() - o,
    {
        let ghost before = outlines(steps@);
        cutting_step_for(steps, boards, dims, g, &mats, &order[o]);
        proof {
            assert(order@[o as int]@ == order_v[o as int]);
            assert(order_v.take(o + 1).map_values(|m: Seq<char>| cutting_step(boards@, dv, gs, m)) =~= order_v.take(
                o as int,
            ).map_values(|m: Seq<char>| cutting_step(boards@, dv, gs, m)).push(
                cutting_step(boards@, dv, gs, order_v[o as int]),
            ));
            assert(outlines(steps@) =~= start + order_v.take(o + 1).map_values(
                |m: Seq<char>| cutting_step(boards@, dv, gs, m),
            ));
        }
        o = o + 1;
    }
    assert(order_v.take(order_v.len() as int) =~= order_v);
}


/// Appends the joinery preparation steps (see `joinery_steps`).
fn add_joinery_steps(steps: &mut Vec<BuildStep>, boards: &Vec<BoardInfo>, joints: &Vec<JointInfo>)
    requires
        numbered(old(steps)@),
        old(steps)@.len() + joints@.len() < u32::MAX,
    ensures
        numbered(final(steps)@),
        outlines(final(steps)@) == outlines(old(steps)@) + joinery_steps(boards@, joints@),
        final(steps)@.len() <= old(steps)@.len() + joints@.len(),
{
    let ghost start = outlines(steps@);
    let mut k: usize = 0;
    while k < joints.len()
        invariant
            k <= joints@.len(),
            numbered(steps@),
            old(steps)@.len() + joints@.len() < u32::MAX,
            steps@.len() <= old(steps)@.len() + k,
            start == outlines(old(steps)@),
            outlines(steps@) == start + joinery_steps(boards@, joints@.take(k as int)),
        decreases joints.len() - k,
    {
        let j = &joints[k];
        assert(joints@.take(k + 1).drop_last() =~= joints@.take(k as int));
        assert(joints@.take(k + 1).last() == *j);
        if is_joinery_prep_joint(j.joint_type.as_str()) {
            let label_a = board_label(boards, j.board_a_id.as_str());
            let label_b = board_label(boards, j.board_b_id.as_str());
            let mut description = String::from_str("Prepare ");
            push_text(&mut description, j.joint_type.as_str());
            push_text(&mut description, " joint between \"");
            push_text(&mut description, label_a.as_str());
            push_text(&mut description, "\" and \"");
            push_text(&mut description, label_b.as_str());
            push_text(&mut description, "\": ");
            push_text(&mut description, j.description.as_str());
            let mut pieces: Vec<String> = Vec::new();
            pieces.push(j.board_a_id.clone());
            pieces.push(j.board_b_id.clone());
            let tools = tools_for_joint(j.joint_type.as_str());
            let tips = texts(
                vec!["Test fit joints before applying glue.", "Use scrap wood for practice cuts when trying a new joint."],
            );
            proof {
                let want = joinery_step(boards@, *j);
                assert(description@ =~= want.description);
                assert(string_views(pieces@) =~= want.pieces);
                assert(string_views(tools@) =~= want.tools);
                assert(string_views(tips@) =~= want.tips);
            }
            let ghost before = outlines(steps@);
            push_step(steps, BuildPhase::JoineryPrep, description, pieces, Some(j.joint_type.clone()), tools, tips);
            assert(outlines(steps@) =~= start + joinery_steps(boards@, joints@.take(k + 1)));
        }
        k = k + 1;
    }
    assert(joints@.take(joints@.len() as int) =~= joints@);
}

/// The assembly text of a joint (see `link_text`).
fn link_line(j: &JointInfo) -> (s: String)
    ensures
        s@ == link_text(*j),
{
    let mut s = j.joint_type.clone();
    push_text(&mut s, " (");
    push_text(&mut s, j.board_a_id.as_str());
    push_text(&mut s, " + ");
    push_text(&mut s, j.board_b_id.as_str());
    push_text(&mut s, ")");
    assert(s@ =~= link_text(*j));
    s
}

/// The ids of all boards.
fn all_board_ids(boards: &Vec<BoardInfo>) -> (ids: Vec<String>)
    ensures
        string_views(ids@) == board_ids(boards@),
{
    let mut ids: Vec<String> = Vec::new();
    let mut k: usize = 0;
    while k < boards.len()
        invariant
            k <= boards@.len(),
            string_views(ids@) == board_ids(boards@).take(k as int),
        decreases boards.len() - k,
    {
        let ghost ids0 = ids@;
        let id = boards[k].node_id.clone();
        ids.push(id);
        assert(string_views(ids@) =~= string_views(ids0).push(id@));
        assert(board_ids(boards@).take(k + 1) =~= board_ids(boards@).take(k as int).push(id@));
        k = k + 1;
    }
    assert(board_ids(boards@).take(boards@.len() as int) =~= board_ids(boards@));
    ids
}

/// The step that assembles one sub-unit (see `unit_step`).
fn unit_step_for(steps: &mut Vec<BuildStep>, joints: &Vec<JointInfo>, c: usize, unit: &Vec<&str>)
    requires
        numbered(old(steps)@),
        old(steps)@.len() < u32::MAX,
        c < u64::MAX,
    ensures
        numbered(final(steps)@),
        final(steps)@.len() == old(steps)@.len() + 1,
        outlines(final(steps)@) == outlines(old(steps)@).push(
            unit_step(joints@, c as int, unit@.map_values(|s: &str| s@)),
        ),
{
    let ghost names = unit@.map_values(|s: &str| s@);
    let mut pieces: Vec<String> = Vec::new();
    let mut x: usize = 0;
    while x < unit.len()
        invariant
            x <= unit@.len(),
            names == unit@.map_values(|s: &str| s@),
            string_views(pieces@) == names.take(x as int),
        decreases unit.len() - x,
    {
        let ghost p0 = pieces@;
        let t = String::from_str(unit[x]);
        pieces.push(t);
        assert(string_views(pieces@) =~= string_views(p0).push(t@));
        assert(names.take(x + 1) =~= names.take(x as int).push(names[x as int]));
        x = x + 1;
    }
    assert(names.take(names.len() as int) =~= names);
    let mut links: Vec<String> = Vec::new();
    let mut k: usize = 0;
    while k < joints.len()
        invariant
            k <= joints@.len(),
            names == unit@.map_values(|s: &str| s@),
            string_views(links@) == unit_links(joints@.take(k as int), names),
        decreases joints.len() - k,
    {
        let j = &joints[k];
        assert(joints@.take(k + 1).drop_last() =~= joints@.take(k as int));
        assert(joints@.take(k + 1).last() == *j);
        if has_name(unit, j.board_a_id.as_str()) || has_name(unit, j.board_b_id.as_str()) {
            let ghost l0 = links@;
            let line = link_line(j);
            links.push(line);
            assert(string_views(links@) =~= string_views(l0).push(line@));
        }
        k = k + 1;
    }
    assert(joints@.take(joints@.len() as int) =~= joints@);
    let mut description = String::from_str("Assemble sub-unit ");
    push_decimal(&mut description, (c as u64) + 1);
    push_text(&mut description, " (");
    push_decimal(&mut description, unit.len() as u64);
    push_text(&mut description, " boards):\n");
    let joined = join_lines_text(&links);
    push_text(&mut description, joined.as_str());
    let tools = texts(vec!["Clamps", "Wood glue", "Square"]);
    let tips = texts(vec!["Dry-fit all pieces before applying glue.", "Check for square after clamping."]);
    proof {
        let want = unit_step(joints@, c as int, names);
        assert(description@ =~= want.description);
        assert(string_views(tools@) =~= want.tools);
        assert(string_views(tips@) =~= want.tips);
    }
    push_step(steps, BuildPhase::SubAssembly, description, pieces, None, tools, tips);
}

/// The final step that joins `k` sub-assemblies (see `join_units_step`).
fn join_units_step_for(steps: &mut Vec<BuildStep>, boards: &Vec<BoardInfo>, k: usize)
    requires
        numbered(old(steps)@),
        old(steps)@.len() < u32::MAX,
    ensures
        numbered(final(steps)@),
        final(steps)@.len() == old(steps)@.len() + 1,
        outlines(final(steps)@) == outlines(old(steps)@).push(join_units_step(boards@, k as nat)),
{
    let mut description = String::from_str("Join all ");
    push_decimal(&mut description, k as u64);
    push_text(&mut description, " sub-assemblies together.");
    let pieces = all_board_ids(boards);
    let tools = texts(vec!["Clamps", "Wood glue", "Square", "Mallet"]);
    let tips = texts(
        vec!["Work on a flat surface to ensure the assembly stays true.", "Allow adequate drying time between sub-assembly joins."],
    );
    proof {
        let want = join_units_step(boards@, k as nat);
        assert(description@ =~= want.description);
        assert(string_views(tools@) =~= want.tools);
        assert(string_views(tips@) =~= want.tips);
    }
    push_step(steps, BuildPhase::FinalAssembly, description, pieces, None, tools, tips);
}

/// The single assembly step (see `assemble_all_step`).
fn assemble_all_step_for(steps: &mut Vec<BuildStep>, boards: &Vec<BoardInfo>, joints: &Vec<JointInfo>)
    requires
        numbered(old(steps)@),
        old(steps)@.len() < u32::MAX,
    ensures
        numbered(final(steps)@),
        final(steps)@.len() == old(steps)@.len() + 1,
        outlines(final(steps)@) == outlines(old(steps)@).push(assemble_all_step(boards@, joints@)),
{
    let ghost all = joints@.map_values(|j: JointInfo| link_text(j));
    let mut links: Vec<String> = Vec::new();
    let mut k: usize = 0;
    while k < joints.len()
        invariant
            k <= joints@.len(),
            all == joints@.map_values(|j: JointInfo| link_text(j)),
            string_views(links@) == all.take(k as int),
        decreases joints.len() - k,
    {
        let ghost l0 = links@;
        let line = link_line(&joints[k]);
        links.push(line);
        assert(string_views(links@) =~= string_views(l0).push(line@));
        assert(all.take(k + 1) =~= all.take(k as int).push(all[k as int]));
        k = k + 1;
    }
    assert(all.take(all.len() as int) =~= all);
    let mut description = String::from_str("Assemble all pieces:\n");
    let joined = join_lines_text(&links);
    push_text(&mut description, joined.as_str());
    let pieces = all_board_ids(boards);
    let tools = texts(vec!["Clamps", "Wood glue", "Square"]);
    let tips = texts(vec!["Dry-fit all pieces before applying glue.", "Check for square after clamping."]);
    proof {
        let want = assemble_all_step(boards@, joints@);
        assert(description@ =~= want.description);
        assert(string_views(tools@) =~= want.tools);
        assert(string_views(tips@) =~= want.tips);
    }
    push_step(steps, BuildPhase::FinalAssembly, description, pieces, None, tools, tips);
}

/// The finishing step (see `finishing_step`).
fn finishing_step_for(steps: &mut Vec<BuildStep>)
    requires
        numbered(old(steps)@),
        old(steps)@.len() < u32::MAX,
    ensures
        numbered(final(steps)@),
        final(steps)@.len() == old(steps)@.len() + 1,
        outlines(final(steps)@) == outlines(old(steps)@).push(finishing_step()),
{
    let description = String::from_str("Sand all surfaces (120, 180, then 220 grit). Apply finish as desired.");
    let tools = texts(vec!["Sandpaper (120, 180, 220 grit)", "Tack cloth", "Brush or applicator"]);
    let tips = texts(
        vec![
            "Sand with the grain to avoid scratches.",
            "Apply finish in thin, even coats and allow proper drying time between coats.",
        ],
    );
    let pieces: Vec<String> = Vec::new();
    proof {
        let want = finishing_step();
        assert(string_views(pieces@) =~= want.pieces);
        assert(string_views(tools@) =~= want.tools);
        assert(string_views(tips@) =~= want.tips);
    }
    push_step(steps, BuildPhase::Finishing, description, pieces, None, tools, tips);
}


/// Number of steps of phase `p` (see `phase_count`).
fn count_phase(steps: &Vec<BuildStep>, p: BuildPhase) -> (n: u32)
    requires
        steps@.len() <= u32::MAX,
    ensures
        n == phase_count(outlines(steps@), p),
{
    let ghost all = outlines(steps@);
    let mut n: u32 = 0;
    let mut k: usize = 0;
    while k < steps.len()
        invariant
            k <= steps@.len(),
            steps@.len() <= u32::MAX,
            all == outlines(steps@),
            n <= k,
            n == phase_count(all.take(k as int), p),
        decreases steps.len() - k,
    {
        assert(all.take(k + 1).drop_last() =~= all.take(k as int));
        assert(all.take(k + 1).last() == outline(steps@[k as int]));
        if steps[k].phase == p {
            n = n + 1;
        }
        k = k + 1;
    }
    assert(all.take(steps@.len() as int) =~= all);
    n
}

/// Each phase that occurs, with its step count, in build order (see
/// `phase_summary`).
fn summarize_phases(steps: &Vec<BuildStep>) -> (summary: Vec<(BuildPhase, u32)>)
    requires
        steps@.len() <= u32::MAX,
    ensures
        summary@.map_values(|e: (BuildPhase, u32)| (e.0, e.1 as nat)) == phase_summary(
            outlines(steps@),
            phase_order(),
        ),
{
    let phases: Vec<BuildPhase> = vec![
        BuildPhase::Preparation,
        BuildPhase::Cutting,
        BuildPhase::JoineryPrep,
        BuildPhase::SubAssembly,
        BuildPhase::FinalAssembly,
        BuildPhase::Finishing,
    ];
    assert(phases@ =~= phase_order());
    let ghost all = outlines(steps@);
    let mut summary: Vec<(BuildPhase, u32)> = Vec::new();
    let mut k: usize = 0;
    while k < phases.len()
        invariant
            k <= phases@.len(),
            phases@ == phase_order(),
            steps@.len() <= u32::MAX,
            all == outlines(steps@),
            summary@.map_values(|e: (BuildPhase, u32)| (e.0, e.1 as nat)) == phase_summary(all, phases@.take(k as int)),
        decreases phases.len() - k,
    {
        let p = phases[k];
        assert(phases@.take(k + 1).drop_last() =~= phases@.take(k as int));
        assert(phases@.take(k + 1).last() == p);
        let n = count_phase(steps, p);
        if n > 0 {
            let ghost s0 = summary@;
            summary.push((p, n));
            assert(summary@.map_values(|e: (BuildPhase, u32)| (e.0, e.1 as nat)) =~= s0.map_values(
                |e: (BuildPhase, u32)| (e.0, e.1 as nat),
            ).push((p, n as nat)));
        }
        k = k + 1;
    }
    assert(phases@.take(phases@.len() as int) =~= phases@);
    summary
}

/// Non-empty groups over `0..n` whose first entries are pairwise
/// different number at most `n`.
proof fn lemma_distinct_firsts(n: int, groups: Seq<Seq<usize>>)
    requires
        0 <= n,
        forall|c: int| 0 <= c < groups.len() ==> #[trigger] groups[c].len() > 0 && groups[c][0] < n,
        forall|c: int, d: int|
            0 <= c < groups.len() && 0 <= d < groups.len() && c != d ==> #[trigger] groups[c][0]
                != #[trigger] groups[d][0],
    ensures
        groups.len() <= n,
{
    let firsts = Seq::new(groups.len(), |c: int| groups[c][0] as int);
    assert forall|c: int, d: int| 0 <= c < firsts.len() && 0 <= d < firsts.len() && c != d implies firsts[c]
        != firsts[d] by {
        assert(groups[c][0] != groups[d][0]);
    }
    assert(firsts.no_duplicates());
    firsts.unique_seq_to_set();
    assert forall|v: int| firsts.to_set().contains(v) implies set_int_range(0, n).contains(v) by {
        let c = choose|c: int| 0 <= c < firsts.len() && firsts[c] == v;
        assert(groups[c].len() > 0);
    }
    lemma_int_range(0, n);
    lemma_len_subset(firsts.to_set(), set_int_range(0, n));
}

/// Appends the assembly steps (see `assembly_steps`) for the sub-assemblies
/// `units`, given as board ids and, in `ug`, as board indices.
fn add_assembly_steps(
    steps: &mut Vec<BuildStep>,
    boards: &Vec<BoardInfo>,
    joints: &Vec<JointInfo>,
    units: &Vec<Vec<&str>>,
    Ghost(ug): Ghost<Seq<Seq<usize>>>,
)
    requires
        numbered(old(steps)@),
        old(steps)@.len() + units@.len() + 1 < u32::MAX,
        joints@.len() > 0,
        units@.len() == ug.len(),
        forall|c: int|
            0 <= c < ug.len() ==> (#[trigger] units@[c])@.map_values(|s: &str| s@) == unit_names(boards@, ug[c]),
    ensures
        numbered(final(steps)@),
        outlines(final(steps)@) == outlines(old(steps)@) + assembly_steps(boards@, joints@, ug),
        final(steps)@.len() <= old(steps)@.len() + units@.len() + 1,
{
    let ghost start = outlines(steps@);
    if units.len() > 1 {
        let mut u: usize = 0;
        while u < units.len()
            invariant
                u <= units@.len(),
                numbered(steps@),
                units@.len() == ug.len(),
                forall|c: int|
                    0 <= c < ug.len() ==> (#[trigger] units@[c])@.map_values(|s: &str| s@) == unit_names(
                        boards@,
                        ug[c],
                    ),
                steps@.len() == old(steps)@.len() + u,
                old(steps)@.len() + units@.len() + 1 < u32::MAX,
                start == outlines(old(steps)@),
                outlines(steps@) == start + Seq::new(
                    u as nat,
                    |c: int| unit_step(joints@, c, unit_names(boards@, ug[c])),
                ),
            decreases units.len() - u,
        {
            let ghost names = units@[u as int]@.map_values(|s: &str| s@);
            unit_step_for(steps, joints, u, &units[u]);
            assert(Seq::new((u + 1) as nat, |c: int| unit_step(joints@, c, unit_names(boards@, ug[c])))
                =~= Seq::new(u as nat, |c: int| unit_step(joints@, c, unit_names(boards@, ug[c]))).push(
                unit_step(joints@, u as int, names),
            ));
            u = u + 1;
        }
        join_units_step_for(steps, boards, units.len());
        assert(outlines(steps@) =~= start + assembly_steps(boards@, joints@, ug));
    } else {
        assemble_all_step_for(steps, boards, joints);
        assert(outlines(steps@) =~= start + assembly_steps(boards@, joints@, ug));
    }
}

/// Ids of the boards as text slices.
fn board_id_slices(boards: &Vec<BoardInfo>) -> (ids: Vec<&str>)
    ensures
        id_texts(ids@) == board_ids(boards@),
{
    let mut ids: Vec<&str> = Vec::new();
    let mut k: usize = 0;
    while k < boards.len()
        invariant
            k <= boards@.len(),
            id_texts(ids@) == board_ids(boards@).take(k as int),
        decreases boards.len() - k,
    {
        let ghost i0 = ids@;
        let id = boards[k].node_id.as_str();
        ids.push(id);
        assert(id_texts(ids@) =~= id_texts(i0).push(id@));
        assert(board_ids(boards@).take(k + 1) =~= board_ids(boards@).take(k as int).push(id@));
        k = k + 1;
    }
    assert(board_ids(boards@).take(boards@.len() as int) =~= board_ids(boards@));
    ids
}

/// References to the joints, in order.
fn joint_refs(joints: &Vec<JointInfo>) -> (refs: Vec<&JointInfo>)
    ensures
        joint_ends(refs@) == joint_pairs(joints@),
{
    let mut refs: Vec<&JointInfo> = Vec::new();
    let mut k: usize = 0;
    while k < joints.len()
        invariant
            k <= joints@.len(),
            joint_ends(refs@) == joint_pairs(joints@).take(k as int),
        decreases joints.len() - k,
    {
        let ghost r0 = refs@;
        let j = &joints[k];
        refs.push(j);
        assert(joint_ends(refs@) =~= joint_ends(r0).push((j.board_a_id@, j.board_b_id@)));
        assert(joint_pairs(joints@).take(k + 1) =~= joint_pairs(joints@).take(k as int).push(
            (j.board_a_id@, j.board_b_id@),
        ));
        k = k + 1;
    }
    assert(joint_pairs(joints@).take(joints@.len() as int) =~= joint_pairs(joints@));
    refs
}

/// The ids of the boards each joint connects.
pub open spec fn joint_pairs(joints: Seq<JointInfo>) -> Seq<(Seq<char>, Seq<char>)> {
    joints.map_values(|j: JointInfo| (j.board_a_id@, j.board_b_id@))
}

/// `units` lists the sub-assemblies of the design: the boards joined
/// directly or through other boards, as index groups (see
/// `assembly_listing`).
pub open spec fn sub_assemblies(input: CutListInput, units: Seq<Seq<usize>>) -> bool {
    assembly_listing(board_ids(input.boards@), joint_pairs(input.joints@), units)
}

/// Generates the build plan: a preparation step, one cutting step per
/// material, a preparation step for each joint that needs preparatory
/// cuts, assembly steps (one per sub-assembly and a final join when the
/// joints leave several, one step otherwise, none without joints) and,
/// with a finish, a finishing step (see `plan_outline`). Steps are numbered
/// from 1; the summary gives each occurring phase with its step count, in
/// build order. `sizes` holds each board's width, height and depth in
/// thousandths of an inch, `dims` each board's printed thickness, width and
/// length (`3/4" x 3-1/2" x 24"`).
pub fn generate_build_instructions(
    input: &CutListInput,
    sizes: &Vec<(i64, i64, i64)>,
    dims: &Vec<String>,
    has_finish: bool,
) -> (plan: BuildInstructions)
    requires
        sizes@.len() == input.boards@.len(),
        dims@.len() == input.boards@.len(),
        2 * input.boards@.len() + input.joints@.len() + 3 < u32::MAX,
    ensures
        exists|g: Seq<Seq<usize>>, units: Seq<Seq<usize>>|
            #[trigger] piece_groups(input.boards@, sizes@, g) && #[trigger] sub_assemblies(*input, units)
                && outlines(plan.steps@) == plan_outline(*input, string_views(dims@), g, units, has_finish),
        numbered(plan.steps@),
        plan.total_steps == plan.steps@.len(),
        plan.estimated_phases@.map_values(|e: (BuildPhase, u32)| (e.0, e.1 as nat)) == phase_summary(
            outlines(plan.steps@),
            phase_order(),
        ),
{
    let ids = board_id_slices(&input.boards);
    let refs = joint_refs(&input.joints);
    let units = find_connected_components(ids.as_slice(), refs.as_slice());
    let ghost ug = choose|u: Seq<Seq<usize>>|
        #[trigger] assembly_listing(id_texts(ids@), joint_ends(refs@), u) && units@.len() == u.len()
            && (forall|c: int| 0 <= c < u.len() ==> (#[trigger] units@[c])@.len() == u[c].len())
            && (forall|c: int, x: int|
            0 <= c < u.len() && 0 <= x < u[c].len() ==> units@[c]@[x] == ids@[#[trigger] u[c][x] as int]);
    assert(sub_assemblies(*input, ug));
    if input.boards.len() == 0 {
        let steps: Vec<BuildStep> = Vec::new();
        let estimated_phases = summarize_phases(&steps);
        let ghost g = Seq::<Seq<usize>>::empty();
        assert(piece_groups(input.boards@, sizes@, g));
        assert(outlines(steps@) =~= plan_outline(*input, string_views(dims@), g, ug, has_finish));
        return BuildInstructions { steps, total_steps: 0, estimated_phases };
    }
    let groups = group_pieces(&input.boards, sizes);
    let ghost g = groups@.map_values(|v: Vec<usize>| v@);
    let ghost n = input.boards@.len() as int;
    proof {
        let edges = joint_edges(id_texts(ids@), joint_ends(refs@));
        crate::components::lemma_linked_equivalence(edges);
        assert forall|c: int, d: int|
            0 <= c < ug.len() && 0 <= d < ug.len() && c != d implies #[trigger] ug[c][0] != #[trigger] ug[d][0] by {
            assert(!linked(edges, ug[c][0] as int, ug[d][0] as int));
            assert(linked(edges, ug[c][0] as int, ug[c][0] as int));
        }
        lemma_distinct_firsts(n, ug);
        assert forall|c: int, d: int|
            0 <= c < g.len() && 0 <= d < g.len() && c != d implies #[trigger] g[c][0] != #[trigger] g[d][0] by {
            if c < d {
                assert(g[c][0] < g[d][0]);
            } else {
                assert(g[d][0] < g[c][0]);
            }
        }
        lemma_distinct_firsts(n, g);
        assert forall|c: int| 0 <= c < ug.len() implies (#[trigger] units@[c])@.map_values(|s: &str| s@)
            == unit_names(input.boards@, ug[c]) by {
            assert forall|x: int| 0 <= x < ug[c].len() implies units@[c]@[x]@ == input.boards@[ug[c][x] as int].node_id@ by {
                assert(units@[c]@[x] == ids@[ug[c][x] as int]);
                assert(id_texts(ids@)[ug[c][x] as int] == ids@[ug[c][x] as int]@);
            }
            assert(units@[c]@.map_values(|s: &str| s@) =~= unit_names(input.boards@, ug[c]));
        }
    }
    let mut steps: Vec<BuildStep> = Vec::new();
    let mut piece_ids: Vec<String> = Vec::new();
    let mut c: usize = 0;
    while c < groups.len()
        invariant
            c <= g.len(),
            g == groups@.map_values(|v: Vec<usize>| v@),
            piece_groups(input.boards@, sizes@, g),
            string_views(piece_ids@) == group_piece_ids(g).take(c as int),
        decreases groups.len() - c,
    {
        assert(g[c as int] == groups@[c as int]@);
        assert(g[c as int].len() > 0);
        let letters = group_letter(c);
        let pid = piece_id_string(c, &letters, groups[c].len());
        let ghost p0 = piece_ids@;
        piece_ids.push(pid);
        assert(string_views(piece_ids@) =~= string_views(p0).push(pid@));
        assert(group_piece_ids(g).take(c + 1) =~= group_piece_ids(g).take(c as int).push(pid@));
        c = c + 1;
    }
    assert(group_piece_ids(g).take(g.len() as int) =~= group_piece_ids(g));
    let tools = texts(vec!["Tape measure", "Square", "Pencil"]);
    let tips = texts(
        vec![
            "Check all boards for warping, splits, or defects before cutting.",
            "Mark each board with its piece ID for easy identification.",
        ],
    );
    let description = String::from_str("Gather all materials and verify dimensions against the cut list.");
    proof {
        let want = prep_step(g);
        assert(string_views(tools@) =~= want.tools);
        assert(string_views(tips@) =~= want.tips);
    }
    push_step(&mut steps, BuildPhase::Preparation, description, piece_ids, None, tools, tips);
    assert(outlines(steps@) =~= seq![prep_step(g)]);
    add_cutting_steps(&mut steps, &input.boards, dims, &groups);
    add_joinery_steps(&mut steps, &input.boards, &input.joints);
    let ghost before_assembly = outlines(steps@);
    if input.joints.len() > 0 {
        add_assembly_steps(&mut steps, &input.boards, &input.joints, &units, Ghost(ug));
    }
    let ghost before_finish = outlines(steps@);
    if has_finish {
        finishing_step_for(&mut steps);
    }
    proof {
        let dv = string_views(dims@);
        let boards = input.boards@;
        let joints = input.joints@;
        assert(before_assembly == seq![prep_step(g)] + cutting_steps(boards, dv, g) + joinery_steps(boards, joints));
        assert(before_finish == before_assembly + assembly_steps(boards, joints, ug));
        assert(outlines(steps@) =~= plan_outline(*input, dv, g, ug, has_finish));
    }
    let total_steps = steps.len() as u32;
    let estimated_phases = summarize_phases(&steps);
    BuildInstructions { steps, total_steps, estimated_phases }
}


/// Steps run in build order: no step's phase comes before an earlier step's.
pub open spec fn in_phase_order(steps: Seq<StepOutline>) -> bool {
    forall|i: int, j: int| 0 <= i < j < steps.len() ==> phase_rank(#[trigger] steps[i].phase) <= phase_rank(#[trigger] steps[j].phase)
}

/// Every joinery step is of the joinery preparation phase.
proof fn lemma_joinery_phase(boards: Seq<BoardInfo>, joints: Seq<JointInfo>)
    ensures
        forall|i: int| 0 <= i < joinery_steps(boards, joints).len() ==> #[trigger] joinery_steps(boards, joints)[i].phase == BuildPhase::JoineryPrep,
    decreases joints.len(),
{
    if joints.len() > 0 {
        lemma_joinery_phase(boards, joints.drop_last());
    }
}

/// Two runs of steps in build order, the second starting no earlier than the
/// first ends, make one run in build order.
proof fn lemma_in_phase_order_concat(a: Seq<StepOutline>, b: Seq<StepOutline>, lo: int)
    requires
        in_phase_order(a),
        in_phase_order(b),
        forall|i: int| 0 <= i < a.len() ==> phase_rank(#[trigger] a[i].phase) <= lo,
        forall|j: int| 0 <= j < b.len() ==> lo <= phase_rank(#[trigger] b[j].phase),
    ensures
        in_phase_order(a + b),
{
    let ab = a + b;
    assert forall|i: int, j: int| 0 <= i < j < ab.len() implies phase_rank(#[trigger] ab[i].phase) <= phase_rank(#[trigger] ab[j].phase) by {
        if j < a.len() {
            assert(ab[i] == a[i] && ab[j] == a[j]);
        } else if i >= a.len() {
            assert(ab[i] == b[i - a.len()] && ab[j] == b[j - a.len()]);
        } else {
            assert(ab[i] == a[i] && ab[j] == b[j - a.len()]);
        }
    }
}

/// The build plan runs in phase order: preparation, cutting, joinery
/// preparation, sub-assembly, final assembly, finishing; and with a finish
/// on a design that has boards, the last step is the finishing step.
pub proof fn lemma_plan_in_phase_order(
    input: CutListInput,
    dims: Seq<Seq<char>>,
    g: Seq<Seq<usize>>,
    units: Seq<Seq<usize>>,
    has_finish: bool,
)
    ensures
        in_phase_order(plan_outline(input, dims, g, units, has_finish)),
        has_finish && input.boards@.len() > 0 ==> plan_outline(input, dims, g, units, has_finish).last().phase
            == BuildPhase::Finishing,
{
    let boards = input.boards@;
    let joints = input.joints@;
    if boards.len() > 0 {
        let p = seq![prep_step(g)];
        let cut = cutting_steps(boards, dims, g);
        let join = joinery_steps(boards, joints);
        let assembly = assembly_steps(boards, joints, units);
        let fin: Seq<StepOutline> = if has_finish {
            seq![finishing_step()]
        } else {
            Seq::empty()
        };
        lemma_joinery_phase(boards, joints);
        assert(forall|i: int| 0 <= i < cut.len() ==> #[trigger] cut[i].phase == BuildPhase::Cutting);
        assert(in_phase_order(p));
        assert(in_phase_order(cut));
        assert(in_phase_order(join));
        assert(in_phase_order(fin));
        assert forall|i: int, j: int| 0 <= i < j < assembly.len() implies phase_rank(#[trigger] assembly[i].phase) <= phase_rank(#[trigger] assembly[j].phase) by {
            if joints.len() > 0 && units.len() > 1 {
                assert(assembly[i].phase == BuildPhase::SubAssembly);
            }
        }
        assert forall|i: int| 0 <= i < assembly.len() implies 3 <= phase_rank(#[trigger] assembly[i].phase) <= 4 by {
            if joints.len() > 0 && units.len() > 1 && i < units.len() {
                assert(assembly[i].phase == BuildPhase::SubAssembly);
            }
        }
        lemma_in_phase_order_concat(p, cut, 0);
        lemma_in_phase_order_concat(p + cut, join, 1);
        assert forall|i: int| 0 <= i < (p + cut + join).len() implies phase_rank(#[trigger] (p + cut + join)[i].phase) <= 2 by {
            if i >= 1 + cut.len() {
                assert((p + cut + join)[i] == join[i - 1 - cut.len()]);
            } else if i >= 1 {
                assert((p + cut + join)[i] == cut[i - 1]);
            }
        }
        lemma_in_phase_order_concat(p + cut + join, assembly, 3);
        assert forall|i: int| 0 <= i < (p + cut + join + assembly).len() implies phase_rank(#[trigger] (p + cut + join + assembly)[i].phase) <= 4 by {
            if i >= (p + cut + join).len() {
                assert((p + cut + join + assembly)[i] == assembly[i - (p + cut + join).len()]);
            } else {
                assert((p + cut + join + assembly)[i] == (p + cut + join)[i]);
            }
        }
        lemma_in_phase_order_concat(p + cut + join + assembly, fin, 5);
    }
}

} // verus!
