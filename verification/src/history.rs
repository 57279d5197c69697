//! Undo/redo history of design operations.
use vstd::prelude::*;

use crate::text::push_text;

verus! {

/// A coordinate triple that the history only carries: the IEEE-754
/// binary64 bit patterns of x, y and z (all zero is `+0.0` on each axis).
pub type Coords = [u64; 3];

/// An undoable operation on the design.
#[derive(Clone, Debug, PartialEq)]
pub enum Operation {
    AddBoard {
        node_id: String,
        label: String,
        dimensions: Coords,
        position: Coords,
        lumber_type: String,
    },
    RemoveBoard {
        node_id: String,
        label: String,
        dimensions: Coords,
        position: Coords,
        rotation: Coords,
        lumber_type: String,
        species_id: Option<String>,
    },
    MoveBoard { node_id: String, old_position: Coords, new_position: Coords },
    RotateBoard { node_id: String, old_rotation: Coords, new_rotation: Coords },
    AddJoint { joint_id: String, joint_type: String, board_a: String, board_b: String },
    RemoveJoint {
        joint_id: String,
        joint_type: String,
        board_a: String,
        board_b: String,
        params_json: String,
    },
    SetSpecies { node_id: String, old_species: Option<String>, new_species: Option<String> },
    SetFinish { node_id: String, old_finish: Option<String>, new_finish: Option<String> },
    ResizeBoard { node_id: String, old_dimensions: Coords, new_dimensions: Coords },
}

/// `inv` is the operation that undoes `op`: adding and removing swap (a
/// re-added board gets zero rotation and no species, a removed joint
/// records `{}` as its parameters), and the old and new values of a move,
/// rotation, species, finish or resize swap.
pub open spec fn is_inverse(op: Operation, inv: Operation) -> bool {
    match op {
        Operation::AddBoard { node_id, label, dimensions, position, lumber_type } => {
            &&& inv matches Operation::RemoveBoard {
                node_id: n,
                label: l,
                dimensions: d,
                position: p,
                rotation: r,
                lumber_type: t,
                species_id: s,
            }
            &&& n == node_id && l == label && d == dimensions && p == position && t == lumber_type
            &&& r@ == seq![0u64, 0u64, 0u64]
            &&& s is None
        },
        Operation::RemoveBoard { node_id, label, dimensions, position, lumber_type, .. } => {
            inv == Operation::AddBoard { node_id, label, dimensions, position, lumber_type }
        },
        Operation::MoveBoard { node_id, old_position, new_position } => {
            inv == Operation::MoveBoard {
                node_id,
                old_position: new_position,
                new_position: old_position,
            }
        },
        Operation::RotateBoard { node_id, old_rotation, new_rotation } => {
            inv == Operation::RotateBoard {
                node_id,
                old_rotation: new_rotation,
                new_rotation: old_rotation,
            }
        },
        Operation::AddJoint { joint_id, joint_type, board_a, board_b } => {
            &&& inv matches Operation::RemoveJoint {
                joint_id: j,
                joint_type: t,
                board_a: a,
                board_b: b,
                params_json: p,
            }
            &&& j == joint_id && t == joint_type && a == board_a && b == board_b
            &&& p@ == "{}"@
        },
        Operation::RemoveJoint { joint_id, joint_type, board_a, board_b, .. } => {
            inv == Operation::AddJoint { joint_id, joint_type, board_a, board_b }
        },
        Operation::SetSpecies { node_id, old_species, new_species } => {
            inv == Operation::SetSpecies {
                node_id,
                old_species: new_species,
                new_species: old_species,
            }
        },
        Operation::SetFinish { node_id, old_finish, new_finish } => {
            inv == Operation::SetFinish { node_id, old_finish: new_finish, new_finish: old_finish }
        },
        Operation::ResizeBoard { node_id, old_dimensions, new_dimensions } => {
            inv == Operation::ResizeBoard {
                node_id,
                old_dimensions: new_dimensions,
                new_dimensions: old_dimensions,
            }
        },
    }
}

/// Whether undoing an operation loses nothing, so that undoing the undo
/// gives the operation back: every kind but a board removal (whose rotation
/// and species a re-add forgets) and a joint removal (whose parameters
/// become `{}`).
pub open spec fn inverse_is_lossless(op: Operation) -> bool {
    !(op is RemoveBoard) && !(op is RemoveJoint)
}

fn copy_text(s: &String) -> (r: String)
    ensures
        r == *s,
{
    s.clone()
}

fn copy_opt_text(s: &Option<String>) -> (r: Option<String>)
    ensures
        r == *s,
{
    match s {
        Some(t) => Some(t.clone()),
        None => None,
    }
}

/// What the history shows for an operation: `Add board 'Shelf'`,
/// `Move board <id>`, `Add Dado joint`, `Set species to 'oak' on <id>`,
/// `Resize board <id> to <dims>` and so on; `dims_text` is the printed new
/// size of a resize, as `[1.50, 3.50, 24.00]`.
pub open spec fn op_description(op: Operation, dims_text: Seq<char>) -> Seq<char> {
    match op {
        Operation::AddBoard { label, .. } => "Add board '"@ + label@ + "'"@,
        Operation::RemoveBoard { label, .. } => "Remove board '"@ + label@ + "'"@,
        Operation::MoveBoard { node_id, .. } => "Move board "@ + node_id@,
        Operation::RotateBoard { node_id, .. } => "Rotate board "@ + node_id@,
        Operation::AddJoint { joint_type, .. } => "Add "@ + joint_type@ + " joint"@,
        Operation::RemoveJoint { joint_type, .. } => "Remove "@ + joint_type@ + " joint"@,
        Operation::SetSpecies { node_id, new_species, .. } => match new_species {
            Some(s) => "Set species to '"@ + s@ + "' on "@ + node_id@,
            None => "Clear species on "@ + node_id@,
        },
        Operation::SetFinish { node_id, new_finish, .. } => match new_finish {
            Some(f) => "Set finish to '"@ + f@ + "' on "@ + node_id@,
            None => "Clear finish on "@ + node_id@,
        },
        Operation::ResizeBoard { node_id, .. } => "Resize board "@ + node_id@ + " to "@ + dims_text,
    }
}

impl Operation {
    /// The operation that undoes this one.
    /// The text the history shows for the operation (see `op_description`);
    /// `dims_text` is the printed new size, read only for a resize.
    pub fn description(&self, dims_text: &str) -> (s: String)
        ensures
            s@ == op_description(*self, dims_text@),
    {
        let mut s = String::new();
        match self {
            Operation::AddBoard { label, .. } => {
                push_text(&mut s, "Add board '");
                push_text(&mut s, label.as_str());
                push_text(&mut s, "'");
            },
            Operation::RemoveBoard { label, .. } => {
                push_text(&mut s, "Remove board '");
                push_text(&mut s, label.as_str());
                push_text(&mut s, "'");
            },
            Operation::MoveBoard { node_id, .. } => {
                push_text(&mut s, "Move board ");
                push_text(&mut s, node_id.as_str());
            },
            Operation::RotateBoard { node_id, .. } => {
                push_text(&mut s, "Rotate board ");
                push_text(&mut s, node_id.as_str());
            },
            Operation::AddJoint { joint_type, .. } => {
                push_text(&mut s, "Add ");
                push_text(&mut s, joint_type.as_str());
                push_text(&mut s, " joint");
            },
            Operation::RemoveJoint { joint_type, .. } => {
                push_text(&mut s, "Remove ");
                push_text(&mut s, joint_type.as_str());
                push_text(&mut s, " joint");
            },
            Operation::SetSpecies { node_id, new_species, .. } => match new_species {
                Some(sp) => {
                    push_text(&mut s, "Set species to '");
                    push_text(&mut s, sp.as_str());
                    push_text(&mut s, "' on ");
                    push_text(&mut s, node_id.as_str());
                },
                None => {
                    push_text(&mut s, "Clear species on ");
                    push_text(&mut s, node_id.as_str());
                },
            },
            Operation::SetFinish { node_id, new_finish, .. } => match new_finish {
                Some(f) => {
                    push_text(&mut s, "Set finish to '");
                    push_text(&mut s, f.as_str());
                    push_text(&mut s, "' on ");
                    push_text(&mut s, node_id.as_str());
                },
                None => {
                    push_text(&mut s, "Clear finish on ");
                    push_text(&mut s, node_id.as_str());
                },
            },
            Operation::ResizeBoard { node_id, .. } => {
                push_text(&mut s, "Resize board ");
                push_text(&mut s, node_id.as_str());
                push_text(&mut s, " to ");
                push_text(&mut s, dims_text);
            },
        }
        assert(s@ =~= op_description(*self, dims_text@));
        s
    }

    pub fn inverse(&self) -> (inv: Operation)
        ensures
            is_inverse(*self, inv),
    {
        match self {
            Operation::AddBoard { node_id, label, dimensions, position, lumber_type } => {
                let rotation: Coords = [0, 0, 0];
                assert(rotation@ =~= seq![0u64, 0u64, 0u64]);
                Operation::RemoveBoard {
                    node_id: copy_text(node_id),
                    label: copy_text(label),
                    dimensions: *dimensions,
                    position: *position,
                    rotation,
                    lumber_type: copy_text(lumber_type),
                    species_id: None,
                }
            },
            Operation::RemoveBoard { node_id, label, dimensions, position, lumber_type, .. } => {
                Operation::AddBoard {
                    node_id: copy_text(node_id),
                    label: copy_text(label),
                    dimensions: *dimensions,
                    position: *position,
                    lumber_type: copy_text(lumber_type),
                }
            },
            Operation::MoveBoard { node_id, old_position, new_position } => {
                Operation::MoveBoard {
                    node_id: copy_text(node_id),
                    old_position: *new_position,
                    new_position: *old_position,
                }
            },
            Operation::RotateBoard { node_id, old_rotation, new_rotation } => {
                Operation::RotateBoard {
                    node_id: copy_text(node_id),
                    old_rotation: *new_rotation,
                    new_rotation: *old_rotation,
                }
            },
            Operation::AddJoint { joint_id, joint_type, board_a, board_b } => {
                let params_json = String::from_str("{}");
                Operation::RemoveJoint {
                    joint_id: copy_text(joint_id),
                    joint_type: copy_text(joint_type),
                    board_a: copy_text(board_a),
                    board_b: copy_text(board_b),
                    params_json,
                }
            },
            Operation::RemoveJoint { joint_id, joint_type, board_a, board_b, .. } => {
                Operation::AddJoint {
                    joint_id: copy_text(joint_id),
                    joint_type: copy_text(joint_type),
                    board_a: copy_text(board_a),
                    board_b: copy_text(board_b),
                }
            },
            Operation::SetSpecies { node_id, old_species, new_species } => {
                Operation::SetSpecies {
                    node_id: copy_text(node_id),
                    old_species: copy_opt_text(new_species),
                    new_species: copy_opt_text(old_species),
                }
            },
            Operation::SetFinish { node_id, old_finish, new_finish } => {
                Operation::SetFinish {
                    node_id: copy_text(node_id),
                    old_finish: copy_opt_text(new_finish),
                    new_finish: copy_opt_text(old_finish),
                }
            },
            Operation::ResizeBoard { node_id, old_dimensions, new_dimensions } => {
                Operation::ResizeBoard {
                    node_id: copy_text(node_id),
                    old_dimensions: *new_dimensions,
                    new_dimensions: *old_dimensions,
                }
            },
        }
    }

    /// An exact copy of the operation.
    pub fn duplicate(&self) -> (r: Operation)
        ensures
            r == *self,
    {
        match self {
            Operation::AddBoard { node_id, label, dimensions, position, lumber_type } => {
                Operation::AddBoard {
                    node_id: copy_text(node_id),
                    label: copy_text(label),
                    dimensions: *dimensions,
                    position: *position,
                    lumber_type: copy_text(lumber_type),
                }
            },
            Operation::RemoveBoard {
                node_id,
                label,
                dimensions,
                position,
                rotation,
                lumber_type,
                species_id,
            } => {
                Operation::RemoveBoard {
                    node_id: copy_text(node_id),
                    label: copy_text(label),
                    dimensions: *dimensions,
                    position: *position,
                    rotation: *rotation,
                    lumber_type: copy_text(lumber_type),
                    species_id: copy_opt_text(species_id),
                }
            },
            Operation::MoveBoard { node_id, old_position, new_position } => {
                Operation::MoveBoard {
                    node_id: copy_text(node_id),
                    old_position: *old_position,
                    new_position: *new_position,
                }
            },
            Operation::RotateBoard { node_id, old_rotation, new_rotation } => {
                Operation::RotateBoard {
                    node_id: copy_text(node_id),
                    old_rotation: *old_rotation,
                    new_rotation: *new_rotation,
                }
            },
            Operation::AddJoint { joint_id, joint_type, board_a, board_b } => {
                Operation::AddJoint {
                    joint_id: copy_text(joint_id),
                    joint_type: copy_text(joint_type),
                    board_a: copy_text(board_a),
                    board_b: copy_text(board_b),
                }
            },
            Operation::RemoveJoint { joint_id, joint_type, board_a, board_b, params_json } => {
                Operation::RemoveJoint {
                    joint_id: copy_text(joint_id),
                    joint_type: copy_text(joint_type),
                    board_a: copy_text(board_a),
                    board_b: copy_text(board_b),
                    params_json: copy_text(params_json),
                }
            },
            Operation::SetSpecies { node_id, old_species, new_species } => {
                Operation::SetSpecies {
                    node_id: copy_text(node_id),
                    old_species: copy_opt_text(old_species),
                    new_species: copy_opt_text(new_species),
                }
            },
            Operation::SetFinish { node_id, old_finish, new_finish } => {
                Operation::SetFinish {
                    node_id: copy_text(node_id),
                    old_finish: copy_opt_text(old_finish),
                    new_finish: copy_opt_text(new_finish),
                }
            },
            Operation::ResizeBoard { node_id, old_dimensions, new_dimensions } => {
                Operation::ResizeBoard {
                    node_id: copy_text(node_id),
                    old_dimensions: *old_dimensions,
                    new_dimensions: *new_dimensions,
                }
            },
        }
    }
}

/// Undoing an undo gives the operation back, for every operation whose
/// inverse loses nothing.
pub proof fn lemma_inverse_involutive(op: Operation, inv: Operation, back: Operation)
    requires
        inverse_is_lossless(op),
        is_inverse(op, inv),
        is_inverse(inv, back),
    ensures
        back == op,
{
}

/// The largest number of operations that can be undone.
pub const MAX_HISTORY: usize = 100;

/// The undo and redo stacks after recording `op`: the redo stack empties,
/// `op` goes on top of the undo stack, and the oldest entry drops out when
/// the undo stack would exceed its bound.
pub open spec fn after_record(undo: Seq<Operation>, op: Operation) -> Seq<Operation> {
    if undo.len() + 1 > MAX_HISTORY {
        undo.push(op).drop_first()
    } else {
        undo.push(op)
    }
}

/// The (undo, redo) stacks after an undo: the latest undoable operation
/// moves to the top of the redo stack; with nothing to undo, nothing moves.
pub open spec fn after_undo(undo: Seq<Operation>, redo: Seq<Operation>) -> (Seq<Operation>, Seq<Operation>) {
    if undo.len() == 0 {
        (undo, redo)
    } else {
        (undo.drop_last(), redo.push(undo.last()))
    }
}

/// The (undo, redo) stacks after a redo: the latest undone operation moves
/// back to the top of the undo stack; with nothing to redo, nothing moves.
pub open spec fn after_redo(undo: Seq<Operation>, redo: Seq<Operation>) -> (Seq<Operation>, Seq<Operation>) {
    if redo.len() == 0 {
        (undo, redo)
    } else {
        (undo.push(redo.last()), redo.drop_last())
    }
}

/// Undo/redo stacks of operations.
pub struct History {
    undo_stack: Vec<Operation>,
    redo_stack: Vec<Operation>,
    max_history: usize,
}

impl History {
    /// Operations that can be undone, oldest first.
    pub closed spec fn undo_ops(&self) -> Seq<Operation> {
        self.undo_stack@
    }

    /// Operations that can be redone; the next to redo is last.
    pub closed spec fn redo_ops(&self) -> Seq<Operation> {
        self.redo_stack@
    }

    /// The stacks together never hold more than `MAX_HISTORY` operations.
    pub closed spec fn wf(&self) -> bool {
        &&& self.max_history == MAX_HISTORY
        &&& self.undo_stack@.len() + self.redo_stack@.len() <= MAX_HISTORY
    }

    /// An empty history.
    pub fn new() -> (h: History)
        ensures
            h.wf(),
            h.undo_ops() == Seq::<Operation>::empty(),
            h.redo_ops() == Seq::<Operation>::empty(),
    {
        History { undo_stack: Vec::new(), redo_stack: Vec::new(), max_history: MAX_HISTORY }
    }

    /// Records an operation; see `after_record`.
    pub fn record(&mut self, op: Operation)
        requires
            old(self).wf(),
        ensures
            final(self).wf(),
            final(self).undo_ops() == after_record(old(self).undo_ops(), op),
            final(self).redo_ops() == Seq::<Operation>::empty(),
    {
        self.redo_stack.clear();
        self.undo_stack.push(op);
        if self.undo_stack.len() > self.max_history {
            self.undo_stack.remove(0);
        }
        assert(self.undo_stack@ =~= after_record(old(self).undo_stack@, op));
    }

    /// Takes the latest operation off the undo stack, puts it on the redo
    /// stack, and returns its inverse for the caller to apply. With nothing
    /// to undo, returns `None` and changes nothing.
    pub fn undo(&mut self) -> (r: Option<Operation>)
        requires
            old(self).wf(),
        ensures
            final(self).wf(),
            (final(self).undo_ops(), final(self).redo_ops()) == after_undo(
                old(self).undo_ops(),
                old(self).redo_ops(),
            ),
            old(self).undo_ops().len() == 0 ==> r is None,
            old(self).undo_ops().len() > 0 ==> (r matches Some(inv) && is_inverse(
                old(self).undo_ops().last(),
                inv,
            )),
    {
        match self.undo_stack.pop() {
            None => None,
            Some(op) => {
                let inverse = op.inverse();
                self.redo_stack.push(op);
                Some(inverse)
            },
        }
    }

    /// Takes the latest undone operation off the redo stack, puts it back
    /// on the undo stack, and returns it for the caller to apply again.
    /// With nothing to redo, returns `None` and changes nothing.
    pub fn redo(&mut self) -> (r: Option<Operation>)
        requires
            old(self).wf(),
        ensures
            final(self).wf(),
            (final(self).undo_ops(), final(self).redo_ops()) == after_redo(
                old(self).undo_ops(),
                old(self).redo_ops(),
            ),
            old(self).redo_ops().len() == 0 ==> r is None,
            old(self).redo_ops().len() > 0 ==> r == Some(old(self).redo_ops().last()),
    {
        match self.redo_stack.pop() {
            None => None,
            Some(op) => {
                let again = op.duplicate();
                self.undo_stack.push(op);
                Some(again)
            },
        }
    }

    /// Whether there is anything to undo.
    pub fn can_undo(&self) -> (b: bool)
        ensures
            b == (self.undo_ops().len() > 0),
    {
        !self.undo_stack.is_empty()
    }

    /// Whether there is anything to redo.
    pub fn can_redo(&self) -> (b: bool)
        ensures
            b == (self.redo_ops().len() > 0),
    {
        !self.redo_stack.is_empty()
    }

    /// Number of operations that can be undone.
    pub fn undo_count(&self) -> (n: usize)
        ensures
            n == self.undo_ops().len(),
    {
        self.undo_stack.len()
    }

    /// Number of operations that can be redone.
    pub fn redo_count(&self) -> (n: usize)
        ensures
            n == self.redo_ops().len(),
    {
        self.redo_stack.len()
    }

    /// Forgets all history.
    pub fn clear(&mut self)
        requires
            old(self).wf(),
        ensures
            final(self).wf(),
            final(self).undo_ops() == Seq::<Operation>::empty(),
            final(self).redo_ops() == Seq::<Operation>::empty(),
    {
        self.undo_stack.clear();
        self.redo_stack.clear();
    }
}

impl Default for History {
    fn default() -> (h: History)
        ensures
            h.wf(),
            h.undo_ops() == Seq::<Operation>::empty(),
            h.redo_ops() == Seq::<Operation>::empty(),
    {
        History::new()
    }
}

/// Redoing right after an undo puts both stacks back as they were.
pub proof fn lemma_undo_then_redo(undo: Seq<Operation>, redo: Seq<Operation>)
    requires
        undo.len() > 0,
    ensures
        ({
            let (u, r) = after_undo(undo, redo);
            after_redo(u, r) == (undo, redo)
        }),
{
    assert(undo.drop_last().push(undo.last()) =~= undo);
    assert(redo.push(undo.last()).drop_last() =~= redo);
}

/// Undoing right after a redo puts both stacks back as they were.
pub proof fn lemma_redo_then_undo(undo: Seq<Operation>, redo: Seq<Operation>)
    requires
        redo.len() > 0,
    ensures
        ({
            let (u, r) = after_redo(undo, redo);
            after_undo(u, r) == (undo, redo)
        }),
{
    assert(redo.drop_last().push(redo.last()) =~= redo);
    assert(undo.push(redo.last()).drop_last() =~= undo);
}

/// Recording keeps the newest operations: the recorded one is the next to
/// undo, the stack grows by one until it holds `MAX_HISTORY` operations,
/// and what stays is the most recent part of what was there.
pub proof fn lemma_record_keeps_newest(undo: Seq<Operation>, op: Operation)
    requires
        undo.len() <= MAX_HISTORY,
    ensures
        after_record(undo, op).last() == op,
        after_record(undo, op).len() == if undo.len() < MAX_HISTORY {
            undo.len() + 1
        } else {
            MAX_HISTORY as nat
        },
        after_record(undo, op).drop_last() == undo.subrange(
            undo.len() + 1 - after_record(undo, op).len(),
            undo.len() as int,
        ),
{
    let r = after_record(undo, op);
    assert(r.drop_last() =~= undo.subrange(undo.len() + 1 - r.len(), undo.len() as int));
}

/// After recording an operation, undo hands back that operation's inverse
/// (the stacks then hold what they held before, less anything the bound
/// pushed out, with the operation ready to redo).
pub proof fn lemma_record_then_undo(undo: Seq<Operation>, op: Operation)
    requires
        undo.len() < MAX_HISTORY,
    ensures
        after_record(undo, op).last() == op,
        after_undo(after_record(undo, op), Seq::empty()) == (undo, seq![op]),
{
    assert(undo.push(op).drop_last() =~= undo);
    assert(Seq::<Operation>::empty().push(op) =~= seq![op]);
}

/// A well-formed history never holds more than `MAX_HISTORY` undoable operations.
pub proof fn lemma_undo_bounded(h: History)
    requires
        h.wf(),
    ensures
        h.undo_ops().len() <= MAX_HISTORY,
{
}

} // verus!
