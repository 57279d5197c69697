//! The scene: the boards of a design and the hierarchy that groups them.
use vstd::prelude::*;

use std::collections::HashMap;

use crate::component::{BoardComponent, GrainDirection, LumberType};
use crate::ids::{is_random_uuid, uuid_text, NodeId};
use vstd::std_specs::iter::IteratorSpec;

verus! {

broadcast use vstd::std_specs::hash::group_hash_axioms;

/// A tessellated mesh: vertex positions and normals as flat `x, y, z`
/// runs of IEEE-754 binary32 bit patterns, texture coordinates as `u, v`
/// runs (possibly none), and triangle indices.
pub struct MeshData {
    pub positions: Vec<u32>,
    pub normals: Vec<u32>,
    pub uvs: Vec<u32>,
    pub indices: Vec<u32>,
}

impl MeshData {
    /// Number of vertices: a third of the position values.
    pub fn vertex_count(&self) -> (n: usize)
        ensures
            n == self.positions@.len() / 3,
    {
        self.positions.len() / 3
    }

    /// Number of triangles: a third of the indices.
    pub fn triangle_count(&self) -> (n: usize)
        ensures
            n == self.indices@.len() / 3,
    {
        self.indices.len() / 3
    }
}

/// A node of the scene. Position and rotation hold binary64 bit patterns
/// (inches; radians about x, y and z).
pub struct SceneNode {
    pub id: NodeId,
    pub label: String,
    pub parent: Option<NodeId>,
    pub children: Vec<NodeId>,
    pub position: [u64; 3],
    pub rotation: [u64; 3],
    pub component: Option<BoardComponent>,
}

/// A node as the scene's contracts see it.
pub struct NodeView {
    pub id: NodeId,
    pub label: String,
    pub parent: Option<NodeId>,
    pub children: Seq<NodeId>,
    pub position: [u64; 3],
    pub rotation: [u64; 3],
    pub component: Option<BoardComponent>,
}

impl View for SceneNode {
    type V = NodeView;

    open spec fn view(&self) -> NodeView {
        NodeView {
            id: self.id,
            label: self.label,
            parent: self.parent,
            children: self.children@,
            position: self.position,
            rotation: self.rotation,
            component: self.component,
        }
    }
}

/// The scene: nodes by id, the ids of the top-level nodes in order, and a
/// mesh for each board.
pub struct SceneGraph {
    nodes: HashMap<u128, SceneNode>,
    root_children: Vec<NodeId>,
    mesh_cache: HashMap<u128, MeshData>,
}

/// `keys` lists each key of `dom` exactly once, in some order.
pub open spec fn enumerates(keys: Seq<u128>, dom: Set<u128>) -> bool {
    &&& keys.no_duplicates()
    &&& forall|k: u128| dom.contains(k) <==> keys.contains(k)
}

/// The nodes under `keys`, in that order.
pub open spec fn nodes_at(nodes: Map<u128, NodeView>, keys: Seq<u128>) -> Seq<NodeView> {
    keys.map_values(|k: u128| nodes[k])
}

/// Walking `keys`: each node whose id has a mesh, with that mesh.
pub open spec fn meshed_nodes(
    nodes: Map<u128, NodeView>,
    meshes: Map<u128, MeshData>,
    keys: Seq<u128>,
) -> Seq<(NodeId, NodeView, MeshData)>
    decreases keys.len(),
{
    if keys.len() == 0 {
        Seq::empty()
    } else {
        let rest = meshed_nodes(nodes, meshes, keys.drop_last());
        let n = nodes[keys.last()];
        if meshes.contains_key(n.id.0) {
            rest.push((n.id, n, meshes[n.id.0]))
        } else {
            rest
        }
    }
}

/// Walking `keys`: each board other than `exclude`, with its dimensions.
pub open spec fn board_dims(nodes: Map<u128, NodeView>, keys: Seq<u128>, exclude: Option<NodeId>) -> Seq<(NodeId, [u64; 3])>
    decreases keys.len(),
{
    if keys.len() == 0 {
        Seq::empty()
    } else {
        let rest = board_dims(nodes, keys.drop_last(), exclude);
        let n = nodes[keys.last()];
        match n.component {
            Some(c) => if exclude == Some(n.id) {
                rest
            } else {
                rest.push((n.id, c.dimensions))
            },
            None => rest,
        }
    }
}

/// A node list without the entries equal to `x`.
pub open spec fn without(s: Seq<NodeId>, x: NodeId) -> Seq<NodeId> {
    s.filter(|c: NodeId| c != x)
}

/// The scene after node `id` leaves the child list of its parent, or the
/// top-level list when it has none; nothing changes for an unknown id or
/// an unknown parent.
pub open spec fn detach(nodes: Map<u128, NodeView>, roots: Seq<NodeId>, id: NodeId) -> (Map<u128, NodeView>, Seq<NodeId>) {
    if !nodes.contains_key(id.0) {
        (nodes, roots)
    } else {
        match nodes[id.0].parent {
            Some(p) => if nodes.contains_key(p.0) {
                (nodes.insert(p.0, NodeView { children: without(nodes[p.0].children, id), ..nodes[p.0] }), roots)
            } else {
                (nodes, roots)
            },
            None => (nodes, without(roots, id)),
        }
    }
}

/// The scene after `id` is appended to the child list of `parent`, or to
/// the top-level list for `None`; nothing changes for an unknown parent.
pub open spec fn attach(
    nodes: Map<u128, NodeView>,
    roots: Seq<NodeId>,
    id: NodeId,
    parent: Option<NodeId>,
) -> (Map<u128, NodeView>, Seq<NodeId>) {
    match parent {
        Some(p) => if nodes.contains_key(p.0) {
            (nodes.insert(p.0, NodeView { children: nodes[p.0].children.push(id), ..nodes[p.0] }), roots)
        } else {
            (nodes, roots)
        },
        None => (nodes, roots.push(id)),
    }
}

/// The scene after node `id` is moved under `parent` (`None`: to the top
/// level): detached, attached, and its parent set if it exists.
pub open spec fn reparent(
    nodes: Map<u128, NodeView>,
    roots: Seq<NodeId>,
    id: NodeId,
    parent: Option<NodeId>,
) -> (Map<u128, NodeView>, Seq<NodeId>) {
    let (n1, r1) = detach(nodes, roots, id);
    let (n2, r2) = attach(n1, r1, id, parent);
    if n2.contains_key(id.0) {
        (n2.insert(id.0, NodeView { parent, ..n2[id.0] }), r2)
    } else {
        (n2, r2)
    }
}

/// The ids from `cur` up through its ancestors, walking parent links
/// while the node exists, if the walk ends within `limit` nodes.
pub open spec fn ancestry(nodes: Map<u128, NodeView>, cur: NodeId, limit: nat) -> Option<Seq<NodeId>>
    decreases limit,
{
    if !nodes.contains_key(cur.0) {
        Some(Seq::empty())
    } else if limit == 0 {
        None
    } else {
        match nodes[cur.0].parent {
            None => Some(seq![cur]),
            Some(p) => match ancestry(nodes, p, (limit - 1) as nat) {
                Some(rest) => Some(seq![cur] + rest),
                None => None,
            },
        }
    }
}

/// Node `p` exists and lists the existing node `c` among its children.
pub open spec fn child_edge(nodes: Map<u128, NodeView>, p: u128, c: u128) -> bool {
    &&& nodes.contains_key(p)
    &&& nodes.contains_key(c)
    &&& nodes[p].children.contains(NodeId(c))
}

/// `s` holds `id` and, with any node it holds, every existing child that
/// node lists.
pub open spec fn closed_below(nodes: Map<u128, NodeView>, id: u128, s: Set<u128>) -> bool {
    &&& s.contains(id)
    &&& forall|p: u128, c: u128| #[trigger] s.contains(p) && #[trigger] child_edge(nodes, p, c) ==> s.contains(c)
}

/// The subtree of `id`: `id` and every node reached from it through
/// child lists (the least set that `closed_below` describes).
pub open spec fn subtree(nodes: Map<u128, NodeView>, id: u128) -> Set<u128> {
    Set::new(|x: u128| forall|s: Set<u128>| #[trigger] closed_below(nodes, id, s) ==> s.contains(x))
}

/// A child list without the removed nodes (`gone`) whose parent was
/// `parent`.
pub open spec fn pruned(
    nodes: Map<u128, NodeView>,
    gone: Set<u128>,
    parent: Option<NodeId>,
    list: Seq<NodeId>,
) -> Seq<NodeId> {
    list.filter(|c: NodeId| !(gone.contains(c.0) && nodes[c.0].parent == parent))
}

/// The nodes and top-level list after the subtree of `id` is removed:
/// each removed node leaves the child list of its parent, or the top-level
/// list when it had none.
pub open spec fn removal(nodes: Map<u128, NodeView>, roots: Seq<NodeId>, id: u128) -> (Map<u128, NodeView>, Seq<NodeId>) {
    let gone = subtree(nodes, id);
    (
        Map::new(
            |k: u128| nodes.contains_key(k) && !gone.contains(k),
            |k: u128| NodeView { children: pruned(nodes, gone, Some(NodeId(k)), nodes[k].children), ..nodes[k] },
        ),
        pruned(nodes, gone, None, roots),
    )
}

/// A list without duplicates whose entries lie in a finite set is no
/// longer than the set.
proof fn lemma_distinct_within(v: Seq<u128>, s: Set<u128>)
    requires
        v.no_duplicates(),
        s.finite(),
        forall|i: int| 0 <= i < v.len() ==> s.contains(#[trigger] v[i]),
    ensures
        v.len() <= s.len(),
{
    v.unique_seq_to_set();
    assert(v.to_set().subset_of(s));
    vstd::set_lib::lemma_len_subset(v.to_set(), s);
}

/// Filtering twice by the same test filters once.
proof fn lemma_filter_twice(s: Seq<NodeId>, f: spec_fn(NodeId) -> bool)
    ensures
        s.filter(f).filter(f) == s.filter(f),
    decreases s.len(),
{
    reveal(Seq::filter);
    if s.len() > 0 {
        lemma_filter_twice(s.drop_last(), f);
        if f(s.last()) {
            assert(s.filter(f).drop_last() =~= s.drop_last().filter(f));
        }
    }
}

/// Filtering by a test that every entry passes changes nothing.
proof fn lemma_filter_all(s: Seq<NodeId>, f: spec_fn(NodeId) -> bool)
    requires
        forall|i: int| 0 <= i < s.len() ==> f(#[trigger] s[i]),
    ensures
        s.filter(f) == s,
    decreases s.len(),
{
    reveal(Seq::filter);
    if s.len() > 0 {
        lemma_filter_all(s.drop_last(), f);
        assert(s.drop_last().push(s.last()) =~= s);
    }
}

/// The id number of an optional parent (zero for none).
pub open spec fn parent_key(o: Option<NodeId>) -> u128 {
    match o {
        Some(p) => p.0,
        None => 0,
    }
}

/// Whether two optional ids are equal.
fn same_parent(a: Option<NodeId>, b: Option<NodeId>) -> (r: bool)
    ensures
        r == (a == b),
{
    match (a, b) {
        (Some(x), Some(y)) => x.0 == y.0,
        (None, None) => true,
        _ => false,
    }
}

/// A child list without the ids recorded in `gone` together with
/// `parent`.
fn prune_list(list: &Vec<NodeId>, gone: &Vec<(u128, Option<NodeId>)>, parent: Option<NodeId>) -> (r: Vec<NodeId>)
    ensures
        r@ == list@.filter(|c: NodeId| !gone@.contains((c.0, parent))),
{
    let mut r: Vec<NodeId> = Vec::new();
    let mut k: usize = 0;
    while k < list.len()
        invariant
            k <= list@.len(),
            r@ == list@.take(k as int).filter(|c: NodeId| !gone@.contains((c.0, parent))),
        decreases list.len() - k,
    {
        proof {
            reveal(Seq::filter);
            assert(list@.take(k + 1).drop_last() =~= list@.take(k as int));
        }
        let c = list[k];
        let mut hit = false;
        let mut i: usize = 0;
        while i < gone.len()
            invariant
                i <= gone@.len(),
                hit == exists|j: int| 0 <= j < i && #[trigger] gone@[j] == (c.0, parent),
            decreases gone.len() - i,
        {
            if gone[i].0 == c.0 && same_parent(gone[i].1, parent) {
                hit = true;
            }
            i = i + 1;
        }
        assert(hit == gone@.contains((c.0, parent)));
        if !hit {
            r.push(c);
        }
        k = k + 1;
    }
    assert(list@.take(list@.len() as int) =~= list@);
    r
}

/// Whether `x` is in `v`.
fn contains_key_in(v: &Vec<u128>, x: u128) -> (r: bool)
    ensures
        r == v@.contains(x),
{
    let mut k: usize = 0;
    while k < v.len()
        invariant
            k <= v@.len(),
            forall|i: int| 0 <= i < k ==> v@[i] != x,
        decreases v.len() - k,
    {
        if v[k] == x {
            return true;
        }
        k = k + 1;
    }
    false
}

/// A node as the interface sees it. Position, rotation and dimensions hold
/// binary64 bit patterns.
pub struct SceneNodeSnapshot {
    pub id: String,
    pub label: String,
    pub parent_id: Option<String>,
    pub children: Vec<String>,
    pub position: [u64; 3],
    pub rotation: [u64; 3],
    pub has_mesh: bool,
    pub dimensions: Option<[u64; 3]>,
    pub lumber_type: Option<String>,
    pub grain_direction: Option<String>,
}

/// All nodes of the scene as the interface sees them.
pub struct SceneTreeSnapshot {
    pub nodes: Vec<SceneNodeSnapshot>,
}

/// Name of a grain direction.
pub open spec fn grain_text(g: GrainDirection) -> Seq<char> {
    match g {
        GrainDirection::AlongLength => "AlongLength"@,
        GrainDirection::AlongWidth => "AlongWidth"@,
        GrainDirection::AlongHeight => "AlongHeight"@,
    }
}

/// Name of a board's lumber: the nominal size, or `Custom`.
pub open spec fn lumber_text(t: LumberType) -> Seq<char> {
    match t {
        LumberType::Standard(ls) => ls.nominal_label@,
        LumberType::Custom => "Custom"@,
    }
}

/// `s` shows node `n` of a scene whose meshes are `meshes`: ids as
/// hyphenated text, label, parent, children, placement, whether it has a
/// mesh, and for a board its dimensions, lumber and grain.
pub open spec fn shows(n: NodeView, meshes: Map<u128, MeshData>, s: SceneNodeSnapshot) -> bool {
    &&& s.id@ == uuid_text(n.id.0)
    &&& s.label == n.label
    &&& match (s.parent_id, n.parent) {
        (Some(t), Some(p)) => t@ == uuid_text(p.0),
        (None, None) => true,
        _ => false,
    }
    &&& s.children@.map_values(|t: String| t@) == n.children.map_values(|c: NodeId| uuid_text(c.0))
    &&& s.position == n.position
    &&& s.rotation == n.rotation
    &&& s.has_mesh == meshes.contains_key(n.id.0)
    &&& match n.component {
        Some(c) => {
            &&& s.dimensions == Some(c.dimensions)
            &&& s.lumber_type matches Some(t) && t@ == lumber_text(c.lumber_type)
            &&& s.grain_direction matches Some(t) && t@ == grain_text(c.grain_direction)
        },
        None => s.dimensions is None && s.lumber_type is None && s.grain_direction is None,
    }
}

/// The id texts of a node list.
fn id_strings(ids: &Vec<NodeId>) -> (r: Vec<String>)
    ensures
        r@.map_values(|t: String| t@) == ids@.map_values(|c: NodeId| uuid_text(c.0)),
{
    let mut r: Vec<String> = Vec::new();
    let mut k: usize = 0;
    while k < ids.len()
        invariant
            k <= ids@.len(),
            r@.map_values(|t: String| t@) == ids@.take(k as int).map_values(|c: NodeId| uuid_text(c.0)),
        decreases ids.len() - k,
    {
        let ghost r0 = r@;
        let t = ids[k].to_string();
        r.push(t);
        assert(r@.map_values(|t: String| t@) =~= r0.map_values(|t: String| t@).push(t@));
        assert(ids@.take(k + 1).map_values(|c: NodeId| uuid_text(c.0)) =~= ids@.take(k as int).map_values(
            |c: NodeId| uuid_text(c.0),
        ).push(uuid_text(ids@[k as int].0)));
        k = k + 1;
    }
    assert(ids@.take(ids@.len() as int) =~= ids@);
    r
}

/// A node list without the entries equal to `x` (see `without`).
fn without_id(v: &Vec<NodeId>, x: NodeId) -> (r: Vec<NodeId>)
    ensures
        r@ == without(v@, x),
{
    let mut r: Vec<NodeId> = Vec::new();
    let mut k: usize = 0;
    while k < v.len()
        invariant
            k <= v@.len(),
            r@ == without(v@.take(k as int), x),
        decreases v.len() - k,
    {
        proof {
            reveal(Seq::filter);
            assert(v@.take(k + 1).drop_last() =~= v@.take(k as int));
        }
        if v[k] != x {
            r.push(v[k]);
        }
        k = k + 1;
    }
    assert(v@.take(v@.len() as int) =~= v@);
    r
}

/// Ids that list each node of `dom` once give keys that enumerate it.
proof fn lemma_ids_enumerate(ids: Seq<NodeId>, dom: Set<u128>)
    requires
        ids.no_duplicates(),
        forall|k: u128| dom.contains(k) <==> ids.contains(NodeId(k)),
    ensures
        enumerates(ids.map_values(|i: NodeId| i.0), dom),
{
    let keys = ids.map_values(|i: NodeId| i.0);
    assert forall|k: u128| dom.contains(k) <==> keys.contains(k) by {
        if dom.contains(k) {
            let j = choose|j: int| 0 <= j < ids.len() && ids[j] == NodeId(k);
            assert(keys[j] == k);
        }
        if keys.contains(k) {
            let j = choose|j: int| 0 <= j < keys.len() && keys[j] == k;
            assert(ids[j] == NodeId(k));
        }
    }
    assert forall|a: int, b: int| 0 <= a < keys.len() && 0 <= b < keys.len() && a != b implies keys[a] != keys[b] by {
        assert(ids[a] != ids[b]);
    }
}

impl SceneGraph {
    /// The nodes, by id.
    pub closed spec fn node_map(&self) -> Map<u128, NodeView> {
        self.nodes@.map_values(|n: SceneNode| n@)
    }

    /// The top-level node ids, in order.
    pub closed spec fn root_list(&self) -> Seq<NodeId> {
        self.root_children@
    }

    /// The meshes, by node id.
    pub closed spec fn mesh_map(&self) -> Map<u128, MeshData> {
        self.mesh_cache@
    }

    /// An empty scene.
    pub fn new() -> (g: SceneGraph)
        ensures
            g.node_map() == Map::<u128, NodeView>::empty(),
            g.root_list() == Seq::<NodeId>::empty(),
            g.mesh_map() == Map::<u128, MeshData>::empty(),
    {
        let g = SceneGraph { nodes: HashMap::new(), root_children: Vec::new(), mesh_cache: HashMap::new() };
        assert(g.node_map() =~= Map::<u128, NodeView>::empty());
        g
    }

    /// Adds a top-level node under a fresh random id and returns the id. A
    /// board (a node with a component) keeps `mesh`, its tessellation; a
    /// node without a component keeps none.
    pub fn add_node(
        &mut self,
        label: String,
        component: Option<BoardComponent>,
        position: [u64; 3],
        rotation: [u64; 3],
        mesh: Option<MeshData>,
    ) -> (id: NodeId)
        ensures
            is_random_uuid(id.0),
            final(self).node_map() == old(self).node_map().insert(
                id.0,
                (NodeView {
                    id,
                    label,
                    parent: None,
                    children: Seq::empty(),
                    position,
                    rotation,
                    component,
                }),
            ),
            final(self).root_list() == old(self).root_list().push(id),
            final(self).mesh_map() == (match (component, mesh) {
                (Some(_), Some(m)) => old(self).mesh_map().insert(id.0, m),
                _ => old(self).mesh_map(),
            }),
    {
        let id = NodeId::new();
        let has_board = component.is_some();
        let node = SceneNode {
            id,
            label,
            parent: None,
            children: Vec::new(),
            position,
            rotation,
            component,
        };
        let ghost before = self.nodes@;
        self.nodes.insert(id.0, node);
        assert(self.nodes@.map_values(|n: SceneNode| n@) =~= before.map_values(|n: SceneNode| n@).insert(id.0, node@));
        self.root_children.push(id);
        if has_board {
            match mesh {
                Some(m) => {
                    self.mesh_cache.insert(id.0, m);
                },
                None => {},
            }
        }
        id
    }

    /// The node with id `id`, if there is one.
    pub fn get_node(&self, id: NodeId) -> (r: Option<&SceneNode>)
        ensures
            r matches Some(n) ==> self.node_map().contains_key(id.0) && n@ == self.node_map()[id.0],
            r is None ==> !self.node_map().contains_key(id.0),
    {
        self.nodes.get(&id.0)
    }

    /// Moves a node; an unknown id changes nothing.
    pub fn set_position(&mut self, id: NodeId, pos: [u64; 3])
        ensures
            final(self).node_map() == if old(self).node_map().contains_key(id.0) {
                old(self).node_map().insert(id.0, (NodeView { position: pos, ..old(self).node_map()[id.0] }))
            } else {
                old(self).node_map()
            },
            final(self).root_list() == old(self).root_list(),
            final(self).mesh_map() == old(self).mesh_map(),
    {
        let ghost before = self.nodes@;
        match self.nodes.remove(&id.0) {
            Some(node) => {
                let mut node = node;
                node.position = pos;
                self.nodes.insert(id.0, node);
                assert(self.nodes@.map_values(|n: SceneNode| n@) =~= before.map_values(|n: SceneNode| n@).insert(id.0, node@));
            },
            None => {
                assert(self.nodes@ =~= before);
            },
        }
    }

    /// Turns a node; an unknown id changes nothing.
    pub fn set_rotation(&mut self, id: NodeId, rot: [u64; 3])
        ensures
            final(self).node_map() == if old(self).node_map().contains_key(id.0) {
                old(self).node_map().insert(id.0, (NodeView { rotation: rot, ..old(self).node_map()[id.0] }))
            } else {
                old(self).node_map()
            },
            final(self).root_list() == old(self).root_list(),
            final(self).mesh_map() == old(self).mesh_map(),
    {
        let ghost before = self.nodes@;
        match self.nodes.remove(&id.0) {
            Some(node) => {
                let mut node = node;
                node.rotation = rot;
                self.nodes.insert(id.0, node);
                assert(self.nodes@.map_values(|n: SceneNode| n@) =~= before.map_values(|n: SceneNode| n@).insert(id.0, node@));
            },
            None => {
                assert(self.nodes@ =~= before);
            },
        }
    }

    /// The mesh of node `id`, if it has one.
    pub fn get_mesh(&self, id: NodeId) -> (r: Option<&MeshData>)
        ensures
            r matches Some(m) ==> self.mesh_map().contains_key(id.0) && *m == self.mesh_map()[id.0],
            r is None ==> !self.mesh_map().contains_key(id.0),
    {
        self.mesh_cache.get(&id.0)
    }

    /// Replaces (or sets) the mesh of node `id`.
    pub fn update_mesh(&mut self, id: NodeId, mesh: MeshData)
        ensures
            final(self).mesh_map() == old(self).mesh_map().insert(id.0, mesh),
            final(self).node_map() == old(self).node_map(),
            final(self).root_list() == old(self).root_list(),
    {
        self.mesh_cache.insert(id.0, mesh);
    }

    /// Number of nodes.
    pub fn node_count(&self) -> (n: usize)
        ensures
            n == self.node_map().len(),
    {
        assert(self.node_map().dom() =~= self.nodes@.dom());
        self.nodes.len()
    }

    /// The ids of all nodes, each once, in no particular order.
    pub fn node_ids(&self) -> (ids: Vec<NodeId>)
        ensures
            ids@.no_duplicates(),
            forall|k: u128| self.node_map().contains_key(k) <==> ids@.contains(NodeId(k)),
            ids@.len() == self.node_map().len(),
    {
        let ghost keys = self.nodes.keys().remaining().unref();
        let mut ids: Vec<NodeId> = Vec::new();
        for k in it: self.nodes.keys()
            invariant
                keys == self.nodes.keys().remaining().unref(),
                it.seq().unref() == keys,
                ids@ == keys.take(it.index()).map_values(|k: u128| NodeId(k)),
        {
            proof {
                assert(keys.take(it.index() + 1) =~= keys.take(it.index()).push(*k));
            }
            ids.push(NodeId(*k));
            assert(ids@ =~= keys.take(it.index() + 1).map_values(|k: u128| NodeId(k)));
        }
        assert(keys.take(keys.len() as int) =~= keys);
        assert(self.node_map().dom() =~= self.nodes@.dom());
        assert forall|k: u128| self.node_map().contains_key(k) <==> ids@.contains(NodeId(k)) by {
            if ids@.contains(NodeId(k)) {
                let i = choose|i: int| 0 <= i < ids@.len() && ids@[i] == NodeId(k);
                assert(keys[i] == k);
                assert(keys.to_set().contains(k));
            }
            if self.node_map().contains_key(k) {
                assert(keys.to_set().contains(k));
                let i = choose|i: int| 0 <= i < keys.len() && keys[i] == k;
                assert(ids@[i] == NodeId(k));
            }
        }
        assert forall|i: int, j: int| 0 <= i < ids@.len() && 0 <= j < ids@.len() && i != j implies ids@[i] != ids@[j] by {
            assert(keys[i] != keys[j]);
        }
        ids
    }

    /// Every node, each once, in no particular order.
    pub fn all_nodes(&self) -> (r: Vec<&SceneNode>)
        ensures
            exists|keys: Seq<u128>|
                enumerates(keys, self.node_map().dom()) && #[trigger] nodes_at(self.node_map(), keys)
                    == r@.map_values(|n: &SceneNode| n@),
    {
        let ids = self.node_ids();
        let ghost keys = ids@.map_values(|i: NodeId| i.0);
        let mut r: Vec<&SceneNode> = Vec::new();
        let mut i: usize = 0;
        while i < ids.len()
            invariant
                i <= ids@.len(),
                keys == ids@.map_values(|i: NodeId| i.0),
                forall|k: u128| self.node_map().contains_key(k) <==> ids@.contains(NodeId(k)),
                r@.map_values(|n: &SceneNode| n@) == nodes_at(self.node_map(), keys.take(i as int)),
            decreases ids.len() - i,
        {
            assert(ids@.contains(ids@[i as int]));
            assert(self.node_map().dom() =~= self.nodes@.dom());
            assert(self.node_map().contains_key(ids@[i as int].0));
            let n = self.nodes.get(&ids[i].0).unwrap();
            let ghost prev = r@;
            assert(keys.len() == ids@.len());
            assert(prev.map_values(|n: &SceneNode| n@).len() == prev.len());
            assert(prev.len() == i);
            r.push(n);
            assert(self.node_map()[keys[i as int]] == n@);
            assert forall|j: int| 0 <= j < i + 1 implies (#[trigger] r@[j])@
                == nodes_at(self.node_map(), keys.take(i + 1))[j] by {
                assert(r@ == prev.push(n));
                assert(keys.take(i + 1)[j] == keys[j]);
                assert(nodes_at(self.node_map(), keys.take(i + 1))[j] == self.node_map()[keys[j]]);
                if j < i {
                    assert(keys.take(i as int)[j] == keys[j]);
                    assert(prev.map_values(|n: &SceneNode| n@)[j] == nodes_at(self.node_map(), keys.take(i as int))[j]);
                    assert(prev[j]@ == self.node_map()[keys[j]]);
                }
            }
            assert(r@.map_values(|n: &SceneNode| n@) =~= nodes_at(self.node_map(), keys.take(i + 1)));
            i = i + 1;
        }
        proof {
            lemma_ids_enumerate(ids@, self.node_map().dom());
            assert(keys.take(keys.len() as int) =~= keys);
        }
        r
    }

    /// Every node whose id has a mesh, with that mesh, in no particular order.
    pub fn all_nodes_with_mesh(&self) -> (r: Vec<(NodeId, &SceneNode, &MeshData)>)
        ensures
            exists|keys: Seq<u128>|
                enumerates(keys, self.node_map().dom()) && #[trigger] meshed_nodes(self.node_map(), self.mesh_map(), keys)
                    == r@.map_values(|t: (NodeId, &SceneNode, &MeshData)| (t.0, t.1@, *t.2)),
    {
        let ids = self.node_ids();
        let ghost keys = ids@.map_values(|i: NodeId| i.0);
        let mut r: Vec<(NodeId, &SceneNode, &MeshData)> = Vec::new();
        let mut i: usize = 0;
        while i < ids.len()
            invariant
                i <= ids@.len(),
                keys == ids@.map_values(|i: NodeId| i.0),
                forall|k: u128| self.node_map().contains_key(k) <==> ids@.contains(NodeId(k)),
                r@.map_values(|t: (NodeId, &SceneNode, &MeshData)| (t.0, t.1@, *t.2))
                    == meshed_nodes(self.node_map(), self.mesh_map(), keys.take(i as int)),
            decreases ids.len() - i,
        {
            assert(ids@.contains(ids@[i as int]));
            assert(self.node_map().dom() =~= self.nodes@.dom());
            assert(self.node_map().contains_key(ids@[i as int].0));
            let n = self.nodes.get(&ids[i].0).unwrap();
            assert(self.node_map()[keys[i as int]] == n@);
            assert(keys.take(i + 1).drop_last() =~= keys.take(i as int));
            match self.mesh_cache.get(&n.id.0) {
                Some(m) => {
                    r.push((n.id, n, m));
                },
                None => {},
            }
            assert(r@.map_values(|t: (NodeId, &SceneNode, &MeshData)| (t.0, t.1@, *t.2))
                =~= meshed_nodes(self.node_map(), self.mesh_map(), keys.take(i + 1)));
            i = i + 1;
        }
        proof {
            lemma_ids_enumerate(ids@, self.node_map().dom());
            assert(keys.take(keys.len() as int) =~= keys);
        }
        r
    }

    /// The boards other than `exclude`, each with its dimensions, in no
    /// particular order: what snapping measures against.
    pub fn board_dimensions(&self, exclude: Option<NodeId>) -> (r: Vec<(NodeId, [u64; 3])>)
        ensures
            exists|keys: Seq<u128>|
                enumerates(keys, self.node_map().dom()) && #[trigger] board_dims(self.node_map(), keys, exclude) == r@,
    {
        let ids = self.node_ids();
        let ghost keys = ids@.map_values(|i: NodeId| i.0);
        let mut r: Vec<(NodeId, [u64; 3])> = Vec::new();
        let mut i: usize = 0;
        while i < ids.len()
            invariant
                i <= ids@.len(),
                keys == ids@.map_values(|i: NodeId| i.0),
                forall|k: u128| self.node_map().contains_key(k) <==> ids@.contains(NodeId(k)),
                r@ == board_dims(self.node_map(), keys.take(i as int), exclude),
            decreases ids.len() - i,
        {
            assert(ids@.contains(ids@[i as int]));
            assert(self.node_map().dom() =~= self.nodes@.dom());
            assert(self.node_map().contains_key(ids@[i as int].0));
            let n = self.nodes.get(&ids[i].0).unwrap();
            assert(self.node_map()[keys[i as int]] == n@);
            assert(keys.take(i + 1).drop_last() =~= keys.take(i as int));
            match &n.component {
                Some(c) => {
                    let skip = match exclude {
                        Some(ex) => ex.0 == n.id.0,
                        None => false,
                    };
                    if !skip {
                        r.push((n.id, c.dimensions));
                    }
                },
                None => {},
            }
            i = i + 1;
        }
        proof {
            lemma_ids_enumerate(ids@, self.node_map().dom());
            assert(keys.take(keys.len() as int) =~= keys);
        }
        r
    }

    /// Moves node `id` under `new_parent` (`None`: to the top level); see
    /// `reparent`.
    pub fn set_parent(&mut self, id: NodeId, new_parent: Option<NodeId>)
        ensures
            (final(self).node_map(), final(self).root_list()) == reparent(
                old(self).node_map(),
                old(self).root_list(),
                id,
                new_parent,
            ),
            final(self).mesh_map() == old(self).mesh_map(),
    {
        let ghost n0 = self.node_map();
        let ghost r0 = self.root_list();
        let old_parent: Option<Option<NodeId>> = match self.nodes.get(&id.0) {
            Some(n) => Some(n.parent),
            None => None,
        };
        match old_parent {
            Some(Some(p)) => {
                let ghost before = self.nodes@;
                match self.nodes.remove(&p.0) {
                    Some(pn) => {
                        let mut pn = pn;
                        pn.children = without_id(&pn.children, id);
                        self.nodes.insert(p.0, pn);
                        assert(self.nodes@.map_values(|n: SceneNode| n@) =~= before.map_values(|n: SceneNode| n@).insert(p.0, pn@));
                    },
                    None => {
                        assert(self.nodes@ =~= before);
                    },
                }
            },
            Some(None) => {
                self.root_children = without_id(&self.root_children, id);
            },
            None => {},
        }
        let ghost n1 = self.node_map();
        let ghost r1 = self.root_list();
        assert((n1, r1) == detach(n0, r0, id));
        match new_parent {
            Some(p) => {
                let ghost before = self.nodes@;
                match self.nodes.remove(&p.0) {
                    Some(pn) => {
                        let mut pn = pn;
                        pn.children.push(id);
                        self.nodes.insert(p.0, pn);
                        assert(self.nodes@.map_values(|n: SceneNode| n@) =~= before.map_values(|n: SceneNode| n@).insert(p.0, pn@));
                    },
                    None => {
                        assert(self.nodes@ =~= before);
                    },
                }
            },
            None => {
                self.root_children.push(id);
            },
        }
        let ghost n2 = self.node_map();
        let ghost r2 = self.root_list();
        assert((n2, r2) == attach(n1, r1, id, new_parent));
        let ghost before = self.nodes@;
        match self.nodes.remove(&id.0) {
            Some(node) => {
                let mut node = node;
                node.parent = new_parent;
                self.nodes.insert(id.0, node);
                assert(self.nodes@.map_values(|n: SceneNode| n@) =~= before.map_values(|n: SceneNode| n@).insert(id.0, node@));
            },
            None => {
                assert(self.nodes@ =~= before);
            },
        }
    }

    /// The ids from `id` up through its ancestors, as far as they exist, if
    /// that walk ends within `limit` nodes (parent links can form a loop);
    /// see `ancestry`.
    pub fn parent_chain(&self, id: NodeId, limit: usize) -> (r: Option<Vec<NodeId>>)
        ensures
            match ancestry(self.node_map(), id, limit as nat) {
                Some(chain) => r matches Some(v) && v@ == chain,
                None => r is None,
            },
        decreases limit,
    {
        match self.nodes.get(&id.0) {
            None => Some(Vec::new()),
            Some(node) => {
                if limit == 0 {
                    None
                } else {
                    match node.parent {
                        None => {
                            let mut v: Vec<NodeId> = Vec::new();
                            v.push(id);
                            assert(v@ =~= seq![id]);
                            Some(v)
                        },
                        Some(p) => match self.parent_chain(p, limit - 1) {
                            Some(rest) => {
                                let mut v: Vec<NodeId> = Vec::new();
                                v.push(id);
                                let mut rest = rest;
                                let ghost rest_v = rest@;
                                v.append(&mut rest);
                                assert(v@ =~= seq![id] + rest_v);
                                Some(v)
                            },
                            None => None,
                        },
                    }
                }
            },
        }
    }

    /// The nodes of the subtree of `id` (see `subtree`), each once, `id`
    /// first.
    fn collect_subtree(&self, id: u128) -> (found: Vec<u128>)
        requires
            self.node_map().contains_key(id),
        ensures
            found@.len() > 0,
            found@[0] == id,
            found@.no_duplicates(),
            forall|x: u128| found@.contains(x) <==> subtree(self.node_map(), id).contains(x),
            forall|x: u128| #[trigger] found@.contains(x) ==> self.node_map().contains_key(x),
    {
        let ghost nodes = self.node_map();
        let ghost tree = subtree(nodes, id);
        let mut found: Vec<u128> = Vec::new();
        found.push(id);
        let mut stack: Vec<u128> = Vec::new();
        stack.push(id);
        assert(tree.contains(id));
        assert(nodes.dom() =~= self.nodes@.dom());
        assert(found@.contains(id)) by {
            assert(found@[0] == id);
        }
        while stack.len() > 0
            invariant
                nodes == self.node_map(),
                nodes.dom().finite(),
                tree == subtree(nodes, id),
                found@.len() > 0,
                found@[0] == id,
                found@.no_duplicates(),
                stack@.no_duplicates(),
                forall|x: u128| #[trigger] found@.contains(x) ==> nodes.contains_key(x) && tree.contains(x),
                forall|i: int| 0 <= i < stack@.len() ==> found@.contains(#[trigger] stack@[i]),
                forall|p: u128, c: u128|
                    found@.contains(p) && !stack@.contains(p) && #[trigger] child_edge(nodes, p, c) ==> found@.contains(c),
            decreases nodes.dom().len() - found@.len(), stack@.len(),
        {
            proof {
                assert forall|i: int| 0 <= i < found@.len() implies nodes.dom().contains(#[trigger] found@[i]) by {
                    assert(found@.contains(found@[i]));
                }
                lemma_distinct_within(found@, nodes.dom());
            }
            let ghost st = stack@;
            let p = match stack.pop() {
                Some(p) => p,
                None => {
                    return found;
                },
            };
            let ghost found0 = found@;
            let ghost stack0 = stack@;
            assert(st == stack0.push(p));
            assert(found@.contains(p)) by {
                assert(st[st.len() - 1] == p);
            }
            assert forall|q: u128, c: u128|
                found@.contains(q) && !stack@.contains(q) && q != p && #[trigger] child_edge(nodes, q, c) implies found@.contains(c) by {
                if st.contains(q) {
                    let i = choose|i: int| 0 <= i < st.len() && st[i] == q;
                    if i < stack0.len() {
                        assert(stack0[i] == q);
                    }
                }
            }
            assert(!stack@.contains(p)) by {
                if stack@.contains(p) {
                    let i = choose|i: int| 0 <= i < stack@.len() && stack@[i] == p;
                    assert(stack0.push(p)[i] == stack0.push(p)[stack0.len() as int]);
                }
            }
            match self.nodes.get(&p) {
                Some(node) => {
                    let mut k: usize = 0;
                    while k < node.children.len()
                        invariant
                            nodes == self.node_map(),
                            tree == subtree(nodes, id),
                            nodes.contains_key(p),
                            nodes[p].children == node.children@,
                            found@.contains(p),
                            !stack@.contains(p),
                            k <= node.children@.len(),
                            found@.len() > 0,
                            found@[0] == id,
                            found@.no_duplicates(),
                            stack@.no_duplicates(),
                            found@.len() >= found0.len(),
                            found@.len() == found0.len() || found@.len() > found0.len(),
                            stack@.len() >= stack0.len(),
                            found@.len() == found0.len() ==> stack@.len() == stack0.len(),
                            forall|x: u128| #[trigger] found@.contains(x) ==> nodes.contains_key(x) && tree.contains(x),
                            forall|i: int| 0 <= i < stack@.len() ==> found@.contains(#[trigger] stack@[i]),
                            forall|q: u128, c: u128|
                                found@.contains(q) && !stack@.contains(q) && q != p && #[trigger] child_edge(nodes, q, c)
                                    ==> found@.contains(c),
                            forall|j: int|
                                0 <= j < k && nodes.contains_key((#[trigger] node.children@[j]).0) ==> found@.contains(
                                    node.children@[j].0,
                                ),
                        decreases node.children.len() - k,
                    {
                        let c = node.children[k].0;
                        if self.nodes.contains_key(&c) && !contains_key_in(&found, c) {
                            proof {
                                assert(child_edge(nodes, p, c)) by {
                                    assert(node.children@[k as int] == NodeId(c));
                                }
                                assert forall|s: Set<u128>| #[trigger] closed_below(nodes, id, s) implies s.contains(c) by {
                                    assert(tree.contains(p));
                                    assert(s.contains(p));
                                }
                                assert(tree.contains(c));
                                assert(nodes.contains_key(c));
                            }
                            let ghost f1 = found@;
                            let ghost s1 = stack@;
                            found.push(c);
                            stack.push(c);
                            proof {
                                assert forall|i: int, j: int| 0 <= i < found@.len() && 0 <= j < found@.len() && i != j implies found@[i] != found@[j] by {
                                    if j == f1.len() {
                                        assert(found@[i] == f1[i]);
                                    } else if i == f1.len() {
                                        assert(found@[j] == f1[j]);
                                    }
                                }
                                assert forall|i: int, j: int| 0 <= i < stack@.len() && 0 <= j < stack@.len() && i != j implies stack@[i] != stack@[j] by {
                                    if j == s1.len() {
                                        assert(stack@[i] == s1[i]);
                                        assert(f1.contains(s1[i]));
                                    } else if i == s1.len() {
                                        assert(stack@[j] == s1[j]);
                                        assert(f1.contains(s1[j]));
                                    }
                                }
                                assert(found@ == f1.push(c));
                                assert forall|x: u128| #[trigger] found@.contains(x) implies nodes.contains_key(x) && tree.contains(x) by {
                                    if x != c {
                                        let i = choose|i: int| 0 <= i < found@.len() && found@[i] == x;
                                        assert(i < f1.len());
                                        assert(f1[i] == x);
                                        assert(f1.contains(x));
                                    }
                                }
                                assert forall|i: int| 0 <= i < stack@.len() implies found@.contains(#[trigger] stack@[i]) by {
                                    if i < s1.len() {
                                        assert(f1.contains(s1[i]));
                                        let j = choose|j: int| 0 <= j < f1.len() && f1[j] == s1[i];
                                        assert(found@[j] == s1[i]);
                                    } else {
                                        assert(found@[f1.len() as int] == c);
                                    }
                                }
                                assert forall|q: u128, d: u128|
                                    found@.contains(q) && !stack@.contains(q) && q != p && #[trigger] child_edge(nodes, q, d) implies found@.contains(d) by {
                                    if q != c {
                                        let i = choose|i: int| 0 <= i < found@.len() && found@[i] == q;
                                        assert(f1[i] == q);
                                        if s1.contains(q) {
                                            let j = choose|j: int| 0 <= j < s1.len() && s1[j] == q;
                                            assert(stack@[j] == q);
                                        }
                                        assert(f1.contains(d));
                                        let j = choose|j: int| 0 <= j < f1.len() && f1[j] == d;
                                        assert(found@[j] == d);
                                    } else {
                                        assert(stack@[s1.len() as int] == c);
                                    }
                                }
                                assert forall|j: int|
                                    0 <= j < k + 1 && nodes.contains_key((#[trigger] node.children@[j]).0) implies found@.contains(
                                        node.children@[j].0,
                                    ) by {
                                    if j < k {
                                        let i = choose|i: int| 0 <= i < f1.len() && f1[i] == node.children@[j].0;
                                        assert(found@[i] == f1[i]);
                                    } else {
                                        assert(found@[f1.len() as int] == c);
                                    }
                                }
                                assert(found@.contains(p)) by {
                                    let i = choose|i: int| 0 <= i < f1.len() && f1[i] == p;
                                    assert(found@[i] == p);
                                }
                                assert(!stack@.contains(p)) by {
                                    if stack@.contains(p) {
                                        let i = choose|i: int| 0 <= i < stack@.len() && stack@[i] == p;
                                        if i < s1.len() {
                                            assert(s1[i] == p);
                                        }
                                    }
                                }
                                assert(found@[0] == id);
                            }
                        }
                        k = k + 1;
                    }
                },
                None => {},
            }
            proof {
                assert forall|i: int| 0 <= i < found@.len() implies nodes.dom().contains(#[trigger] found@[i]) by {
                    assert(found@.contains(found@[i]));
                }
                lemma_distinct_within(found@, nodes.dom());
                assert forall|q: u128, c: u128|
                    found@.contains(q) && !stack@.contains(q) && #[trigger] child_edge(nodes, q, c) implies found@.contains(c) by {
                    if q == p {
                        let j = choose|j: int| 0 <= j < nodes[p].children.len() && nodes[p].children[j] == NodeId(c);
                        assert(nodes[p].children[j].0 == c);
                    }
                }
            }
        }
        proof {
            assert(closed_below(nodes, id, found@.to_set())) by {
                assert forall|p: u128, c: u128| #[trigger] found@.to_set().contains(p) && #[trigger] child_edge(nodes, p, c) implies found@.to_set().contains(c) by {
                    assert(found@.contains(p));
                    assert(!stack@.contains(p));
                }
            }
            assert forall|x: u128| found@.contains(x) <==> tree.contains(x) by {
                if tree.contains(x) {
                    assert(found@.to_set().contains(x));
                }
            }
        }
        found
    }

    /// Removes node `id` and its whole subtree (see `subtree`), with their
    /// meshes; each removed node leaves its parent's child list, or the
    /// top-level list (see `removal`). Returns the node as it was, or
    /// `None`, changing nothing, for an unknown id.
    pub fn remove_node(&mut self, id: NodeId) -> (r: Option<SceneNode>)
        ensures
            !old(self).node_map().contains_key(id.0) ==> {
                &&& r is None
                &&& final(self).node_map() == old(self).node_map()
                &&& final(self).root_list() == old(self).root_list()
                &&& final(self).mesh_map() == old(self).mesh_map()
            },
            old(self).node_map().contains_key(id.0) ==> {
                &&& r matches Some(n) && n@ == old(self).node_map()[id.0]
                &&& (final(self).node_map(), final(self).root_list()) == removal(
                    old(self).node_map(),
                    old(self).root_list(),
                    id.0,
                )
                &&& final(self).mesh_map() == old(self).mesh_map().remove_keys(subtree(old(self).node_map(), id.0))
            },
    {
        if !self.nodes.contains_key(&id.0) {
            return None;
        }
        let found = self.collect_subtree(id.0);
        let ghost nodes0 = self.node_map();
        let ghost meshes0 = self.mesh_map();
        let ghost roots0 = self.root_list();
        let ghost tree = subtree(nodes0, id.0);
        let mut gone: Vec<(u128, Option<NodeId>)> = Vec::new();
        let mut removed: Option<SceneNode> = None;
        let mut k: usize = 0;
        while k < found.len()
            invariant
                k <= found@.len(),
                found@.len() > 0,
                found@[0] == id.0,
                found@.no_duplicates(),
                forall|x: u128| #[trigger] found@.contains(x) ==> nodes0.contains_key(x),
                gone@.len() == k,
                forall|i: int| 0 <= i < k ==> #[trigger] gone@[i] == (found@[i], nodes0[found@[i]].parent),
                self.node_map() == nodes0.remove_keys(found@.take(k as int).to_set()),
                self.mesh_map() == meshes0.remove_keys(found@.take(k as int).to_set()),
                self.root_list() == roots0,
                k > 0 ==> (removed matches Some(n) && n@ == nodes0[id.0]),
            decreases found.len() - k,
        {
            let r = found[k];
            let ghost before = self.nodes@;
            let ghost mbefore = self.mesh_cache@;
            proof {
                assert(found@.contains(r));
                assert(!found@.take(k as int).to_set().contains(r)) by {
                    if found@.take(k as int).contains(r) {
                        let i = choose|i: int| 0 <= i < k && found@.take(k as int)[i] == r;
                        assert(found@[i] == found@[k as int]);
                    }
                }
                assert(self.node_map().contains_key(r));
                assert(self.nodes@.contains_key(r));
                assert(found@.take(k + 1) =~= found@.take(k as int).push(r));
                let t0 = found@.take(k as int);
                let t1 = found@.take(k + 1);
                assert forall|x: u128| t1.to_set().contains(x) <==> t0.to_set().insert(r).contains(x) by {
                    if t1.contains(x) {
                        let i = choose|i: int| 0 <= i < t1.len() && #[trigger] t1[i] == x;
                        if i < k {
                            assert(t0[i] == x);
                        }
                    }
                    if t0.contains(x) {
                        let i = choose|i: int| 0 <= i < t0.len() && #[trigger] t0[i] == x;
                        assert(t1[i] == x);
                    }
                    if x == r {
                        assert(t1[k as int] == r);
                    }
                }
                assert(found@.take(k + 1).to_set() =~= found@.take(k as int).to_set().insert(r));
            }
            let ghost nm = self.node_map();
            assert(nm[r] == nodes0[r]);
            match self.nodes.remove(&r) {
                Some(n) => {
                    assert(before[r] == n);
                    assert(nm[r] == before[r]@);
                    assert(n@ == nodes0[r]);
                    gone.push((r, n.parent));
                    if k == 0 {
                        removed = Some(n);
                    }
                },
                None => {},
            }
            self.mesh_cache.remove(&r);
            proof {
                assert(self.nodes@.map_values(|n: SceneNode| n@) =~= before.map_values(|n: SceneNode| n@).remove(r));
                assert(self.node_map() =~= nodes0.remove_keys(found@.take(k + 1).to_set()));
                assert(self.mesh_map() =~= meshes0.remove_keys(found@.take(k + 1).to_set()));
            }
            k = k + 1;
        }
        assert(found@.take(found@.len() as int) =~= found@);
        assert(found@.to_set() =~= tree);
        proof {
            assert forall|x: u128, m: Option<NodeId>| gone@.contains((x, m)) <==> tree.contains(x) && nodes0[x].parent == m by {
                if gone@.contains((x, m)) {
                    let i = choose|i: int| 0 <= i < gone@.len() && gone@[i] == (x, m);
                    assert(found@.contains(found@[i]));
                }
                if tree.contains(x) && nodes0[x].parent == m {
                    assert(found@.contains(x));
                    let i = choose|i: int| 0 <= i < found@.len() && found@[i] == x;
                    assert(gone@[i] == (x, m));
                }
            }
        }
        let ghost kept = self.node_map();
        assert(kept.dom() =~= nodes0.dom().difference(tree));
        let mut j: usize = 0;
        while j < gone.len()
            invariant
                j <= gone@.len(),
                forall|x: u128, m: Option<NodeId>| #[trigger] gone@.contains((x, m)) <==> tree.contains(x) && nodes0[x].parent == m,
                self.node_map().dom() == kept.dom(),
                kept.dom() == nodes0.dom().difference(tree),
                forall|key: u128| #[trigger] self.node_map().contains_key(key) ==> {
                    let v = self.node_map()[key];
                    &&& v == (NodeView { children: v.children, ..nodes0[key] })
                    &&& (v.children == nodes0[key].children || v.children == pruned(nodes0, tree, Some(NodeId(key)), nodes0[key].children))
                },
                forall|i: int|
                    #![trigger gone@[i]]
                    0 <= i < j && gone@[i].1 is Some && self.node_map().contains_key(parent_key(gone@[i].1))
                        ==> self.node_map()[parent_key(gone@[i].1)].children == pruned(
                        nodes0,
                        tree,
                        gone@[i].1,
                        nodes0[parent_key(gone@[i].1)].children,
                    ),
                self.mesh_map() == meshes0.remove_keys(tree),
                self.root_list() == roots0,
            decreases gone.len() - j,
        {
            match gone[j].1 {
                Some(p) => {
                    let ghost before = self.nodes@;
                    let ghost nm2 = self.node_map();
                    match self.nodes.remove(&p.0) {
                        Some(pn) => {
                            let ghost old_children = pn.children@;
                            assert(before[p.0] == pn);
                            assert(nm2.contains_key(p.0));
                            assert(nm2[p.0].children == old_children);
                            let mut pn = pn;
                            pn.children = prune_list(&pn.children, &gone, Some(p));
                            proof {
                                let f1 = |c: NodeId| !gone@.contains((c.0, Some(p)));
                                let f2 = |c: NodeId| !(tree.contains(c.0) && nodes0[c.0].parent == Some(NodeId(p.0)));
                                assert(p == NodeId(p.0));
                                assert(f1 =~= f2);
                                let orig = nodes0[p.0].children;
                                lemma_filter_twice(orig, f2);
                                assert(pn.children@ == old_children.filter(f2));
                                assert(pruned(nodes0, tree, Some(NodeId(p.0)), orig) == orig.filter(f2));
                                assert(pn.children@ == pruned(nodes0, tree, Some(NodeId(p.0)), nodes0[p.0].children));
                            }
                            self.nodes.insert(p.0, pn);
                            assert(self.nodes@.map_values(|n: SceneNode| n@) =~= before.map_values(|n: SceneNode| n@).insert(p.0, pn@));
                        },
                        None => {
                            assert(self.nodes@ =~= before);
                        },
                    }
                },
                None => {},
            }
            j = j + 1;
        }
        let ghost roots_pruned = pruned(nodes0, tree, None, roots0);
        self.root_children = prune_list(&self.root_children, &gone, None);
        proof {
            let f1 = |c: NodeId| !gone@.contains((c.0, None::<NodeId>));
            let f2 = |c: NodeId| !(tree.contains(c.0) && nodes0[c.0].parent == None::<NodeId>);
            assert(f1 =~= f2);
            let want = removal(nodes0, roots0, id.0);
            assert forall|key: u128| #[trigger] self.node_map().contains_key(key) implies self.node_map()[key] == want.0[key] by {
                let v = self.node_map()[key];
                let pr = pruned(nodes0, tree, Some(NodeId(key)), nodes0[key].children);
                if v.children != pr {
                    let f = |c: NodeId| !(tree.contains(c.0) && nodes0[c.0].parent == Some(NodeId(key)));
                    assert forall|i: int| 0 <= i < nodes0[key].children.len() implies f(#[trigger] nodes0[key].children[i]) by {
                        let c = nodes0[key].children[i];
                        if tree.contains(c.0) && nodes0[c.0].parent == Some(NodeId(key)) {
                            assert(gone@.contains((c.0, Some(NodeId(key)))));
                            let g = choose|g: int| 0 <= g < gone@.len() && gone@[g] == (c.0, Some(NodeId(key)));
                            assert(gone@[g].1 is Some);
                        }
                    }
                    lemma_filter_all(nodes0[key].children, f);
                }
            }
            assert(self.node_map() =~= want.0);
        }
        removed
    }

    /// A node as the interface sees it (see `shows`).
    fn snapshot_node(&self, node: &SceneNode) -> (s: SceneNodeSnapshot)
        ensures
            shows(node@, self.mesh_map(), s),
    {
        let parent_id = match node.parent {
            Some(p) => Some(p.to_string()),
            None => None,
        };
        let (dimensions, lumber_type, grain_direction) = match &node.component {
            Some(c) => {
                let lt = match &c.lumber_type {
                    LumberType::Standard(ls) => ls.nominal_label.clone(),
                    LumberType::Custom => String::from_str("Custom"),
                };
                let gd = match c.grain_direction {
                    GrainDirection::AlongLength => String::from_str("AlongLength"),
                    GrainDirection::AlongWidth => String::from_str("AlongWidth"),
                    GrainDirection::AlongHeight => String::from_str("AlongHeight"),
                };
                (Some(c.dimensions), Some(lt), Some(gd))
            },
            None => (None, None, None),
        };
        SceneNodeSnapshot {
            id: node.id.to_string(),
            label: node.label.clone(),
            parent_id,
            children: id_strings(&node.children),
            position: node.position,
            rotation: node.rotation,
            has_mesh: self.mesh_cache.contains_key(&node.id.0),
            dimensions,
            lumber_type,
            grain_direction,
        }
    }

    /// Every node as the interface sees it (see `shows`), each once, in no
    /// particular order.
    pub fn snapshot(&self) -> (snap: SceneTreeSnapshot)
        ensures
            snap.nodes@.len() == self.node_map().len(),
            exists|keys: Seq<u128>|
                #![trigger keys.len()]
                keys.len() == snap.nodes@.len() && keys.no_duplicates() && (forall|k: u128|
                    self.node_map().contains_key(k) <==> keys.contains(k)) && (forall|i: int|
                    0 <= i < keys.len() ==> #[trigger] shows(self.node_map()[keys[i]], self.mesh_map(), snap.nodes@[i])),
    {
        let ids = self.node_ids();
        let ghost keys = ids@.map_values(|c: NodeId| c.0);
        let mut nodes: Vec<SceneNodeSnapshot> = Vec::new();
        let mut k: usize = 0;
        while k < ids.len()
            invariant
                k <= ids@.len(),
                keys == ids@.map_values(|c: NodeId| c.0),
                forall|c: NodeId| #[trigger] ids@.contains(c) ==> self.node_map().contains_key(c.0),
                nodes@.len() == k,
                forall|i: int| 0 <= i < k ==> #[trigger] shows(self.node_map()[keys[i]], self.mesh_map(), nodes@[i]),
            decreases ids.len() - k,
        {
            assert(ids@.contains(ids@[k as int]));
            match self.nodes.get(&ids[k].0) {
                Some(node) => {
                    let sn = self.snapshot_node(node);
                    nodes.push(sn);
                },
                None => {},
            }
            k = k + 1;
        }
        proof {
            assert forall|i: int, j: int| 0 <= i < keys.len() && 0 <= j < keys.len() && i != j implies keys[i] != keys[j] by {
                assert(ids@[i] != ids@[j]);
            }
            assert forall|x: u128| self.node_map().contains_key(x) <==> keys.contains(x) by {
                if keys.contains(x) {
                    let i = choose|i: int| 0 <= i < keys.len() && keys[i] == x;
                    assert(ids@[i] == NodeId(x));
                }
                if self.node_map().contains_key(x) {
                    assert(ids@.contains(NodeId(x)));
                    let i = choose|i: int| 0 <= i < ids@.len() && ids@[i] == NodeId(x);
                    assert(keys[i] == x);
                }
            }
        }
        SceneTreeSnapshot { nodes }
    }
}

/// The node that `add_node` creates: top-level, without children.
pub open spec fn fresh_node(
    id: NodeId,
    label: String,
    component: Option<BoardComponent>,
    position: [u64; 3],
    rotation: [u64; 3],
) -> NodeView {
    NodeView { id, label, parent: None, children: Seq::empty(), position, rotation, component }
}

/// Removing a node just added under an id that the scene did not use
/// gives back the nodes and top-level list from before.
pub proof fn lemma_remove_undoes_add(
    nodes: Map<u128, NodeView>,
    roots: Seq<NodeId>,
    id: NodeId,
    label: String,
    component: Option<BoardComponent>,
    position: [u64; 3],
    rotation: [u64; 3],
)
    requires
        !nodes.contains_key(id.0),
        !roots.contains(id),
    ensures
        removal(
            nodes.insert(id.0, fresh_node(id, label, component, position, rotation)),
            roots.push(id),
            id.0,
        ) == (nodes, roots),
{
    let n1 = nodes.insert(id.0, fresh_node(id, label, component, position, rotation));
    let tree = subtree(n1, id.0);
    let single = Set::empty().insert(id.0);
    assert(closed_below(n1, id.0, single)) by {
        assert forall|p: u128, c: u128| #[trigger] single.contains(p) && #[trigger] child_edge(n1, p, c) implies single.contains(c) by {
            assert(n1[id.0].children.len() == 0);
        }
    }
    assert forall|x: u128| tree.contains(x) <==> x == id.0 by {
        if tree.contains(x) {
            assert(single.contains(x));
        }
        if x == id.0 {
            assert forall|s: Set<u128>| #[trigger] closed_below(n1, id.0, s) implies s.contains(x) by {}
        }
    }
    let want = removal(n1, roots.push(id), id.0);
    assert forall|k: u128| #[trigger] nodes.contains_key(k) implies want.0[k] == nodes[k] by {
        let f = |c: NodeId| !(tree.contains(c.0) && n1[c.0].parent == Some(NodeId(k)));
        assert forall|i: int| 0 <= i < nodes[k].children.len() implies f(#[trigger] nodes[k].children[i]) by {}
        lemma_filter_all(nodes[k].children, f);
        assert(n1[k] == nodes[k]);
    }
    assert(want.0 =~= nodes);
    let g = |c: NodeId| !(tree.contains(c.0) && n1[c.0].parent == None::<NodeId>);
    reveal(Seq::filter);
    assert(roots.push(id).drop_last() =~= roots);
    assert forall|i: int| 0 <= i < roots.len() implies g(#[trigger] roots[i]) by {
        if tree.contains(roots[i].0) {
            assert(roots[i].0 == id.0);
            assert(roots[i] == id);
        }
    }
    lemma_filter_all(roots, g);
    assert(want.1 =~= roots);
}

} // verus!
