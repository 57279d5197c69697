use woodforge::component::{BoardComponent, GrainDirection};
use woodforge::ids::NodeId;
use woodforge::lumber::{LumberCategory, LumberSize};
use woodforge::scene::{MeshData, SceneGraph};

fn c(x: f64, y: f64, z: f64) -> [u64; 3] {
    [x.to_bits(), y.to_bits(), z.to_bits()]
}

fn zero() -> [u64; 3] {
    c(0.0, 0.0, 0.0)
}

fn box_mesh() -> MeshData {
    MeshData {
        positions: vec![0f32.to_bits(); 72],
        normals: vec![0f32.to_bits(); 72],
        uvs: Vec::new(),
        indices: (0..36).collect(),
    }
}

fn make_board(label: &str, w: f64, h: f64, d: f64) -> BoardComponent {
    BoardComponent::new_custom(NodeId::new(), label.to_string(), w.to_bits(), h.to_bits(), d.to_bits())
}

fn world_x(scene: &SceneGraph, id: NodeId) -> f64 {
    let chain = scene.parent_chain(id, scene.node_count() + 1).unwrap();
    chain
        .iter()
        .rev()
        .map(|n| f64::from_bits(scene.get_node(*n).unwrap().position[0]))
        .sum()
}

#[test]
fn test_add_remove() {
    let mut scene = SceneGraph::new();
    let board = make_board("Test Board", 1.5, 3.5, 96.0);
    let id = scene.add_node("Test Board".into(), Some(board), zero(), zero(), Some(box_mesh()));

    assert_eq!(scene.node_count(), 1);
    assert!(scene.get_mesh(id).is_some());

    scene.remove_node(id);
    assert_eq!(scene.node_count(), 0);
    assert!(scene.get_mesh(id).is_none());
}

#[test]
fn test_world_transform() {
    let mut scene = SceneGraph::new();
    let parent_id = scene.add_node("Parent".into(), None, c(10.0, 0.0, 0.0), zero(), None);
    let child_id = scene.add_node("Child".into(), None, c(5.0, 0.0, 0.0), zero(), None);

    scene.set_parent(child_id, Some(parent_id));

    let x = world_x(&scene, child_id);
    assert!((x - 15.0).abs() < 0.001);
}

#[test]
fn test_snapshot() {
    let mut scene = SceneGraph::new();
    let board = make_board("2x4", 1.5, 3.5, 96.0);
    scene.add_node("2x4".into(), Some(board), zero(), zero(), Some(box_mesh()));

    let snap = scene.snapshot();
    assert_eq!(snap.nodes.len(), 1);
    assert_eq!(snap.nodes[0].label, "2x4");
    assert!(snap.nodes[0].has_mesh);
    assert!(snap.nodes[0].dimensions.is_some());
}

#[test]
fn test_full_board_workflow() {
    let lumber_2x4 = LumberSize {
        nominal_label: "2x4".into(),
        category: LumberCategory::Dimensional,
        actual_width: 1.5f64.to_bits(),
        actual_height: 3.5f64.to_bits(),
    };
    let lumber_1x6 = LumberSize {
        nominal_label: "1x6".into(),
        category: LumberCategory::Board,
        actual_width: 0.75f64.to_bits(),
        actual_height: 5.5f64.to_bits(),
    };

    let mut scene = SceneGraph::new();
    let board1 = BoardComponent::new_standard(NodeId::new(), &lumber_2x4, 96.0f64.to_bits());
    let id1 = scene.add_node("2x4 Leg".into(), Some(board1), zero(), zero(), Some(box_mesh()));

    let node1 = scene.get_node(id1).unwrap();
    let dims1 = node1.component.as_ref().unwrap().dimensions;
    assert!((f64::from_bits(dims1[0]) - 1.5).abs() < 0.001);
    assert!((f64::from_bits(dims1[1]) - 3.5).abs() < 0.001);
    assert!((f64::from_bits(dims1[2]) - 96.0).abs() < 0.001);

    let board2 = BoardComponent::new_standard(NodeId::new(), &lumber_1x6, 48.0f64.to_bits());
    let id2 = scene.add_node("1x6 Shelf".into(), Some(board2), c(10.0, 0.0, 0.0), zero(), Some(box_mesh()));

    assert_eq!(scene.node_count(), 2);

    let snap = scene.snapshot();
    assert_eq!(snap.nodes.len(), 2);
    let labels: Vec<&str> = snap.nodes.iter().map(|n| n.label.as_str()).collect();
    assert!(labels.contains(&"2x4 Leg"));
    assert!(labels.contains(&"1x6 Shelf"));

    assert!(scene.get_mesh(id1).is_some());
    assert!(scene.get_mesh(id2).is_some());
}

#[test]
fn removing_a_parent_removes_its_subtree() {
    let mut scene = SceneGraph::new();
    let a = scene.add_node("A".into(), None, zero(), zero(), None);
    let b = scene.add_node("B".into(), None, zero(), zero(), None);
    let d = scene.add_node("D".into(), None, zero(), zero(), None);
    let e = scene.add_node("E".into(), None, zero(), zero(), None);
    scene.set_parent(b, Some(a));
    scene.set_parent(d, Some(b));
    assert_eq!(scene.get_node(a).unwrap().children, vec![b]);

    let removed = scene.remove_node(a).unwrap();
    assert_eq!(removed.label, "A");
    assert_eq!(scene.node_count(), 1);
    assert!(scene.get_node(b).is_none());
    assert!(scene.get_node(d).is_none());
    assert!(scene.get_node(e).is_some());
    assert!(scene.remove_node(a).is_none());
}

#[test]
fn removing_a_child_updates_its_parent() {
    let mut scene = SceneGraph::new();
    let a = scene.add_node("A".into(), None, zero(), zero(), None);
    let b = scene.add_node("B".into(), None, zero(), zero(), None);
    scene.set_parent(b, Some(a));
    scene.remove_node(b);
    assert!(scene.get_node(a).unwrap().children.is_empty());
    assert_eq!(scene.node_count(), 1);
}

#[test]
fn node_without_component_keeps_no_mesh() {
    let mut scene = SceneGraph::new();
    let id = scene.add_node("Group".into(), None, zero(), zero(), Some(box_mesh()));
    assert!(scene.get_mesh(id).is_none());
    let board = make_board("B", 1.0, 1.0, 1.0);
    assert_eq!(board.grain_direction, GrainDirection::AlongLength);
    let id2 = scene.add_node("B".into(), Some(board), zero(), zero(), Some(box_mesh()));
    assert_eq!(scene.get_mesh(id2).unwrap().vertex_count(), 24);
    assert_eq!(scene.get_mesh(id2).unwrap().triangle_count(), 12);
}

#[test]
fn parent_loop_has_no_chain() {
    let mut scene = SceneGraph::new();
    let a = scene.add_node("A".into(), None, zero(), zero(), None);
    let b = scene.add_node("B".into(), None, zero(), zero(), None);
    scene.set_parent(a, Some(b));
    scene.set_parent(b, Some(a));
    assert!(scene.parent_chain(a, scene.node_count() + 1).is_none());
    let chain = scene.parent_chain(NodeId::new(), 5).unwrap();
    assert!(chain.is_empty());
}

#[test]
fn moving_and_turning_a_node() {
    let mut scene = SceneGraph::new();
    let a = scene.add_node("A".into(), None, zero(), zero(), None);
    scene.set_position(a, c(1.0, 2.0, 3.0));
    scene.set_rotation(a, c(0.0, 1.5, 0.0));
    let n = scene.get_node(a).unwrap();
    assert_eq!(n.position, c(1.0, 2.0, 3.0));
    assert_eq!(n.rotation, c(0.0, 1.5, 0.0));
    let snap = scene.snapshot();
    assert_eq!(snap.nodes[0].id, a.to_string());
    assert_eq!(snap.nodes[0].grain_direction, None);
}

#[test]
fn update_mesh_replaces_cached_mesh() {
    let mut scene = SceneGraph::new();
    let board = make_board("Board", 3.5, 1.5, 24.0);
    let id = scene.add_node("Board".into(), Some(board), zero(), zero(), Some(box_mesh()));
    let replacement = MeshData { positions: vec![1, 2, 3], normals: vec![4, 5, 6], uvs: vec![7, 8], indices: vec![0, 0, 0] };
    scene.update_mesh(id, replacement);
    let m = scene.get_mesh(id).unwrap();
    assert_eq!(m.positions, vec![1, 2, 3]);
    assert_eq!(m.indices, vec![0, 0, 0]);
    assert_eq!(scene.node_count(), 1);
}

#[test]
fn all_nodes_lists_every_node_once() {
    let mut scene = SceneGraph::new();
    let a = scene.add_node("A".into(), None, zero(), zero(), None);
    let b = scene.add_node("B".into(), Some(make_board("B", 3.5, 1.5, 24.0)), zero(), zero(), Some(box_mesh()));
    scene.set_parent(b, Some(a));
    let mut ids: Vec<u128> = scene.all_nodes().iter().map(|n| n.id.0).collect();
    ids.sort();
    let mut expected = vec![a.0, b.0];
    expected.sort();
    assert_eq!(ids, expected);
}

#[test]
fn nodes_with_mesh_are_the_boards() {
    let mut scene = SceneGraph::new();
    let _group = scene.add_node("Group".into(), None, zero(), zero(), None);
    let b = scene.add_node("B".into(), Some(make_board("B", 3.5, 1.5, 24.0)), zero(), zero(), Some(box_mesh()));
    let _bare = scene.add_node("Bare".into(), Some(make_board("C", 1.0, 1.0, 1.0)), zero(), zero(), None);
    let meshed = scene.all_nodes_with_mesh();
    assert_eq!(meshed.len(), 1);
    assert_eq!(meshed[0].0, b);
    assert_eq!(meshed[0].1.label, "B");
    assert_eq!(meshed[0].2.indices.len(), 36);
}

#[test]
fn board_dimensions_skip_the_excluded_board() {
    let mut scene = SceneGraph::new();
    let _group = scene.add_node("Group".into(), None, zero(), zero(), None);
    let a = scene.add_node("A".into(), Some(make_board("A", 3.5, 1.5, 24.0)), zero(), zero(), None);
    let b = scene.add_node("B".into(), Some(make_board("B", 5.5, 0.75, 36.0)), zero(), zero(), None);
    let all = scene.board_dimensions(None);
    assert_eq!(all.len(), 2);
    let others = scene.board_dimensions(Some(a));
    assert_eq!(others.len(), 1);
    assert_eq!(others[0].0, b);
    assert_eq!(others[0].1, c(5.5, 0.75, 36.0));
}

#[test]
fn test_standard_board() {
    let catalog = woodforge::lumber::LumberCatalog::new();
    let lumber = catalog.find_by_label("2x4").unwrap();
    let id = NodeId::new();
    let board = BoardComponent::new_standard(id, lumber, 96.0f64.to_bits());

    let mut scene = SceneGraph::new();
    // The tessellated box of the board: 24 vertices, 12 triangles.
    let node_id = scene.add_node("2x4".into(), Some(board), zero(), zero(), Some(box_mesh()));

    let mesh = scene.get_mesh(node_id).unwrap();
    assert_eq!(mesh.vertex_count(), 24);
    assert_eq!(mesh.triangle_count(), 12);
}
