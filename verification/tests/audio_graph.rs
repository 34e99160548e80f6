use audio_general::audio::audio_clip::AudioClip;
use audio_general::audio::audio_edge::{
    AddOperation, AudioGraphEdge, BypassOperation, Operation,
};
use audio_general::audio::audio_graph::AudioGraph;
use audio_general::audio::audio_node::AudioNode;
use audio_general::audio::error::AudioError;
use audio_general::audio::frame::{Frame, Mono, Stereo};

fn setup_graph<F: Frame>() -> AudioGraph<F> {
    let mut graph = AudioGraph::<F>::new();
    for name in [
        "node1", "node2", "node3", "node4", "node5", "node6", "node7", "node8", "node9",
    ] {
        let clip = AudioClip::<F>::default();
        let node = AudioNode::new(clip, Some(name));
        graph.add_data_node(node);
    }
    graph
}

#[test]
fn test_add_data_node_mono() {
    let mut graph = setup_graph::<Mono>();

    let clip = AudioClip::<Mono>::default();
    let node = AudioNode::new(clip, Some("test_node"));

    let index = graph.add_data_node(node);
    assert!(graph.get_node_ref(index).is_some());
    assert_eq!(graph.get_node_ref(index).unwrap().get_name(), Some("test_node"));
}

#[test]
fn test_add_data_node_stereo() {
    let mut graph = setup_graph::<Stereo>();

    let clip = AudioClip::<Stereo>::default();
    let node = AudioNode::new(clip, Some("test_node"));

    let index = graph.add_data_node(node);
    assert!(graph.get_node_ref(index).is_some());
    assert_eq!(graph.get_node_ref(index).unwrap().get_name(), Some("test_node"));
}

#[test]
fn test_connect_and_collect_path_mono() {
    let mut graph = setup_graph::<Mono>();

    let node1_id = graph.get_node_id("node1").unwrap();
    let node2_id = graph.get_node_id("node2").unwrap();
    let node3_id = graph.get_node_id("node3").unwrap();

    let add_edge = AudioGraphEdge::new(AddOperation, "AddOp");
    let edge1 = graph.connect(node1_id, Some(node2_id), add_edge).unwrap();

    let add_edge = AudioGraphEdge::new(AddOperation, "AddOp");
    let edge_2 = graph.connect(node2_id, Some(node3_id), add_edge).unwrap();

    let add_edge = AudioGraphEdge::new(AddOperation, "AddOp");
    let edge_3 = graph.connect(node3_id, None, add_edge).unwrap();

    let path = graph.collect_dependents(node1_id);

    assert_eq!(path.len(), 3);

    assert_eq!(path[0], (node1_id, node2_id, edge1));
    assert_eq!(path[1], (node2_id, node3_id, edge_2));
    assert_eq!(path[2], (node3_id, graph.root, edge_3));
}

#[test]
fn test_connect_and_collect_path_stereo() {
    let mut graph = setup_graph::<Stereo>();

    let node1_id = graph.get_node_id("node1").unwrap();
    let node2_id = graph.get_node_id("node2").unwrap();
    let node3_id = graph.get_node_id("node3").unwrap();

    let edge1 = graph
        .connect(node1_id, Some(node2_id), AudioGraphEdge::new(AddOperation, "AddOp"))
        .unwrap();
    let edge2 = graph
        .connect(node2_id, Some(node3_id), AudioGraphEdge::new(AddOperation, "AddOp"))
        .unwrap();
    let edge3 = graph
        .connect(node3_id, None, AudioGraphEdge::new(AddOperation, "AddOp"))
        .unwrap();

    let path = graph.collect_dependents(node1_id);
    println!("Collected path: {:?}", path);

    assert_eq!(path.len(), 3);

    assert_eq!(path[0], (node1_id, node2_id, edge1));
    assert_eq!(path[1], (node2_id, node3_id, edge2));
    assert_eq!(path[2], (node3_id, graph.root, edge3));
}

#[test]
fn test_connect_and_collect_path_mono_complex_1() {
    let mut graph = setup_graph::<Mono>();

    let node1_id = graph.get_node_id("node1").unwrap();
    let node2_id = graph.get_node_id("node2").unwrap();
    let node3_id = graph.get_node_id("node3").unwrap();
    let node4_id = graph.get_node_id("node4").unwrap();
    let node5_id = graph.get_node_id("node5").unwrap();
    let node6_id = graph.get_node_id("node6").unwrap();
    let node7_id = graph.get_node_id("node7").unwrap();

    let edge1 = graph
        .connect(node1_id, Some(node3_id), AudioGraphEdge::new(AddOperation, "AddOp"))
        .unwrap();
    let _edge2 = graph
        .connect(node2_id, Some(node3_id), AudioGraphEdge::new(AddOperation, "AddOp"))
        .unwrap();
    let edge3 = graph
        .connect(node3_id, Some(node4_id), AudioGraphEdge::new(AddOperation, "AddOp"))
        .unwrap();
    let _edge4 = graph
        .connect(node5_id, Some(node4_id), AudioGraphEdge::new(AddOperation, "AddOp"))
        .unwrap();
    let _edge5 = graph
        .connect(node6_id, Some(node5_id), AudioGraphEdge::new(AddOperation, "AddOp"))
        .unwrap();
    let _edge6 = graph
        .connect(node7_id, Some(node5_id), AudioGraphEdge::new(AddOperation, "AddOp"))
        .unwrap();
    let edge7 = graph
        .connect(node4_id, None, AudioGraphEdge::new(AddOperation, "AddOp"))
        .unwrap();

    let path = graph.collect_dependents(node1_id);
    println!("Collected path: {:?}", path);

    assert_eq!(path.len(), 3);

    assert_eq!(path[0], (node1_id, node3_id, edge1));
    assert_eq!(path[1], (node3_id, node4_id, edge3));
    assert_eq!(path[2], (node4_id, graph.root, edge7));
}

#[test]
fn test_connect_and_collect_path_mono_complex_2() {
    let mut graph = setup_graph::<Mono>();

    let node1_id = graph.get_node_id("node1").unwrap();
    let node2_id = graph.get_node_id("node2").unwrap();
    let node3_id = graph.get_node_id("node3").unwrap();
    let node4_id = graph.get_node_id("node4").unwrap();
    let node5_id = graph.get_node_id("node5").unwrap();
    let node6_id = graph.get_node_id("node6").unwrap();
    let node7_id = graph.get_node_id("node7").unwrap();
    let node8_id = graph.get_node_id("node8").unwrap();
    let node9_id = graph.get_node_id("node9").unwrap();

    let edge1 = graph
        .connect(node1_id, Some(node4_id), AudioGraphEdge::new(AddOperation, "AddOp"))
        .unwrap();
    let _edge2 = graph
        .connect(node2_id, Some(node4_id), AudioGraphEdge::new(AddOperation, "AddOp"))
        .unwrap();
    let _edge3 = graph
        .connect(node2_id, Some(node5_id), AudioGraphEdge::new(AddOperation, "AddOp"))
        .unwrap();
    let _edge4 = graph
        .connect(node3_id, Some(node5_id), AudioGraphEdge::new(AddOperation, "AddOp"))
        .unwrap();
    let _edge5 = graph
        .connect(node7_id, Some(node5_id), AudioGraphEdge::new(AddOperation, "AddOp"))
        .unwrap();
    let _edge6 = graph
        .connect(node7_id, Some(node6_id), AudioGraphEdge::new(AddOperation, "AddOp"))
        .unwrap();
    let _edge7 = graph
        .connect(node3_id, Some(node9_id), AudioGraphEdge::new(AddOperation, "AddOp"))
        .unwrap();
    let edge8 = graph
        .connect(node1_id, Some(node8_id), AudioGraphEdge::new(AddOperation, "AddOp"))
        .unwrap();
    let edge9 = graph
        .connect(node4_id, None, AudioGraphEdge::new(AddOperation, "AddOp"))
        .unwrap();
    let _edge10 = graph
        .connect(node5_id, None, AudioGraphEdge::new(AddOperation, "AddOp"))
        .unwrap();
    let _edge11 = graph
        .connect(node6_id, None, AudioGraphEdge::new(AddOperation, "AddOp"))
        .unwrap();

    let path = graph.collect_dependents(node1_id);
    println!("Collected path: {:?}", path);

    assert_eq!(path.len(), 3);
    assert_eq!(path[0], (node1_id, node8_id, edge8));
    assert_eq!(path[1], (node1_id, node4_id, edge1));
    assert_eq!(path[2], (node4_id, graph.root, edge9));
}

#[test]
fn new_graph_holds_the_root_alone() {
    let graph = AudioGraph::<Mono>::new();
    assert_eq!(graph.node_count(), 1);
    assert_eq!(graph.edge_count(), 0);
    assert_eq!(graph.root, 0);
    assert_eq!(graph.get_root(), 0);
    let root = graph.get_node_ref(graph.root).unwrap();
    assert_eq!(root.get_name(), Some("root"));
    assert_eq!(root.get_clip_len(), 220500);
    assert!(graph.collect_dependents(graph.root).is_empty());
    assert!(graph.get_node_ref(1).is_none());
    assert!(graph.get_edge_ref(0).is_none());
}

#[test]
fn connect_refuses_unknown_nodes() {
    let mut graph = setup_graph::<Mono>();
    let edge = AudioGraphEdge::new(AddOperation, "AddOp");
    assert_eq!(graph.connect(99, None, edge), Err(AudioError::UnknownNode));
    let edge = AudioGraphEdge::new(AddOperation, "AddOp");
    assert_eq!(graph.connect(1, Some(99), edge), Err(AudioError::UnknownNode));
    assert_eq!(graph.edge_count(), 0);
}

#[test]
fn connect_refuses_cycles_and_edges_from_the_root() {
    let mut graph = setup_graph::<Mono>();
    graph.connect(1, Some(2), AudioGraphEdge::new(AddOperation, "a")).unwrap();
    graph.connect(2, Some(3), AudioGraphEdge::new(AddOperation, "b")).unwrap();
    assert_eq!(
        graph.connect(3, Some(1), AudioGraphEdge::new(AddOperation, "c")),
        Err(AudioError::CycleDetected)
    );
    assert_eq!(
        graph.connect(2, Some(2), AudioGraphEdge::new(AddOperation, "d")),
        Err(AudioError::CycleDetected)
    );
    assert_eq!(
        graph.connect(graph.root, Some(4), AudioGraphEdge::new(AddOperation, "e")),
        Err(AudioError::CycleDetected)
    );
    assert_eq!(
        graph.connect(graph.root, None, AudioGraphEdge::new(AddOperation, "f")),
        Err(AudioError::CycleDetected)
    );
    assert_eq!(graph.edge_count(), 2);
    assert_eq!(graph.collect_dependents(1).len(), 2);
}

#[test]
fn connect_refuses_an_equal_edge_and_takes_another_operation() {
    let mut graph = setup_graph::<Mono>();
    let first = graph.connect(1, Some(2), AudioGraphEdge::new(AddOperation, "a")).unwrap();
    assert_eq!(
        graph.connect(1, Some(2), AudioGraphEdge::new(AddOperation, "again")),
        Err(AudioError::DuplicateEdge)
    );
    let second = graph.connect(1, Some(2), AudioGraphEdge::new(BypassOperation, "b")).unwrap();
    assert_eq!((first, second), (0, 1));
    assert_eq!(graph.get_edge_ref(second).unwrap().operation, Operation::Bypass);
    assert_eq!(graph.get_edge_ref(second).unwrap().describe(), "b");
    assert_eq!(graph.get_edge_mut(first).unwrap().operation, Operation::Add);
    assert_eq!(graph.get_edge_endpoints(second), Some((1, 2)));
    assert_eq!(graph.get_edge_endpoints(2), None);
    let path = graph.collect_dependents(1);
    assert_eq!(path, vec![(1, 2, second), (1, 2, first)]);
}

#[test]
fn names_are_looked_up_latest_first_and_never_find_the_root() {
    let mut graph = setup_graph::<Mono>();
    assert_eq!(graph.get_node_id("node3"), Some(3));
    assert_eq!(graph.get_node_id("root"), None);
    assert_eq!(graph.get_node_id("nobody"), None);
    let again = graph.add_data_node(AudioNode::new(AudioClip::with_capacity(1), Some("node3")));
    assert_eq!(graph.get_node_id("node3"), Some(again));
    let unnamed = graph.add_data_node(AudioNode::new(AudioClip::with_capacity(1), None));
    assert_eq!(graph.get_node_ref(unnamed).unwrap().get_name(), None);
}

#[test]
fn indexed_nodes_are_numbered_from_one() {
    let mut graph = AudioGraph::<Mono>::new();
    let first = graph.create_indexed_node();
    let second = graph.create_indexed_node();
    assert_eq!(first.get_name(), Some("1"));
    assert_eq!(second.get_name(), Some("2"));
    assert_eq!(first.get_clip_len(), 220500);
    assert_eq!(graph.node_count(), 1);
}

#[test]
fn a_node_can_be_changed_in_place() {
    let mut graph = setup_graph::<Mono>();
    graph.get_node_mut(2).unwrap().set_name("renamed");
    assert_eq!(graph.get_node_id("renamed"), Some(2));
    assert!(graph.get_node_mut(50).is_none());
}

#[test]
fn dependents_of_an_unknown_node_are_none() {
    let graph = setup_graph::<Mono>();
    assert!(graph.collect_dependents(77).is_empty());
}
