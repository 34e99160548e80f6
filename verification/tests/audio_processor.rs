use audio_general::audio::audio_clip::{AudioClip, AudioClipEnum};
use audio_general::audio::audio_edge::{
    AddOperation, AudioGraphEdge, BypassOperation, Operation, SubtractOperation,
};
use audio_general::audio::audio_node::AudioNode;
use audio_general::audio::audio_processor::AudioProcessor;
use audio_general::audio::error::AudioError;
use audio_general::audio::frame::{Mono, Stereo};

fn create_simple_clip() -> AudioClip<Mono> {
    let samples: Vec<i32> = (1..=3).collect();
    AudioClip::<Mono>::new(samples, 44100)
}

#[test]
fn test_two_nodes_to_root() {
    let mut processor = AudioProcessor::<Mono>::new();

    let node1 =
        processor.add_node_from_clip(AudioClipEnum::Mono(create_simple_clip()), Some("node1"));
    let node2 =
        processor.add_node_from_clip(AudioClipEnum::Mono(create_simple_clip()), Some("node2"));

    let add_edge = AudioGraphEdge::new(AddOperation, "AddOp");
    processor.connect(node1, None, add_edge).unwrap();
    let add_edge = AudioGraphEdge::new(AddOperation, "AddOp");
    processor.connect(node2, None, add_edge).unwrap();

    let expected_samples = [[2], [4], [6]];

    for expected in &expected_samples {
        let sample = processor
            .get_node_or_root_sample(None)
            .expect("Expected a sample");
        assert_eq!(sample, *expected);
    }
}

#[test]
fn test_audio_processor_complex_graph() {
    let mut processor = AudioProcessor::<Mono>::new();

    let node1 =
        processor.add_node_from_clip(AudioClipEnum::Mono(create_simple_clip()), Some("node1"));
    let node2 =
        processor.add_node_from_clip(AudioClipEnum::Mono(create_simple_clip()), Some("node2"));
    let node3 =
        processor.add_node_from_clip(AudioClipEnum::Mono(create_simple_clip()), Some("node3"));
    let node4 =
        processor.add_node_from_clip(AudioClipEnum::Mono(create_simple_clip()), Some("node4"));

    let add_edge = AudioGraphEdge::new(AddOperation, "AddOp");
    processor.connect(node1, Some(node3), add_edge).unwrap();
    let frames = processor.get_node_frames_copy(node3).unwrap();
    let expected_frames = vec![[2], [4], [6]];
    assert_eq!(frames, expected_frames);

    let add_edge = AudioGraphEdge::new(AddOperation, "AddOp");
    processor.connect(node2, Some(node3), add_edge).unwrap();
    let frames = processor.get_node_frames_copy(node3).unwrap();
    let expected_frames = vec![[3], [6], [9]];
    assert_eq!(frames, expected_frames);

    let add_edge = AudioGraphEdge::new(AddOperation, "AddOp");
    processor.connect(node3, Some(node4), add_edge).unwrap();
    let frames = processor.get_node_frames_copy(node4).unwrap();
    let expected_frames = vec![[4], [8], [12]];
    assert_eq!(frames, expected_frames);

    let add_edge = AudioGraphEdge::new(AddOperation, "AddOp");
    processor.connect(node4, None, add_edge).unwrap();

    let expected_samples = [[4], [8], [12]];

    for expected in &expected_samples {
        let sample = processor
            .get_node_or_root_sample(None)
            .expect("Expected a sample");
        assert_eq!(sample, *expected);
    }
}

#[test]
fn test_audio_processor_complex_graph_2() {
    let mut processor = AudioProcessor::<Mono>::new();

    // Create nodes
    let node1 =
        processor.add_node_from_clip(AudioClipEnum::Mono(create_simple_clip()), Some("node1"));
    let node2 =
        processor.add_node_from_clip(AudioClipEnum::Mono(create_simple_clip()), Some("node2"));
    let node3 =
        processor.add_node_from_clip(AudioClipEnum::Mono(create_simple_clip()), Some("node3"));
    let node4 =
        processor.add_node_from_clip(AudioClipEnum::Mono(create_simple_clip()), Some("node4"));
    let node5 =
        processor.add_node_from_clip(AudioClipEnum::Mono(create_simple_clip()), Some("node5"));
    let node6 =
        processor.add_node_from_clip(AudioClipEnum::Mono(create_simple_clip()), Some("node6"));
    let node7 =
        processor.add_node_from_clip(AudioClipEnum::Mono(create_simple_clip()), Some("node7"));
    let node8 =
        processor.add_node_from_clip(AudioClipEnum::Mono(create_simple_clip()), Some("node8"));

    let add_edge = AudioGraphEdge::new(AddOperation, "AddOp");
    processor.connect(node1, Some(node3), add_edge).unwrap();
    let frames = processor.get_node_frames_copy(node3).unwrap();
    let expected_frames = vec![[2], [4], [6]];
    assert_eq!(frames, expected_frames);

    let add_edge = AudioGraphEdge::new(AddOperation, "AddOp");
    processor.connect(node2, Some(node3), add_edge).unwrap();
    let frames = processor.get_node_frames_copy(node3).unwrap();
    let expected_frames = vec![[3], [6], [9]];
    assert_eq!(frames, expected_frames);

    let add_edge = AudioGraphEdge::new(AddOperation, "AddOp");
    processor.connect(node3, Some(node4), add_edge).unwrap();
    let frames = processor.get_node_frames_copy(node4).unwrap();
    let expected_frames = vec![[4], [8], [12]];
    assert_eq!(frames, expected_frames);

    let add_edge = AudioGraphEdge::new(AddOperation, "AddOp");
    processor.connect(node5, Some(node4), add_edge).unwrap();
    let frames = processor.get_node_frames_copy(node4).unwrap();
    let expected_frames = vec![[5], [10], [15]];
    assert_eq!(frames, expected_frames);

    let add_edge = AudioGraphEdge::new(AddOperation, "AddOp");
    processor.connect(node6, Some(node5), add_edge).unwrap();
    let frames = processor.get_node_frames_copy(node5).unwrap();
    let expected_frames = vec![[2], [4], [6]];
    assert_eq!(frames, expected_frames);
    let frames = processor.get_node_frames_copy(node4).unwrap();
    let expected_frames = vec![[6], [12], [18]];
    assert_eq!(frames, expected_frames);

    let add_edge = AudioGraphEdge::new(AddOperation, "AddOp");
    processor.connect(node7, Some(node5), add_edge).unwrap();
    let frames = processor.get_node_frames_copy(node5).unwrap();
    let expected_frames = vec![[3], [6], [9]];
    assert_eq!(frames, expected_frames);
    let frames = processor.get_node_frames_copy(node4).unwrap();
    let expected_frames = vec![[7], [14], [21]];
    assert_eq!(frames, expected_frames);

    let add_edge = AudioGraphEdge::new(AddOperation, "AddOp");
    processor.connect(node4, None, add_edge).unwrap();

    let expected_samples = [[7], [14], [21]];

    for expected in &expected_samples {
        let sample = processor
            .get_node_or_root_sample(None)
            .expect("Expected a sample");
        assert_eq!(sample, *expected);
    }

    let add_edge = AudioGraphEdge::new(AddOperation, "AddOp");
    processor.connect(node8, Some(node5), add_edge).unwrap();
    let frames = processor.get_node_frames_copy(node5).unwrap();
    let expected_frames = vec![[4], [8], [12]];
    assert_eq!(frames, expected_frames);
    let frames = processor.get_node_frames_copy(node4).unwrap();
    let expected_frames = vec![[8], [16], [24]];
    assert_eq!(frames, expected_frames);

    let expected_samples = [[8], [16], [24]];
    processor.set_root_frame_idx(0);
    for expected in &expected_samples {
        let sample = processor
            .get_node_or_root_sample(None)
            .expect("Expected a sample");
        assert_eq!(sample, *expected);
    }
}

fn create_unit_node(size: usize) -> AudioNode<Mono> {
    let mut frames = Vec::with_capacity(size);
    for _ in 0..size {
        frames.push(1);
    }
    let clip = AudioClip::<Mono>::new(frames, 44100);
    AudioNode::new(clip, None)
}
#[test]
fn audio_processor_test_normalize_clip_bounds() {
    let mut processor = AudioProcessor::<Mono>::new();

    let node1 = create_unit_node(3);
    let mut node2 = create_unit_node(3);

    let mut node3 = create_unit_node(5);
    let mut node4 = create_unit_node(3);

    node2.set_clip_start(4);
    node3.set_clip_start(0);
    node4.set_clip_start(7);

    let node_id1 = processor.add_node(node1).unwrap();
    let node_id2 = processor.add_node(node2).unwrap();
    let node_id3 = processor.add_node(node3).unwrap();
    let node_id4 = processor.add_node(node4).unwrap();

    let add_edge = AudioGraphEdge::new(AddOperation, "AddOp");
    processor.connect(node_id1, Some(node_id2), add_edge).unwrap();
    let frames = processor.get_node_frames_copy(node_id2).unwrap();
    let expected_frames = vec![[1], [1], [1], [0], [1], [1], [1]];
    assert_eq!(frames, expected_frames);

    let add_edge = AudioGraphEdge::new(AddOperation, "AddOp");
    processor.connect(node_id3, Some(node_id4), add_edge).unwrap();
    let frames = processor.get_node_frames_copy(node_id4).unwrap();
    let expected_frames = vec![
        [1],
        [1],
        [1],
        [1],
        [1],
        [0],
        [0],
        [1],
        [1],
        [1],
    ];
    assert_eq!(frames, expected_frames);
}

#[test]
fn test_complex_tree_normalize_clip_bounds() {
    let mut processor = AudioProcessor::<Mono>::new();

    let mut node1 = create_unit_node(3);
    let mut node2 = create_unit_node(5);
    let mut node3 = create_unit_node(3);
    let mut node4 = create_unit_node(3);
    let mut node5 = create_unit_node(5);

    node1.set_clip_start(0);
    node2.set_clip_start(4);
    node3.set_clip_start(0);
    node4.set_clip_start(7);
    node5.set_clip_start(2);

    let node_id1 = processor.add_node(node1).unwrap();
    let node_id2 = processor.add_node(node2).unwrap();
    let node_id3 = processor.add_node(node3).unwrap();
    let node_id4 = processor.add_node(node4).unwrap();
    let node_id5 = processor.add_node(node5).unwrap();

    // Connect Node5 directly to the Root Node
    let root_edge = AudioGraphEdge::new(AddOperation, "RootOp");
    processor.connect(node_id5, None, root_edge).unwrap();

    let frames_node_root = processor.get_node_frames_copy(processor.root_node_index).unwrap();
    let expected_frames_root = vec![[0], [0], [1], [1], [1], [1], [1], [0]];
    assert_eq!(frames_node_root[0..8], expected_frames_root);

    // Connect Node1 and Node2 to Node5
    let add_edge1 = AudioGraphEdge::new(AddOperation, "AddOp1");
    processor.connect(node_id1, Some(node_id5), add_edge1).unwrap();

    let frames_node1 = processor.get_node_frames_copy(node_id5).unwrap();
    let expected_frames_node1 = vec![[1], [1], [2], [1], [1], [1], [1]];
    assert_eq!(frames_node1, expected_frames_node1);

    let frames_node_root = processor.get_node_frames_copy(processor.root_node_index).unwrap();
    let expected_frames_root = vec![[1], [1], [2], [1], [1], [1], [1], [0]];
    assert_eq!(frames_node_root[0..8], expected_frames_root);

    let add_edge2 = AudioGraphEdge::new(AddOperation, "AddOp2");
    processor.connect(node_id2, Some(node_id5), add_edge2).unwrap();

    let node_5 = processor.get_node_frames_copy(node_id5).unwrap();
    let expected_node_5 = vec![
        [1],
        [1],
        [2],
        [1],
        [2],
        [2],
        [2],
        [1],
        [1],
    ];
    assert_eq!(node_5, expected_node_5);

    let frames_node_root = processor.get_node_frames_copy(processor.root_node_index).unwrap();
    let expected_frames_root = vec![
        [1],
        [1],
        [2],
        [1],
        [2],
        [2],
        [2],
        [1],
        [1],
        [0],
    ];
    assert_eq!(frames_node_root[0..10], expected_frames_root);

    // Connect Node3 and Node4 to Node2
    let add_edge3 = AudioGraphEdge::new(AddOperation, "AddOp3");
    processor.connect(node_id3, Some(node_id2), add_edge3).unwrap();

    let node_2 = processor.get_node_frames_copy(node_id2).unwrap();
    let expected_node_2 = vec![
        [1],
        [1],
        [1],
        [0],
        [1],
        [1],
        [1],
        [1],
        [1],
    ];
    assert_eq!(node_2, expected_node_2);

    let node_5 = processor.get_node_frames_copy(node_id5).unwrap();
    let expected_node_5 = vec![
        [2],
        [2],
        [3],
        [1],
        [2],
        [2],
        [2],
        [1],
        [1],
    ];
    assert_eq!(node_5, expected_node_5);

    let frames_node_root = processor.get_node_frames_copy(processor.root_node_index).unwrap();
    let expected_frames_root = vec![
        [2],
        [2],
        [3],
        [1],
        [2],
        [2],
        [2],
        [1],
        [1],
        [0],
    ];
    assert_eq!(frames_node_root[0..10], expected_frames_root);

    let add_edge4 = AudioGraphEdge::new(AddOperation, "AddOp4");
    processor.connect(node_id4, Some(node_id2), add_edge4).unwrap();

    let node_2 = processor.get_node_frames_copy(node_id2).unwrap();
    let expected_node_2 = vec![
        [1],
        [1],
        [1],
        [0],
        [1],
        [1],
        [1],
        [2],
        [2],
        [1],
    ];
    assert_eq!(node_2, expected_node_2);

    let node_5 = processor.get_node_frames_copy(node_id5).unwrap();
    let expected_node_5 = vec![
        [2],
        [2],
        [3],
        [1],
        [2],
        [2],
        [2],
        [2],
        [2],
        [1],
    ];
    assert_eq!(node_5, expected_node_5);

    let frames_node_root = processor.get_node_frames_copy(processor.root_node_index).unwrap();
    let expected_frames_root = vec![
        [2],
        [2],
        [3],
        [1],
        [2],
        [2],
        [2],
        [2],
        [2],
        [1],
        [0],
    ];
    assert_eq!(frames_node_root[0..11], expected_frames_root);
}

fn mono_node(samples: Vec<i32>, start: usize) -> AudioNode<Mono> {
    let mut node = AudioNode::new(AudioClip::<Mono>::new(samples, 44100), None);
    node.set_clip_start(start);
    node
}

fn content(processor: &AudioProcessor<Mono>, node: usize) -> Vec<i32> {
    processor
        .get_node_frames_copy(node)
        .unwrap()
        .iter()
        .map(|f| f[0])
        .collect()
}

fn add(label: &'static str) -> AudioGraphEdge {
    AudioGraphEdge::new(AddOperation, label)
}

#[test]
fn fresh_processor_yields_silence_for_the_root_length_then_nothing() {
    let mut processor = AudioProcessor::<Mono>::new();
    for _ in 0..220500 {
        assert_eq!(processor.get_node_or_root_sample(None), Some([0]));
    }
    assert_eq!(processor.get_node_or_root_sample(None), None);
    assert_eq!(processor.get_node_or_root_sample(None), None);
}

#[test]
fn two_sources_into_root_then_silence() {
    let mut processor = AudioProcessor::<Mono>::new();
    let a = processor.ingest(vec![1, 2, 3], 44100, 1, Some("a")).unwrap();
    let b = processor.ingest(vec![1, 2, 3], 44100, 1, Some("b")).unwrap();
    processor.connect(a, None, add("a")).unwrap();
    processor.connect(b, None, add("b")).unwrap();
    assert_eq!(processor.get_node_or_root_sample(None), Some([2]));
    assert_eq!(processor.get_node_or_root_sample(None), Some([4]));
    assert_eq!(processor.get_node_or_root_sample(None), Some([6]));
    let mut rest = 0;
    while let Some(frame) = processor.get_node_or_root_sample(None) {
        assert_eq!(frame, [0]);
        rest += 1;
    }
    assert_eq!(rest, 220500 - 3);
}

#[test]
fn chain_accumulation() {
    let mut processor = AudioProcessor::<Mono>::new();
    let a = processor.ingest(vec![1, 2, 3], 44100, 1, None).unwrap();
    let b = processor.ingest(vec![1, 2, 3], 44100, 1, None).unwrap();
    let c = processor.ingest(vec![1, 2, 3], 44100, 1, None).unwrap();
    let d = processor.ingest(vec![1, 2, 3], 44100, 1, None).unwrap();
    processor.connect(a, Some(c), add("ac")).unwrap();
    processor.connect(b, Some(c), add("bc")).unwrap();
    processor.connect(c, Some(d), add("cd")).unwrap();
    processor.connect(d, None, add("d")).unwrap();
    assert_eq!(content(&processor, d), vec![4, 8, 12]);
    assert_eq!(content(&processor, processor.root_node_index)[0..4], [4, 8, 12, 0]);
}

#[test]
fn fan_in_with_a_later_edit() {
    let mut processor = AudioProcessor::<Mono>::new();
    let ids: Vec<usize> = (0..8)
        .map(|_| processor.ingest(vec![1, 2, 3], 44100, 1, None).unwrap())
        .collect();
    let (a, b, c, d, e, f, g, h) = (
        ids[0], ids[1], ids[2], ids[3], ids[4], ids[5], ids[6], ids[7],
    );
    processor.connect(a, Some(c), add("ac")).unwrap();
    processor.connect(b, Some(c), add("bc")).unwrap();
    processor.connect(c, Some(d), add("cd")).unwrap();
    processor.connect(e, Some(d), add("ed")).unwrap();
    processor.connect(f, Some(e), add("fe")).unwrap();
    processor.connect(g, Some(e), add("ge")).unwrap();
    assert_eq!(content(&processor, d), vec![7, 14, 21]);
    processor.connect(h, Some(e), add("he")).unwrap();
    assert_eq!(content(&processor, e), vec![4, 8, 12]);
    assert_eq!(content(&processor, d), vec![8, 16, 24]);
}

#[test]
fn a_parent_beyond_the_child_extends_it_and_fills_the_gap() {
    let mut processor = AudioProcessor::<Mono>::new();
    let parent = processor.add_node(mono_node(vec![1, 1, 1, 1, 1], 5)).unwrap();
    let child = processor.add_node(mono_node(vec![1, 1, 1], 0)).unwrap();
    processor.connect(parent, Some(child), add("pc")).unwrap();
    assert_eq!(content(&processor, child), vec![1, 1, 1, 0, 0, 1, 1, 1, 1, 1]);
    let graph = processor.lock_audio_graph();
    let node = graph.get_node_ref(child).unwrap();
    assert_eq!(node.get_clip_start(), 0);
    assert_eq!(node.get_clip_len(), 10);
}

#[test]
fn a_parent_that_starts_inside_the_child_overlaps_it() {
    let mut processor = AudioProcessor::<Mono>::new();
    let parent = processor.add_node(mono_node(vec![1, 1, 1, 1, 1], 4)).unwrap();
    let child = processor.add_node(mono_node(vec![1, 1, 1], 2)).unwrap();
    processor.connect(parent, Some(child), add("pc")).unwrap();
    assert_eq!(content(&processor, child), vec![1, 1, 2, 1, 1, 1, 1]);
    let graph = processor.lock_audio_graph();
    let node = graph.get_node_ref(child).unwrap();
    assert_eq!(node.get_clip_start(), 2);
    assert_eq!(node.get_clip_start() + node.get_clip_len(), 9);
}

#[test]
fn commit_boundary() {
    let mut processor = AudioProcessor::<Mono>::new();
    let p = processor.ingest(vec![1, 2, 3], 44100, 1, None).unwrap();
    let c = processor.ingest(vec![10, 20, 30], 44100, 1, None).unwrap();
    processor.connect(p, Some(c), add("first")).unwrap();
    assert_eq!(content(&processor, c), vec![11, 22, 33]);
    {
        let graph = processor.lock_audio_graph();
        let parent = graph.get_node_ref(p).unwrap();
        assert!(parent.get_delta_clip().get_frames_ref().iter().all(|f| *f == [0]));
        assert_eq!(parent.get_delta_range(), None);
        let child = graph.get_node_ref(c).unwrap();
        assert_eq!(child.get_prev_clip().get_frames_ref(), vec![[11], [22], [33]]);
        assert!(child.get_delta_clip().get_frames_ref().iter().all(|f| *f == [0]));
    }
    assert_eq!(
        processor.connect(p, Some(c), add("again")),
        Err(AudioError::DuplicateEdge)
    );
    assert_eq!(content(&processor, c), vec![11, 22, 33]);
    processor
        .connect(p, Some(c), AudioGraphEdge::new(BypassOperation, "second"))
        .unwrap();
    assert_eq!(content(&processor, c), vec![11, 22, 33]);
}

#[test]
fn the_order_of_two_adds_does_not_matter() {
    let build = |first_is_one: bool| {
        let mut processor = AudioProcessor::<Mono>::new();
        let one = processor.add_node(mono_node(vec![1, 2, 3, 4], 3)).unwrap();
        let two = processor.add_node(mono_node(vec![10, 20], 0)).unwrap();
        let child = processor.add_node(mono_node(vec![100, 100, 100], 2)).unwrap();
        if first_is_one {
            processor.connect(one, Some(child), add("one")).unwrap();
            processor.connect(two, Some(child), add("two")).unwrap();
        } else {
            processor.connect(two, Some(child), add("two")).unwrap();
            processor.connect(one, Some(child), add("one")).unwrap();
        }
        content(&processor, child)
    };
    assert_eq!(build(true), build(false));
    assert_eq!(build(true), vec![10, 20, 100, 101, 102, 3, 4]);
}

#[test]
fn bypass_leaves_the_child_as_it_is() {
    let mut processor = AudioProcessor::<Mono>::new();
    let p = processor.ingest(vec![5, 5, 5], 44100, 1, None).unwrap();
    let c = processor.ingest(vec![1, 2, 3], 44100, 1, None).unwrap();
    processor.connect(c, None, add("c")).unwrap();
    processor
        .connect(p, Some(c), AudioGraphEdge::new(BypassOperation, "by"))
        .unwrap();
    assert_eq!(content(&processor, c), vec![1, 2, 3]);
    assert_eq!(content(&processor, processor.root_node_index)[0..3], [1, 2, 3]);
}

#[test]
fn subtract_takes_the_parent_away() {
    let mut processor = AudioProcessor::<Mono>::new();
    let p = processor.ingest(vec![1, 2, 3], 44100, 1, None).unwrap();
    let c = processor.ingest(vec![10, 10, 10], 44100, 1, None).unwrap();
    processor
        .connect(p, Some(c), AudioGraphEdge::new(SubtractOperation, "sub"))
        .unwrap();
    assert_eq!(content(&processor, c), vec![9, 8, 7]);
    assert_eq!(
        processor.lock_audio_graph().get_edge_ref(0).unwrap().operation,
        Operation::Subtract
    );
}

#[test]
fn refused_connects_leave_the_graph_alone() {
    let mut processor = AudioProcessor::<Mono>::new();
    let a = processor.ingest(vec![1, 2, 3], 44100, 1, None).unwrap();
    let b = processor.ingest(vec![1, 2, 3], 44100, 1, None).unwrap();
    processor.connect(a, Some(b), add("ab")).unwrap();
    assert_eq!(processor.connect(a, Some(42), add("x")), Err(AudioError::UnknownNode));
    assert_eq!(processor.connect(42, None, add("x")), Err(AudioError::UnknownNode));
    assert_eq!(processor.connect(b, Some(a), add("x")), Err(AudioError::CycleDetected));
    assert_eq!(processor.connect(a, Some(a), add("x")), Err(AudioError::CycleDetected));
    assert_eq!(
        processor.connect(processor.root_node_index, Some(a), add("x")),
        Err(AudioError::CycleDetected)
    );
    assert_eq!(processor.lock_audio_graph().edge_count(), 1);
    assert_eq!(content(&processor, b), vec![2, 4, 6]);
    assert_eq!(content(&processor, a), vec![1, 2, 3]);
}

#[test]
fn apply_effect_checks_its_ids() {
    let mut processor = AudioProcessor::<Mono>::new();
    let a = processor.ingest(vec![1, 2, 3], 44100, 1, None).unwrap();
    let b = processor.ingest(vec![1, 2, 3], 44100, 1, None).unwrap();
    assert_eq!(processor.apply_effect(a, b, 0), Err(AudioError::UnknownEdge));
    let edge = processor.connect(a, Some(b), add("ab")).unwrap();
    assert_eq!(processor.apply_effect(a, 9, edge), Err(AudioError::UnknownNode));
    assert_eq!(processor.apply_effect(a, a, edge), Err(AudioError::CycleDetected));
    assert_eq!(processor.apply_effect(a, b, edge), Ok(()));
    assert_eq!(content(&processor, b), vec![3, 6, 9]);
    processor.propagate_change(a);
    assert_eq!(content(&processor, b), vec![3, 6, 9]);
}

#[test]
fn ingest_checks_channels_and_converts_width() {
    let mut processor = AudioProcessor::<Mono>::new();
    assert_eq!(
        processor.ingest(vec![1, 2, 3], 44100, 3, None),
        Err(AudioError::InvalidChannels)
    );
    assert_eq!(
        processor.ingest(vec![1, 2, 3], 44100, 0, None),
        Err(AudioError::InvalidChannels)
    );
    assert_eq!(processor.lock_audio_graph().node_count(), 1);
    let id = processor.ingest(vec![2, 4, 6, 8], 44100, 2, Some("pairs")).unwrap();
    assert_eq!(content(&processor, id), vec![3, 7]);
    assert_eq!(processor.node_by_name("pairs"), Some(id));
    assert_eq!(processor.node_by_name("root"), None);

    let mut wide = AudioProcessor::<Stereo>::new();
    let id = wide.ingest(vec![5, 6], 44100, 1, None).unwrap();
    assert_eq!(wide.get_node_frames_copy(id).unwrap(), vec![[5, 5], [6, 6]]);
    let other = wide.add_node_from_clip(
        AudioClipEnum::Stereo(AudioClip::<Stereo>::new(vec![1, 2, 3, 4], 44100)),
        None,
    );
    wide.connect(id, Some(other), add("w")).unwrap();
    assert_eq!(wide.get_node_frames_copy(other).unwrap(), vec![[6, 7], [9, 10]]);
    wide.connect(other, None, add("r")).unwrap();
    assert_eq!(wide.get_node_or_root_sample(None), Some([6, 7]));
}

#[test]
fn ingest_brings_a_clip_to_the_rate_of_the_processor() {
    let mut processor = AudioProcessor::<Mono>::new();
    let id = processor.ingest(vec![8; 100], 22050, 1, None).unwrap();
    assert_eq!(content(&processor, id), vec![8; 200]);
    let graph = processor.lock_audio_graph();
    assert_eq!(graph.get_node_ref(id).unwrap().get_clip().get_sample_rate(), 44100);
}

#[test]
fn add_node_checks_the_rate() {
    let mut processor = AudioProcessor::<Mono>::new();
    let slow = AudioNode::new(AudioClip::<Mono>::new(vec![1], 8000), None);
    assert_eq!(processor.add_node(slow), Err(AudioError::RateMismatch));
    assert_eq!(processor.lock_audio_graph().node_count(), 1);
}

#[test]
fn the_cursor_is_shared_and_can_be_moved() {
    let mut processor = AudioProcessor::<Mono>::new();
    let a = processor.ingest(vec![1, 2, 3], 44100, 1, None).unwrap();
    assert_eq!(processor.get_node_or_root_sample(Some(a)), Some([1]));
    assert_eq!(processor.get_node_or_root_sample(Some(a)), Some([2]));
    assert_eq!(processor.get_node_or_root_sample(None), Some([0]));
    assert_eq!(processor.get_node_or_root_sample(Some(a)), None);
    processor.set_root_frame_idx(1);
    assert_eq!(processor.get_node_or_root_sample(Some(a)), Some([2]));
    assert_eq!(processor.get_node_or_root_sample(Some(77)), None);
    processor.set_root_frame_idx(usize::MAX);
    assert_eq!(processor.get_node_or_root_sample(None), None);
    assert_eq!(processor.get_node_frames_copy(77), None);
}

#[test]
fn an_empty_parent_changes_nothing() {
    let mut processor = AudioProcessor::<Mono>::new();
    let p = processor.ingest(vec![], 44100, 1, None).unwrap();
    let c = processor.ingest(vec![1, 2, 3], 44100, 1, None).unwrap();
    processor.connect(p, Some(c), add("pc")).unwrap();
    assert_eq!(content(&processor, c), vec![1, 2, 3]);
    let graph = processor.lock_audio_graph();
    assert_eq!(graph.get_node_ref(c).unwrap().get_delta_range(), None);
}

#[test]
fn a_parent_with_two_children_leaves_one_of_them_with_a_pending_difference() {
    let mut processor = AudioProcessor::<Mono>::new();
    let p = processor.ingest(vec![1], 44100, 1, None).unwrap();
    let y = processor.ingest(vec![1], 44100, 1, None).unwrap();
    let z = processor.ingest(vec![1], 44100, 1, None).unwrap();
    let c = processor.ingest(vec![1], 44100, 1, None).unwrap();
    processor.connect(p, Some(y), add("py")).unwrap();
    processor.connect(p, Some(z), add("pz")).unwrap();
    assert_eq!(content(&processor, y), vec![2]);
    assert_eq!(content(&processor, z), vec![2]);
    {
        let graph = processor.lock_audio_graph();
        let pending = graph.get_node_ref(z).unwrap().get_delta_clip().get_frames_ref().to_vec();
        assert_eq!(pending, vec![[1]]);
    }
    processor
        .connect(z, Some(c), AudioGraphEdge::new(BypassOperation, "zc"))
        .unwrap();
    assert_eq!(content(&processor, c), vec![2]);
}
