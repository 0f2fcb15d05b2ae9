use vectordb::indexer::kd_model::{KDTree, KDTreeNode};
use vectordb::indexer::protocol::{
    add_node_pipe, delete_node_pipe, frame_length, frame_message, get_knn_pipe, print_tree_debug_pipe,
    split_frame, Command, KNNType,
};
use vectordb::indexer::select::{partition_by, quickselect_by, Point};
use vectordb::indexer::thread::{apply_command, CommandError, Reply};

fn point(key: &str, v: &[u32]) -> Point {
    (key.to_string(), v.to_vec())
}

fn keys(tree: &KDTree) -> Vec<String> {
    tree.traversal(0).into_iter().map(|p| p.0).collect()
}

#[test]
fn create_tree() {
    let mut tree = KDTree::new();
    tree.dim = 3;
    tree.add_node(point("Hello", &[10, 20, 30]), 0);
    tree.add_node(point("Hello", &[0, 5, 70]), 0);
    tree.add_node(point("Hello", &[50, 1, 30]), 0);
    assert_eq!(tree.dim, 3);
    assert_eq!(tree._internals.current_number_of_kd_tree_nodes, 3);
    assert_eq!(tree.traversal(0).len(), 3);
}

#[test]
#[should_panic]
fn test_input_incorrect_vector() {
    let mut tree = KDTree::new();
    tree.dim = 2;
    apply_command(&mut tree, add_node_pipe(("Hello".to_string(), vec![1, 2, 3]), 0)).unwrap();
}

#[test]
fn preset_dimension_refuses_other_lengths() {
    let mut tree = KDTree::new();
    tree.dim = 2;
    let r = apply_command(&mut tree, add_node_pipe(("Hello".to_string(), vec![1, 2, 3]), 0));
    assert!(matches!(r, Err(CommandError::DimensionMismatch)));
    assert_eq!(tree.dim, 2);
    assert!(tree._root().is_none());
    apply_command(&mut tree, add_node_pipe(("Hello".to_string(), vec![1, 2]), 0)).unwrap();
    assert_eq!(tree.traversal(0).len(), 1);
}

#[test]
fn rebuild_check() {
    let mut tree = KDTree::new();
    for i in 0..6u32 {
        tree.add_node(point(&format!("p{}", i), &[i, 10 - i]), 0);
    }
    // sizes at the checks: 1 -> previous 1; 2/1, 3/1 > 2 triggers a rebuild
    assert!(tree._internals.rebuild_counter >= 1);
    assert_eq!(tree._internals.current_number_of_kd_tree_nodes, 6);
    let mut found = keys(&tree);
    found.sort();
    assert_eq!(found, vec!["p0", "p1", "p2", "p3", "p4", "p5"]);
}

#[test]
fn first_point_fixes_dimension() {
    let mut tree = KDTree::new();
    tree.add_node(point("a", &[1, 2, 3, 4]), 0);
    assert_eq!(tree.dim, 4);
    let root = tree._root().unwrap();
    assert_eq!(root.key, "a");
    assert_eq!(root.dim, 0);
    assert_eq!(tree._internals.previous_tree_size, 0);
}

#[test]
fn rebuild_counts_once_past_double() {
    let mut tree = KDTree::new();
    tree.add_node(point("a", &[5, 5]), 0); // count 1
    tree.add_node(point("b", &[1, 1]), 0); // previous 0 -> previous = 1, count 2
    assert_eq!(tree._internals.previous_tree_size, 1);
    assert_eq!(tree._internals.rebuild_counter, 0);
    tree.add_node(point("c", &[9, 9]), 0); // 2/1 = 2.0, not past 2
    assert_eq!(tree._internals.rebuild_counter, 0);
    tree.add_node(point("d", &[3, 7]), 0); // 3/1 > 2: rebuild, previous = 3
    assert_eq!(tree._internals.rebuild_counter, 1);
    assert_eq!(tree._internals.previous_tree_size, 3);
    assert_eq!(tree._internals.current_number_of_kd_tree_nodes, 4);
}

#[test]
fn filing_goes_left_only_when_smaller() {
    let mut tree = KDTree::new();
    tree.add_node(point("root", &[5, 5]), 0);
    tree.add_node(point("equal", &[5, 0]), 0);
    tree.add_node(point("less", &[4, 9]), 0);
    let root = tree._root().unwrap();
    assert_eq!(root.right.as_ref().unwrap().key, "equal");
    assert_eq!(root.left.as_ref().unwrap().key, "less");
    assert_eq!(keys(&tree), vec!["less", "root", "equal"]);
}

#[test]
fn locked_tree_refuses_points() {
    let mut tree = KDTree::new();
    tree.add_node(point("a", &[1]), 0);
    tree._internals.kd_tree_allow_update = false;
    tree.add_node(point("b", &[2]), 0);
    assert_eq!(keys(&tree), vec!["a"]);
    assert_eq!(tree._internals.current_number_of_kd_tree_nodes, 1);
}

#[test]
fn traversal_stops_at_k() {
    let mut tree = KDTree::new();
    for (i, v) in [[5u32, 5], [2, 2], [8, 8], [1, 1]].iter().enumerate() {
        tree.add_node(point(&format!("k{}", i), v), 0);
    }
    assert_eq!(tree.traversal(0).len(), 4);
    assert!(tree.traversal(2).len() >= 2);
    assert!(tree.traversal(2).len() < 4);
}

#[test]
fn delete_node_rebuilds_without_the_point() {
    let mut tree = KDTree::new();
    tree.add_node(point("a", &[1, 9]), 0);
    tree.add_node(point("b", &[2, 8]), 0);
    tree.add_node(point("c", &[3, 7]), 0);
    tree.delete_node("b".to_string());
    let mut found = keys(&tree);
    found.sort();
    assert_eq!(found, vec!["a", "c"]);
    assert!(tree._internals.kd_tree_allow_update);
    let root = tree._root().unwrap();
    assert_eq!(root.dim, 0);
}

#[test]
fn new_node_is_a_leaf() {
    let n = KDTreeNode::new(("x".to_string(), vec![1, 2]), 1);
    assert_eq!(n.key, "x");
    assert_eq!(n.vector, vec![1, 2]);
    assert!(n.left.is_none() && n.right.is_none());
    assert_eq!(n.dim, 1);
}

#[test]
fn partition_puts_smaller_first() {
    let mut v = vec![point("a", &[7]), point("b", &[3]), point("c", &[9]), point("d", &[1])];
    let r = partition_by(&mut v, 0, 4, 0, 0);
    assert_eq!(r, 2);
    assert_eq!(v[2].0, "a");
    assert!(v[0].1[0] < 7 && v[1].1[0] < 7);
    assert!(v[3].1[0] >= 7);
}

#[test]
fn quickselect_finds_the_median() {
    let mut v = vec![point("a", &[7]), point("b", &[3]), point("c", &[9]), point("d", &[1]), point("e", &[5])];
    quickselect_by(&mut v, 0, 5, 2, 0);
    assert_eq!(v[2].1[0], 5);
    assert!(v[0].1[0] <= 5 && v[1].1[0] <= 5);
    assert!(v[3].1[0] >= 5 && v[4].1[0] >= 5);
}

#[test]
fn commands_are_built_as_sent() {
    match add_node_pipe(("k".to_string(), vec![1, 2]), 3) {
        Command::AddNode { key, depth, vector } => {
            assert_eq!(key, "k");
            assert_eq!(depth, 3);
            assert_eq!(vector, vec![1, 2]);
        }
        _ => panic!("wrong command"),
    }
    assert!(matches!(delete_node_pipe("k".to_string()), Command::DeleteNode { key } if key == "k"));
    match get_knn_pipe(2, 5, vec![4]) {
        Command::GetKnn { knn_type, k_value, vector } => {
            assert_eq!(knn_type, 2);
            assert_eq!(k_value, 5);
            assert_eq!(vector, vec![4]);
        }
        _ => panic!("wrong command"),
    }
    assert!(matches!(print_tree_debug_pipe(), Command::PrintTree));
}

#[test]
fn knn_codes_round_trip() {
    for t in [KNNType::Euclidean, KNNType::Manhattan, KNNType::Hamming, KNNType::Cosine] {
        assert_eq!(KNNType::from_code(t.code()), Some(t));
    }
    assert_eq!(KNNType::Hamming.code(), 2);
    assert_eq!(KNNType::from_code(4), None);
    assert_eq!(KNNType::from_code(-1), None);
}

#[test]
fn frames_round_trip() {
    let body = vec![9u8, 8, 7];
    let framed = frame_message(&body);
    assert_eq!(framed, vec![3, 0, 0, 0, 9, 8, 7]);
    assert_eq!(frame_length(&framed[0..4]), 3);
    let mut both = framed.clone();
    both.extend_from_slice(&[1, 0, 0, 0, 42]);
    let (first, rest) = split_frame(&both).unwrap();
    assert_eq!(first, body);
    assert_eq!(rest, vec![1, 0, 0, 0, 42]);
    assert_eq!(split_frame(&vec![5, 0, 0, 0, 1]), None);
    assert_eq!(split_frame(&vec![1, 0]), None);
}

#[test]
fn thread_applies_commands() {
    let mut tree = KDTree::new();
    let r = apply_command(&mut tree, add_node_pipe(("a".to_string(), vec![1, 1]), 0));
    assert!(matches!(r, Ok(Reply::Done)));
    let r = apply_command(&mut tree, add_node_pipe(("b".to_string(), vec![2, 2, 2]), 0));
    assert!(matches!(r, Err(CommandError::DimensionMismatch)));
    apply_command(&mut tree, add_node_pipe(("b".to_string(), vec![2, 2]), 0)).unwrap();
    match apply_command(&mut tree, Command::PrintTree).unwrap() {
        Reply::Keys(k) => assert_eq!(k, vec!["a", "b"]),
        _ => panic!("expected keys"),
    }
    assert!(matches!(
        apply_command(&mut tree, Command::DeleteNode { key: "zz".to_string() }),
        Err(CommandError::KeyNotFound)
    ));
    assert!(matches!(apply_command(&mut tree, delete_node_pipe("a".to_string())), Ok(Reply::Done)));
    assert!(matches!(
        apply_command(&mut tree, delete_node_pipe("b".to_string())),
        Err(CommandError::LastPoint)
    ));
    match apply_command(&mut tree, get_knn_pipe(1, 3, vec![0, 0])).unwrap() {
        Reply::Knn { knn_type, k_value, vector } => {
            assert_eq!(knn_type, KNNType::Manhattan);
            assert_eq!(k_value, 3);
            assert_eq!(vector, vec![0, 0]);
        }
        _ => panic!("expected a knn request"),
    }
    assert!(matches!(apply_command(&mut tree, get_knn_pipe(9, 3, vec![0, 0])), Ok(Reply::UnknownKnnType)));
}

#[test]
fn delete_rebuilds_in_quickselect_order() {
    let mut tree = KDTree::new();
    let data: [(&str, [u32; 2]); 6] = [("a", [5, 1]), ("b", [2, 8]), ("c", [9, 4]), ("d", [1, 3]), ("e", [7, 7]), ("f", [3, 6])];
    for (k, v) in data.iter() {
        tree.add_node(point(k, v), 0);
    }
    assert_eq!(tree._internals.rebuild_counter, 1);
    assert_eq!(keys(&tree), vec!["d", "f", "b", "a", "c", "e"]);
    tree.delete_node("c".to_string());
    assert_eq!(keys(&tree), vec!["d", "b", "f", "a", "e"]);
    let root = tree._root().unwrap();
    assert_eq!(root.key, "f");
    assert_eq!(root.dim, 0);
    let left = root.left.as_ref().unwrap();
    assert_eq!(left.key, "b");
    assert_eq!(left.dim, 1);
    assert_eq!(tree._internals.current_number_of_kd_tree_nodes, 6);
}
