use vectordb::index::flat::FlatIndex;
use vectordb::index::kd_tree::KDTree;
use vectordb::index::ranking::rank_positions;
use vectordb::index::{IndexType, VectorIndex};
use vectordb::storage::{create_storage_engine, StorageHandle, StorageType};
use vectordb::types::{DbError, IndexedVector, Similarity};

fn iv(id: u64, v: &[u32]) -> IndexedVector {
    IndexedVector { id, vector: v.to_vec() }
}

fn live_ids(node: &Option<Box<vectordb::index::kd_tree::KDTreeNode>>, out: &mut Vec<u64>) {
    if let Some(n) = node {
        live_ids(&n.left, out);
        if !n.is_deleted {
            out.push(n.indexed_vector.id);
        }
        live_ids(&n.right, out);
    }
}

#[test]
fn flat_insert_delete_search() {
    let mut index = FlatIndex::new();
    index.insert(iv(1, &[1, 1])).unwrap();
    index.insert(iv(2, &[2, 2])).unwrap();
    index.insert(iv(3, &[3, 3])).unwrap();
    assert_eq!(index.vectors().len(), 3);
    // distances of the three stored vectors, as order keys
    let scores = vec![30, 10, 20];
    assert_eq!(index.search(&scores, Similarity::Euclidean, 2), Ok(vec![2, 3]));
    assert_eq!(index.search(&scores, Similarity::Cosine, 2), Ok(vec![1, 3]));
    assert_eq!(index.search(&scores, Similarity::Manhattan, 10), Ok(vec![2, 3, 1]));
    assert_eq!(index.delete(2), Ok(true));
    assert_eq!(index.delete(2), Ok(false));
    assert_eq!(index.vectors().iter().map(|v| v.id).collect::<Vec<_>>(), vec![1, 3]);
}

#[test]
fn flat_search_keeps_ties_in_order() {
    let index = FlatIndex::build(vec![iv(7, &[0]), iv(8, &[0]), iv(9, &[0])]);
    assert_eq!(index.search(&vec![5, 5, 1], Similarity::Hamming, 3), Ok(vec![9, 7, 8]));
    assert_eq!(FlatIndex::default().vectors().len(), 0);
}

#[test]
fn ranking_is_stable() {
    assert_eq!(rank_positions(&vec![3, 1, 3, 0], false), vec![3, 1, 0, 2]);
    assert_eq!(rank_positions(&vec![3, 1, 3, 0], true), vec![0, 2, 1, 3]);
}

#[test]
fn kd_build_needs_vectors() {
    assert!(matches!(KDTree::build(Vec::new()), Err(DbError::IndexInitError)));
    let tree = KDTree::build(vec![iv(1, &[5, 1]), iv(2, &[1, 5]), iv(3, &[3, 3])]).unwrap();
    assert_eq!(tree.dim(), 2);
    let root = tree.root().as_ref().unwrap();
    assert_eq!(root.indexed_vector.id, 3);
    assert_eq!(root.split_dim, 0);
    assert_eq!(root.left.as_ref().unwrap().indexed_vector.id, 2);
    assert_eq!(root.right.as_ref().unwrap().indexed_vector.id, 1);
    assert_eq!(root.left.as_ref().unwrap().split_dim, 1);
}

#[test]
fn kd_insert_and_delete() {
    let mut tree = KDTree::build_empty(2);
    tree.insert_point(iv(1, &[5, 5]));
    tree.insert_point(iv(2, &[5, 9]));
    tree.insert_point(iv(3, &[6, 0]));
    let root = tree.root().as_ref().unwrap();
    assert_eq!(root.indexed_vector.id, 1);
    // no larger on the root's axis goes left
    assert_eq!(root.left.as_ref().unwrap().indexed_vector.id, 2);
    assert_eq!(root.right.as_ref().unwrap().indexed_vector.id, 3);
    assert_eq!(root.right.as_ref().unwrap().split_dim, 1);
    assert!(tree.delete_point(&2));
    assert!(!tree.delete_point(&2));
    assert!(!tree.delete_point(&42));
    let mut ids = Vec::new();
    live_ids(tree.root(), &mut ids);
    assert_eq!(ids, vec![1, 3]);
}

#[test]
fn kd_through_the_index_trait() {
    let mut tree = KDTree::build_empty(1);
    assert_eq!(tree.insert(iv(4, &[1])), Ok(()));
    assert_eq!(tree.delete(4), Ok(true));
    assert_eq!(tree.delete(4), Ok(false));
    assert_eq!(tree.search(Similarity::Cosine, &vec![], 1), Err(DbError::UnsupportedSimilarity));
    assert_eq!(tree.search(Similarity::Hamming, &vec![], 1), Err(DbError::UnsupportedSimilarity));
    assert_eq!(tree.search(Similarity::Euclidean, &vec![], 1), Ok(vec![]));
    assert_ne!(IndexType::Flat, IndexType::HNSW);
}

#[test]
fn storage_engines() {
    assert!(matches!(
        create_storage_engine(StorageType::InMemory, String::new()),
        Ok(StorageHandle::InMemory(_))
    ));
    assert!(matches!(
        create_storage_engine(StorageType::RocksDb, "db/x".to_string()),
        Ok(StorageHandle::RocksDb(_))
    ));
}

#[test]
fn flat_delete_undoes_insert() {
    let mut index = FlatIndex::build(vec![iv(1, &[1]), iv(2, &[2])]);
    index.insert(iv(3, &[3])).unwrap();
    assert_eq!(index.delete(3), Ok(true));
    let left: Vec<(u64, Vec<u32>)> = index.vectors().iter().map(|v| (v.id, v.vector.clone())).collect();
    assert_eq!(left, vec![(1, vec![1]), (2, vec![2])]);
}

#[test]
fn kd_build_keeps_every_vector() {
    let tree = KDTree::build(vec![iv(1, &[4, 4]), iv(2, &[4, 1]), iv(3, &[4, 9]), iv(4, &[0, 0]), iv(5, &[8, 8])]).unwrap();
    let mut ids = Vec::new();
    live_ids(tree.root(), &mut ids);
    ids.sort();
    assert_eq!(ids, vec![1, 2, 3, 4, 5]);
}

#[test]
fn kd_delete_after_reinsert() {
    let mut tree = KDTree::build_empty(1);
    tree.insert_point(iv(7, &[1]));
    assert!(tree.delete_point(&7));
    tree.insert_point(iv(7, &[2]));
    assert!(tree.delete_point(&7));
    let mut ids = Vec::new();
    live_ids(tree.root(), &mut ids);
    assert!(ids.is_empty());
    assert!(!tree.delete_point(&7));
}

#[test]
fn kd_search_ranks_live_points_by_distance() {
    let mut tree = KDTree::build(vec![iv(1, &[5]), iv(2, &[1]), iv(3, &[9]), iv(4, &[3])]).unwrap();
    let dist = |tree: &KDTree| -> Vec<u32> {
        tree.live_vectors().iter().map(|v| (v.vector[0] as i64 - 4).unsigned_abs() as u32).collect()
    };
    let live: Vec<u64> = tree.live_vectors().iter().map(|v| v.id).collect();
    assert_eq!(live, vec![2, 4, 1, 3]);
    assert_eq!(dist(&tree), vec![3, 1, 1, 5]);
    assert_eq!(tree.search(Similarity::Euclidean, &dist(&tree), 2), Ok(vec![4, 1]));
    assert_eq!(tree.search(Similarity::Manhattan, &dist(&tree), 0), Ok(vec![]));
    assert!(tree.delete_point(&4));
    assert_eq!(tree.search(Similarity::Euclidean, &dist(&tree), 2), Ok(vec![1, 2]));
    assert_eq!(tree.search(Similarity::Manhattan, &dist(&tree), 10), Ok(vec![1, 2, 3]));
    assert_eq!(tree.search(Similarity::Cosine, &dist(&tree), 2), Err(DbError::UnsupportedSimilarity));
}
