use maproom::search::fusion::{group_by_chunk, top_by_rank};

#[test]
fn test_top_by_rank_orders_best_first() {
    assert_eq!(top_by_rank(&vec![5, 9, 1, 7], 10), vec![1, 3, 0, 2]);
}

#[test]
fn test_top_by_rank_keeps_order_of_equal_ranks() {
    assert_eq!(top_by_rank(&vec![3, 8, 3, 8], 4), vec![1, 3, 0, 2]);
}

#[test]
fn test_top_by_rank_limits() {
    assert_eq!(top_by_rank(&vec![5, 9, 1, 7], 2), vec![1, 3]);
    assert!(top_by_rank(&vec![5, 9], 0).is_empty());
    assert!(top_by_rank(&vec![], 3).is_empty());
}

#[test]
fn test_group_by_chunk_first_appearance() {
    let (ids, group_of) = group_by_chunk(&vec![7, 3, 7, 9, 3]);
    assert_eq!(ids, vec![7, 3, 9]);
    assert_eq!(group_of, vec![0, 1, 0, 2, 1]);
}

#[test]
fn test_group_by_chunk_empty() {
    let (ids, group_of) = group_by_chunk(&vec![]);
    assert!(ids.is_empty());
    assert!(group_of.is_empty());
}
