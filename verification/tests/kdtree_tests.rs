use coding_pet::KdPoint;
use coding_pet::KdTree;

fn pt(id: u64, x: i64, y: i64) -> KdPoint {
    KdPoint { id, x, y }
}

fn sorted(mut v: Vec<u64>) -> Vec<u64> {
    v.sort();
    v
}

#[test]
fn range_query_returns_exact_subset() {
    let points = vec![
        pt(1, 0, 0),
        pt(2, 1000, 0),
        pt(3, 0, 1000),
        pt(4, 700, 700),
        pt(5, 5000, 5000),
        pt(6, -900, -100),
    ];
    let tree = KdTree::build(points);
    // radius 1000 around the origin: squared distance must be <= 1_000_000,
    // and (700, 700) sits at exactly 980_000
    let res = sorted(tree.range_query(0, 0, 1000));
    assert_eq!(res, vec![1, 2, 3, 4, 6]);
    // radius 990 squares to 980_100: the axis points at distance 1000 drop out
    let res2 = sorted(tree.range_query(0, 0, 990));
    assert_eq!(res2, vec![1, 4, 6]);
}

#[test]
fn range_query_order_independent() {
    let a = vec![pt(1, 0, 0), pt(2, 10, 10), pt(3, -5, 3), pt(4, 100, -100), pt(5, 7, -7)];
    let b = vec![pt(4, 100, -100), pt(2, 10, 10), pt(5, 7, -7), pt(1, 0, 0), pt(3, -5, 3)];
    let ta = KdTree::build(a);
    let tb = KdTree::build(b);
    for r in [0i64, 5, 12, 80, 200] {
        assert_eq!(sorted(ta.range_query(1, 1, r)), sorted(tb.range_query(1, 1, r)));
        assert_eq!(sorted(ta.range_query(-3, 2, r)), sorted(tb.range_query(-3, 2, r)));
    }
}

#[test]
fn rebuild_idempotent_same_answers() {
    let points = vec![pt(7, 3, 4), pt(8, -3, -4), pt(9, 10, 0), pt(10, 0, -10)];
    let t1 = KdTree::build(points.clone());
    let t2 = KdTree::build(points);
    for r in [0i64, 4, 5, 10, 15] {
        assert_eq!(sorted(t1.range_query(0, 0, r)), sorted(t2.range_query(0, 0, r)));
    }
    assert_eq!(t1.nearest(2, 2), t2.nearest(2, 2));
}

#[test]
fn nearest_picks_minimal_distance() {
    let tree = KdTree::build(vec![pt(3, 1000, 0), pt(9, 500, 0), pt(4, 0, 2000)]);
    assert_eq!(tree.nearest(0, 0), Some(9));
    assert_eq!(tree.nearest(900, 0), Some(3));
    assert_eq!(tree.nearest(0, 1900), Some(4));
}

#[test]
fn nearest_tie_breaks_by_smaller_id() {
    let tree = KdTree::build(vec![pt(5, 1000, 0), pt(3, -1000, 0)]);
    assert_eq!(tree.nearest(0, 0), Some(3));
    let tree2 = KdTree::build(vec![pt(3, 1000, 0), pt(5, -1000, 0)]);
    assert_eq!(tree2.nearest(0, 0), Some(3));
}

#[test]
fn empty_index_answers_nothing() {
    let tree = KdTree::build(Vec::new());
    assert!(tree.range_query(0, 0, 1_000_000).is_empty());
    assert_eq!(tree.nearest(0, 0), None);
}

#[test]
fn single_point_found_at_zero_radius() {
    let tree = KdTree::build(vec![pt(42, 123, -456)]);
    assert_eq!(tree.range_query(123, -456, 0), vec![42]);
    assert!(tree.range_query(124, -456, 0).is_empty());
    assert_eq!(tree.nearest(0, 0), Some(42));
}

#[test]
fn duplicate_positions_all_reported() {
    let tree = KdTree::build(vec![pt(1, 5, 5), pt(2, 5, 5), pt(3, 6, 5)]);
    assert_eq!(sorted(tree.range_query(5, 5, 0)), vec![1, 2]);
    assert_eq!(sorted(tree.range_query(5, 5, 1)), vec![1, 2, 3]);
}
