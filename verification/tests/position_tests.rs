use eventstore::position::Position;
use std::cmp::Ordering;

#[test]
fn positions_order_by_commit_then_prepare() {
    let a = Position { commit: 1, prepare: 5 };
    let b = Position { commit: 2, prepare: 0 };
    let c = Position { commit: 2, prepare: 3 };
    assert_eq!(a.partial_cmp(&b), Some(Ordering::Less));
    assert_eq!(b.partial_cmp(&a), Some(Ordering::Greater));
    assert_eq!(b.partial_cmp(&c), Some(Ordering::Less));
    assert_eq!(c.partial_cmp(&c), Some(Ordering::Equal));
    assert!(a < b && b < c);
    assert_eq!(a.cmp(&b), a.partial_cmp(&b).unwrap());
    let mut v = vec![c, a, b];
    v.sort();
    assert_eq!(v, vec![a, b, c]);
}
