use cgroup_sentinel::procset::ProcSet;

#[test]
fn empty_set_has_no_elements() {
    let s = ProcSet::empty();
    assert_eq!(s.len(), 0);
    assert!(!s.contains(1));
    assert_eq!(s.to_sorted_vec(), Vec::<i32>::new());
}

#[test]
fn from_ids_sorts_and_folds_duplicates() {
    let s = ProcSet::from_ids(&vec![205, 100, 100, -3]);
    assert_eq!(s.to_sorted_vec(), vec![-3, 100, 205]);
    assert_eq!(s.len(), 3);
    assert!(s.contains(100));
    assert!(!s.contains(101));
}

#[test]
fn insert_is_idempotent() {
    let mut s = ProcSet::empty();
    s.insert(7);
    s.insert(7);
    s.insert(3);
    assert_eq!(s.to_sorted_vec(), vec![3, 7]);
}

#[test]
fn minus_sorted_is_the_ascending_difference() {
    let live = ProcSet::from_ids(&vec![100, 101, 205]);
    let known = ProcSet::from_ids(&vec![100, 101]);
    assert_eq!(live.minus_sorted(&known), vec![205]);
    assert_eq!(known.minus_sorted(&live), Vec::<i32>::new());
    let none = ProcSet::empty();
    assert_eq!(live.minus_sorted(&none), vec![100, 101, 205]);
}
