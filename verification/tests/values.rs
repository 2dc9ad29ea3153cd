use gossip_glomers::values::ValueSet;

fn from_slice(values: &[usize]) -> ValueSet {
    let mut s = ValueSet::new();
    s.insert_all(&values.to_vec());
    s
}

#[test]
fn new_set_is_empty() {
    let s = ValueSet::new();
    assert_eq!(s.len(), 0);
    assert!(!s.contains(0));
    assert!(s.to_vec().is_empty());
}

#[test]
fn insert_is_idempotent() {
    let mut s = ValueSet::new();
    s.insert(7);
    s.insert(7);
    assert_eq!(s.len(), 1);
    assert!(s.contains(7));
    assert_eq!(s.to_vec(), vec![7]);
}

#[test]
fn insert_all_unions() {
    let mut s = from_slice(&[1, 2]);
    s.insert_all(&vec![2, 3, 3, 4]);
    assert_eq!(s.len(), 4);
    let mut v = s.to_vec();
    v.sort();
    assert_eq!(v, vec![1, 2, 3, 4]);
}

#[test]
fn difference_excludes_other() {
    let s = from_slice(&[1, 2, 3, 4]);
    let o = from_slice(&[2, 4, 9]);
    let mut d = s.difference(&o);
    d.sort();
    assert_eq!(d, vec![1, 3]);
}

#[test]
fn difference_with_empty_is_identity() {
    let s = from_slice(&[5, 6]);
    let mut d = s.difference(&ValueSet::new());
    d.sort();
    assert_eq!(d, vec![5, 6]);
}
