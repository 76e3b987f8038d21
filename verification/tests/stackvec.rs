use lightning::stackvec::StackVec;

#[test]
fn test_stackvec() {
    let mut v = StackVec::<u32, 6>::new();
    v.push(10);
    v.push(20);
    v.push(30);

    let v2 = v.copied();
    v.extend_from_slice(v2.as_slice());

    assert_eq!(*v.index(0), 10);
    assert_eq!(*v.index(1), 20);
    assert_eq!(*v.index(2), 30);
    assert_eq!(*v.index(3), 10);
    assert_eq!(*v.index(4), 20);
    assert_eq!(*v.index(5), 30);
}

#[test]
fn stackvec_push_then_pop_restores() {
    let mut v = StackVec::<u32, 4>::new();
    v.push(7);
    let before = v.len();
    v.push(9);
    assert_eq!(v.pop(), Some(9));
    assert_eq!(v.len(), before);
    assert_eq!(v.as_slice(), &[7]);
}

#[test]
fn stackvec_capacity_and_empty() {
    let mut v = StackVec::<u8, 3>::new();
    assert!(v.is_empty());
    assert_eq!(v.capacity(), 3);
    assert_eq!(v.pop(), None);
    v.push(1);
    assert!(!v.is_empty());
    v.set(0, 5);
    assert_eq!(*v.index(0), 5);
}
