use slist::Pointer;

#[test]
fn slot_operations() {
    let mut a: Option<usize> = <Option<usize> as Pointer>::empty();
    assert_eq!(a.get(), None);
    a.set(3);
    assert_eq!(a.get(), Some(3));
    let mut b: Option<usize> = Some(9);
    Pointer::from(&mut b, &a);
    assert_eq!(b.get(), Some(3));
    b.term();
    assert_eq!(b.get(), None);
    assert_eq!(a.get(), Some(3));
}
