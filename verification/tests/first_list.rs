use lists::first::List;

#[test]
fn first_basics() {
    let mut list = List::new();

    // check pop on empty list
    assert_eq!(list.pop(), None);

    // populate it
    list.push(1);
    list.push(2);
    list.push(3);

    // check for normal removal
    assert_eq!(list.pop(), Some(3));
    assert_eq!(list.pop(), Some(2));
    assert_eq!(list.pop(), Some(1));
    assert_eq!(list.pop(), None);

    // then populate again
    list.push(1);
    list.push(2);

    assert_eq!(list.pop(), Some(2));
    assert_eq!(list.pop(), Some(1));
}

#[test]
fn first_round_trip() {
    let mut list = List::new();
    let mut i: i32 = 0;
    while i < 200 {
        list.push(i);
        i += 1;
    }
    let mut expected: i32 = 199;
    while expected >= 0 {
        assert_eq!(list.pop(), Some(expected));
        expected -= 1;
    }
    assert_eq!(list.pop(), None);
}

#[test]
fn first_long_drop() {
    let mut list = List::new();
    let mut i: i32 = 0;
    while i < 100_000 {
        list.push(i);
        i += 1;
    }
    drop(list);
}
