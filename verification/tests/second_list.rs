use lists::second::List;

#[test]
fn second_basics() {
    let mut list = List::new();

    // check pop on empty list
    assert_eq!(list.pop(), None);

    // populate it
    list.push(1);
    list.push(2);
    list.push(3);

    // check for normal removal
    assert_eq!(list.pop(), Some(3));
    assert_eq!(list.pop(), Some(2));
    assert_eq!(list.pop(), Some(1));
    assert_eq!(list.pop(), None);

    // then populate again
    list.push(1);
    list.push(2);

    assert_eq!(list.pop(), Some(2));
    assert_eq!(list.pop(), Some(1));
}

#[test]
fn peek() {
    let mut list = List::new();
    assert_eq!(list.peek(), None);
    assert_eq!(list.peek_mut(), None);

    list.push(1);
    assert_eq!(list.peek(), Some(&1));

    list.push(2);
    assert_eq!(list.peek_mut(), Some(&mut 2));

    list.push(3);
    assert_eq!(list.peek(), Some(&3));
}

#[test]
fn into_iter() {
    let mut list = List::new();
    for i in 0..3 {
        list.push(i);
    }

    let mut iter = list.into_iter();
    assert_eq!(iter.next(), Some(2));
    assert_eq!(iter.next(), Some(1));
    assert_eq!(iter.next(), Some(0));
    assert_eq!(iter.next(), None);
}

#[test]
fn iter() {
    let mut list = List::new();
    list.push(0);
    list.push(1);
    list.push(2);

    let mut iter = list.iter();
    assert_eq!(iter.next(), Some(&2));
    assert_eq!(iter.next(), Some(&1));
    assert_eq!(iter.next(), Some(&0));
}

#[test]
fn iter_mut() {
    let mut list = List::new();
    list.push(0);
    list.push(1);
    list.push(2);

    let mut iter = list.iter_mut();
    assert_eq!(iter.next(), Some(&mut 2));
    assert_eq!(iter.next(), Some(&mut 1));
    assert_eq!(iter.next(), Some(&mut 0));
}

#[test]
fn second_round_trip() {
    let mut list = List::new();
    let mut i: i32 = 0;
    while i < 200 {
        list.push(i);
        i += 1;
    }
    let mut expected: i32 = 199;
    while expected >= 0 {
        assert_eq!(list.pop(), Some(expected));
        expected -= 1;
    }
    assert_eq!(list.pop(), None);
}

#[test]
fn pop_empty_fresh_and_drained() {
    let mut list = List::new();
    assert_eq!(list.pop(), None);
    list.push(5);
    assert_eq!(list.pop(), Some(5));
    assert_eq!(list.pop(), None);
}

#[test]
fn peek_mut_write_visible_to_pop() {
    let mut list = List::new();
    list.push(1);
    list.push(2);
    if let Some(top) = list.peek_mut() {
        *top = 42;
    }
    assert_eq!(list.pop(), Some(42));
    assert_eq!(list.pop(), Some(1));
    assert_eq!(list.pop(), None);
}

#[test]
fn iter_mut_increment_then_iter() {
    let mut list = List::new();
    list.push(1);
    list.push(2);
    list.push(3);

    let mut iter = list.iter_mut();
    while let Some(elem) = iter.next() {
        *elem += 1;
    }

    let mut iter = list.iter();
    assert_eq!(iter.next(), Some(&4));
    assert_eq!(iter.next(), Some(&3));
    assert_eq!(iter.next(), Some(&2));
    assert_eq!(iter.next(), None);
}

#[test]
fn iter_exhausted_stays_exhausted() {
    let mut list = List::new();
    list.push(9);
    let mut iter = list.iter();
    assert_eq!(iter.next(), Some(&9));
    assert_eq!(iter.next(), None);
    assert_eq!(iter.next(), None);
}

#[test]
fn two_borrowing_iterators_coexist() {
    let mut list = List::new();
    list.push(1);
    list.push(2);

    let mut a = list.iter();
    let mut b = list.iter();
    assert_eq!(a.next(), Some(&2));
    assert_eq!(b.next(), Some(&2));
    assert_eq!(a.next(), Some(&1));
    assert_eq!(b.next(), Some(&1));
    assert_eq!(a.next(), None);
    assert_eq!(b.next(), None);

    // iterating did not disturb the stack
    assert_eq!(list.pop(), Some(2));
    assert_eq!(list.pop(), Some(1));
    assert_eq!(list.pop(), None);
}

#[test]
fn second_long_drop() {
    let mut list = List::new();
    let mut i: i32 = 0;
    while i < 100_000 {
        list.push(i);
        i += 1;
    }
    drop(list);
}

#[test]
fn string_elements() {
    let mut list = List::new();
    list.push(String::from("below"));
    list.push(String::from("top"));
    assert_eq!(list.peek(), Some(&String::from("top")));
    assert_eq!(list.pop(), Some(String::from("top")));
    assert_eq!(list.pop(), Some(String::from("below")));
    assert_eq!(list.pop(), None);
}
