use hundredyearswar::arena::Arena;

#[test]
fn arena_new() {
    let expected: Arena<i32> = Arena::from_slots(vec![]);
    assert_eq!(expected, Arena::new());
}

#[test]
fn arena_insert() {
    let expected: Arena<i32> = Arena::from_slots(vec![Some(3)]);
    let mut arena = Arena::new();
    assert_eq!(0, arena.insert(3));
    assert_eq!(expected, arena);
}

#[test]
fn arena_get() {
    let mut arena = Arena::new();
    arena.insert(3);
    assert_eq!(Some(&3), arena.get(0));
    assert_eq!(None, arena.get(1));
}

#[test]
fn arena_get_mut() {
    let mut arena = Arena::new();
    arena.insert(3);
    assert_eq!(Some(&mut 3), arena.get_mut(0));
    assert_eq!(None, arena.get_mut(1));
    *arena.get_mut(0).unwrap() = 4;
    assert_eq!(Some(&mut 4), arena.get_mut(0));
}

#[test]
fn arena_remove() {
    let expected: Arena<i32> = Arena::from_slots(vec![Some(5), Some(4)]);

    let mut arena = Arena::new();
    arena.insert(3);
    arena.insert(4);
    assert_eq!(Some(3), arena.remove(0));
    assert_eq!(None, arena.remove(3));
    assert_eq!(0, arena.insert(5));
    assert_eq!(expected, arena);
}

#[test]
fn arena_iter() {
    let mut arena = Arena::new();
    arena.insert(3);
    arena.insert(4);
    arena.insert(5);
    arena.remove(1);
    let mut i = arena.iter();
    assert_eq!(Some(&3), i.next());
    assert_eq!(Some(&5), i.next());
    assert_eq!(None, i.next());
    assert_eq!(None, i.next());
}

#[test]
fn arena_eq() {
    let mut first = Arena::new();
    first.insert(1);

    let mut second = Arena::new();
    second.insert(1);

    assert_eq!(first, second);
    assert_eq!(second, first);

    let mut first = Arena::new();
    first.insert(1);

    let mut second = Arena::new();
    second.insert(2);

    assert!(!first.eq(&second));

    let mut first = Arena::new();
    first.insert(1);
    first.insert(2);
    first.remove(0);

    let mut second = Arena::new();
    second.insert(2);
    assert!(!first.eq(&second));

    let mut first = Arena::new();
    first.insert(3);
    first.insert(4);
    first.insert(5);
    first.insert(6);
    first.insert(7);
    first.remove(1);
    first.remove(3);
    first.remove(4);

    let mut second = Arena::new();
    second.insert(3);
    second.insert(4);
    second.insert(5);
    second.remove(1);

    assert_eq!(first, second);
    assert_eq!(second, first);
}

#[test]
fn arena_debug() {
    let arena: Arena<i32> = Arena::new();
    assert_eq!("[]", format!("{:?}", arena));

    let mut arena = Arena::new();
    arena.insert(1);
    arena.insert(2);
    arena.insert(3);
    arena.insert(4);
    arena.remove(1);
    assert_eq!("[Some(1), None, Some(3), Some(4)]", format!("{:?}", arena));
}

#[test]
fn arena_debug_string_is_the_debug_text() {
    let mut arena = Arena::new();
    arena.insert("a");
    arena.insert("b");
    arena.remove(0);
    assert_eq!("[None, Some(\"b\")]", arena.debug_string());
    assert_eq!(arena.debug_string(), format!("{:?}", arena));
}

#[test]
fn arena_reuses_the_smallest_freed_id() {
    let mut arena = Arena::new();
    for value in [3, 4, 5, 6, 7] {
        arena.insert(value);
    }
    assert_eq!(Some(6), arena.remove(3));
    assert_eq!(Some(4), arena.remove(1));
    assert_eq!(None, arena.remove(1));
    assert_eq!(1, arena.insert(8));
    assert_eq!(3, arena.insert(9));
    assert_eq!(5, arena.insert(10));
    assert_eq!("[Some(3), Some(8), Some(5), Some(9), Some(7), Some(10)]", arena.debug_string());
}

#[test]
fn arena_truncates_through_trailing_holes() {
    let mut arena = Arena::new();
    for value in [3, 4, 5, 6, 7] {
        arena.insert(value);
    }
    arena.remove(1);
    arena.remove(3);
    assert_eq!("[Some(3), None, Some(5), None, Some(7)]", arena.debug_string());
    assert_eq!(Some(7), arena.remove(4));
    assert_eq!("[Some(3), None, Some(5)]", arena.debug_string());
    assert_eq!(None, arena.get(3));
    assert_eq!(None, arena.get(4));
    assert_eq!(1, arena.insert(0));
    assert_eq!(3, arena.insert(0));
    assert_eq!(Some(5), arena.remove(2));
    assert_eq!(Some(0), arena.remove(3));
    assert_eq!("[Some(3), Some(0)]", arena.debug_string());
    assert_eq!(Some(0), arena.remove(1));
    assert_eq!(Some(3), arena.remove(0));
    assert_eq!(Arena::new(), arena);
    assert_eq!(0, arena.insert(1));
}

#[test]
fn arena_from_slots_drops_trailing_holes() {
    let mut arena = Arena::from_slots(vec![None, Some(1), None, Some(2), None, None]);
    assert_eq!("[None, Some(1), None, Some(2)]", arena.debug_string());
    assert_eq!(Arena::from_slots(vec![None, Some(1), None, Some(2)]), arena);
    assert_eq!(0, arena.insert(7));
    assert_eq!(2, arena.insert(8));
    assert_eq!(4, arena.insert(9));
    let empty: Arena<i32> = Arena::from_slots(vec![None, None]);
    assert_eq!(Arena::new(), empty);
}

#[test]
fn arena_iter_skips_holes_and_starts_anew() {
    let mut arena = Arena::new();
    for value in [3, 4, 5, 6] {
        arena.insert(value);
    }
    arena.remove(0);
    arena.remove(2);
    for _ in 0..2 {
        let mut iter = arena.iter();
        assert_eq!(Some(&4), iter.next());
        assert_eq!(Some(&6), iter.next());
        assert_eq!(None, iter.next());
    }
    let empty: Arena<i32> = Arena::new();
    assert_eq!(None, empty.iter().next());
}

#[test]
fn arena_get_mut_changes_one_slot() {
    let mut arena = Arena::new();
    arena.insert(String::from("a"));
    arena.insert(String::from("b"));
    arena.get_mut(1).unwrap().push('c');
    assert_eq!(Some(&String::from("a")), arena.get(0));
    assert_eq!(Some(&String::from("bc")), arena.get(1));
    arena.remove(0);
    assert_eq!(None, arena.get_mut(0));
    assert_eq!(0, arena.insert(String::from("d")));
}

#[test]
fn arena_len_counts_the_slots_of_the_buffer() {
    let mut arena = Arena::new();
    assert_eq!(0, arena.len());
    arena.insert(1);
    arena.insert(2);
    arena.insert(3);
    arena.remove(1);
    assert_eq!(3, arena.len());
    arena.remove(2);
    assert_eq!(1, arena.len());
}
