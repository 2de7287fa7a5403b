use workbook::cons_list::List;

#[test]
fn the_end_has_no_tail() {
    assert!(List::Nil.tail().is_none());
}

#[test]
fn the_tail_is_what_follows_the_first_number() {
    let list = List::Cons(1, Box::new(List::Cons(2, Box::new(List::Cons(3, Box::new(List::Nil))))));
    let rest = list.tail().unwrap();
    assert!(matches!(rest, List::Cons(2, _)));
    let rest = rest.tail().unwrap();
    assert!(matches!(rest, List::Cons(3, _)));
    let rest = rest.tail().unwrap();
    assert!(matches!(rest, List::Nil));
    assert!(rest.tail().is_none());
}
