use workbook::borrowing::change_s1;
use workbook::ownership::{calculate_length, gives_ownership, takes_and_gives_back};

#[test]
fn a_string_is_given() {
    assert_eq!(gives_ownership(), "hello");
}

#[test]
fn a_string_comes_back_unchanged() {
    assert_eq!(takes_and_gives_back(String::from("hello")), "hello");
    assert_eq!(takes_and_gives_back(String::new()), "");
}

#[test]
fn the_length_comes_with_the_string() {
    assert_eq!(calculate_length(String::from("hello")), (String::from("hello"), 5));
    assert_eq!(calculate_length(String::new()), (String::new(), 0));
    assert_eq!(calculate_length(String::from("h\u{e9}")), (String::from("h\u{e9}"), 3));
}

#[test]
fn a_lent_string_is_measured() {
    let s1 = String::from("hello");
    assert_eq!(workbook::borrowing::calculate_length(&s1), 5);
    assert_eq!(s1, "hello");
    assert_eq!(workbook::borrowing::calculate_length(&String::from("\u{1F600}")), 4);
}

#[test]
fn a_lent_string_is_changed() {
    let mut s1 = String::from("hello");
    change_s1(&mut s1);
    assert_eq!(s1, "hello, world");
    change_s1(&mut s1);
    assert_eq!(s1, "hello, world, world");
}
