use workbook::lifetimes::{longest, longest_without_second_specifier};

#[test]
fn the_first_argument_comes_back() {
    let mut other = String::from("xyz");
    assert_eq!(longest_without_second_specifier("abcd", other.as_mut_str()), "abcd");
    assert_eq!(other, "xyz");
    assert_eq!(longest_without_second_specifier("", other.as_mut_str()), "");
}

#[test]
fn the_answer_is_always_the_same() {
    assert_eq!(longest("abcd", "xyz", 5), "hi");
    assert_eq!(longest("", "", "note"), "hi");
}
