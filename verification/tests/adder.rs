use workbook::adder::{add, add_two, greeting, Guess, Rectangle};

#[test]
fn larger_can_hold_smaller() {
    let larger = Rectangle {
        width: 8,
        height: 7,
    };
    let smaller = Rectangle {
        height: 1,
        width: 5,
    };
    assert!(larger.can_hold(&smaller));
}

#[test]
fn smaller_cannot_hold_larger() {
    let larger = Rectangle {
        width: 8,
        height: 7,
    };
    let smaller = Rectangle {
        height: 1,
        width: 5,
    };
    assert!(!smaller.can_hold(&larger));
}

#[test]
fn lib_it_adds_two() {
    let result = add_two(2);
    assert_eq!(result, 4);
    assert_eq!(add_two(4), 6);
    assert_eq!(add_two(2), result)
}

#[test]
fn it_works() -> Result<(), String> {
    let result = add(2, 2);
    if result == 4 {
        Ok(())
    } else {
        Err(String::from("two plus two does not equal four"))
    }
}

fn say_hello() {
    println!("Hello");
}

#[test]
fn integration_test_it_adds_two() {
    say_hello();
    let result = add_two(2);
    assert_eq!(result, 4);
}

#[test]
fn add_reaches_the_top_of_the_range() {
    assert_eq!(add(u64::MAX - 1, 1), u64::MAX);
    assert_eq!(add(0, 0), 0);
    assert_eq!(add_two(usize::MAX - 2), usize::MAX);
}

#[test]
fn greeting_is_the_same_for_every_name() {
    assert_eq!(greeting("Carol"), "Hello!");
    assert_eq!(greeting(""), "Hello!");
    assert!(!greeting("Carol").contains("Carol"));
}

#[test]
fn equal_sides_do_not_fit() {
    let a = Rectangle { width: 8, height: 7 };
    let same_width = Rectangle { width: 8, height: 1 };
    let same_height = Rectangle { width: 1, height: 7 };
    assert!(!a.can_hold(&same_width));
    assert!(!a.can_hold(&same_height));
    assert!(!a.can_hold(&a));
}

#[test]
fn guess_keeps_its_value() {
    assert_eq!(Guess::new(1).value(), 1);
    assert_eq!(Guess::new(50).value(), 50);
    assert_eq!(Guess::new(100).value(), 100);
}
