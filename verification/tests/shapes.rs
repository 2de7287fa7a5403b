use workbook::shapes::{area, area_tuple, Point};

#[test]
fn area_is_width_times_height() {
    assert_eq!(area(30, 50), 1500);
    assert_eq!(area_tuple((30, 50)), 1500);
    assert_eq!(area(0, 50), 0);
    assert_eq!(area(-3, 5), -15);
    assert_eq!(area_tuple((-3, -5)), 15);
    assert_eq!(area(46340, 46340), 2147395600);
}

#[test]
fn mixup_takes_x_from_the_first_and_y_from_the_second() {
    let p1 = Point { x: 5, y: 10.4 };
    let p2 = Point { x: "Hello", y: 'c' };
    let p3 = p1.mixup(p2);
    assert_eq!(p3.x, 5);
    assert_eq!(p3.y, 'c');
}
