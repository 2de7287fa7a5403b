use workbook::decimal::render;

#[test]
fn render_writes_single_digits() {
    assert_eq!(render(0), "0");
    assert_eq!(render(7), "7");
    assert_eq!(render(9), "9");
}

#[test]
fn render_writes_every_digit_in_place() {
    assert_eq!(render(10), "10");
    assert_eq!(render(1234567890), "1234567890");
    assert_eq!(render(1000), "1000");
    assert_eq!(render(909), "909");
}

#[test]
fn render_writes_the_largest_number() {
    assert_eq!(render(u64::MAX), "18446744073709551615");
}

#[test]
fn render_agrees_with_the_standard_library() {
    let mut n: u64 = 1;
    for _ in 0..19 {
        assert_eq!(render(n), n.to_string());
        assert_eq!(render(n - 1), (n - 1).to_string());
        assert_eq!(render(n + 1), (n + 1).to_string());
        n *= 10;
    }
}
