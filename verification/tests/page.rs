use workbook::page::{describe_title, title_sentence};

#[test]
fn a_title_is_named() {
    assert_eq!(
        describe_title("https://example.org", Some("Example Domain")),
        "The title for https://example.org was Example Domain"
    );
}

#[test]
fn a_missing_title_is_said_to_be_missing() {
    assert_eq!(describe_title("https://example.org", None), "https://example.org had no title");
}

#[test]
fn the_title_is_read_from_the_page() {
    let html = "<!DOCTYPE html><html><head><title>Example Domain</title></head><body><h1>Other</h1></body></html>";
    assert_eq!(
        title_sentence("https://example.org", html),
        "The title for https://example.org was Example Domain"
    );
}

#[test]
fn a_page_without_title_has_none() {
    let html = "<html><head></head><body><p>No heading here</p></body></html>";
    assert_eq!(title_sentence("u", html), "u had no title");
    assert_eq!(title_sentence("u", ""), "u had no title");
}

#[test]
fn the_first_of_two_titles_counts() {
    let html = "<html><head><title>First</title><title>Second</title></head></html>";
    assert_eq!(title_sentence("u", html), "The title for u was First");
}
