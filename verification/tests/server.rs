use workbook::server::{response, route};

#[test]
fn the_root_is_served() {
    let chosen = route("GET / HTTP/1.1");
    assert_eq!(chosen.status_line, "HTTP/1.1 200 OK");
    assert_eq!(chosen.filename, "hello.html");
}

#[test]
fn everything_else_is_not_found() {
    for line in [
        "GET /sleep HTTP/1.1",
        "GET / HTTP/1.0",
        "POST / HTTP/1.1",
        "get / http/1.1",
        "GET / HTTP/1.1 ",
        " GET / HTTP/1.1",
        "GET  / HTTP/1.1",
        "",
    ] {
        let chosen = route(line);
        assert_eq!(chosen.status_line, "HTTP/1.1 404 NOT FOUND", "for {:?}", line);
        assert_eq!(chosen.filename, "404.html", "for {:?}", line);
    }
}

#[test]
fn a_response_carries_length_type_and_body() {
    assert_eq!(
        response("HTTP/1.1 200 OK", "<h1>Hi</h1>"),
        "HTTP/1.1 200 OK\r\nContent-Length: 11\r\nContent-Type: text/html\r\n\r\n<h1>Hi</h1>"
    );
}

#[test]
fn an_empty_body_has_length_zero() {
    assert_eq!(
        response("HTTP/1.1 404 NOT FOUND", ""),
        "HTTP/1.1 404 NOT FOUND\r\nContent-Length: 0\r\nContent-Type: text/html\r\n\r\n"
    );
}

#[test]
fn the_length_counts_bytes() {
    assert_eq!(
        response("HTTP/1.1 200 OK", "caf\u{e9} \u{1F600}"),
        "HTTP/1.1 200 OK\r\nContent-Length: 10\r\nContent-Type: text/html\r\n\r\ncaf\u{e9} \u{1F600}"
    );
}

#[test]
fn a_response_agrees_with_plain_formatting() {
    let contents = "<!DOCTYPE html>\n<html lang=\"en\">\n  <body>\n    <h1>Hello!</h1>\n  </body>\n</html>\n";
    let status_line = "HTTP/1.1 200 OK";
    let length = contents.len();
    let expected = format!(
        "{status_line}\r\nContent-Length: {length}\r\nContent-Type: text/html\r\n\r\n{contents}"
    );
    assert_eq!(response(status_line, contents), expected);
}
