use http_server::response::{build_response, decimal_bytes, route_of, status_line_for, Route};

#[test]
fn routes_are_recognised() {
    assert_eq!(route_of(b"GET / HTTP/1.1"), Route::Home);
    assert_eq!(route_of(b"GET /sleep HTTP/1.1"), Route::Sleep);
    assert_eq!(route_of(b"GET /missing HTTP/1.1"), Route::NotFound);
    assert_eq!(route_of(b"POST / HTTP/1.1"), Route::NotFound);
    assert_eq!(route_of(b""), Route::NotFound);
    assert_eq!(route_of(b"GET / HTTP/1.1 "), Route::NotFound);
}

#[test]
fn only_the_sleep_route_delays() {
    assert!(!Route::Home.delays());
    assert!(Route::Sleep.delays());
    assert!(!Route::NotFound.delays());
}

#[test]
fn found_routes() {
    assert!(Route::Home.found());
    assert!(Route::Sleep.found());
    assert!(!Route::NotFound.found());
}

#[test]
fn status_lines() {
    assert_eq!(status_line_for(Route::Home), b"HTTP/1.1 200 OK".to_vec());
    assert_eq!(status_line_for(Route::Sleep), b"HTTP/1.1 200 OK".to_vec());
    assert_eq!(
        status_line_for(Route::NotFound),
        b"HTTP/1.1 404 NOT FOUND".to_vec()
    );
}

#[test]
fn decimal_rendering() {
    assert_eq!(decimal_bytes(0), b"0".to_vec());
    assert_eq!(decimal_bytes(7), b"7".to_vec());
    assert_eq!(decimal_bytes(10), b"10".to_vec());
    assert_eq!(decimal_bytes(209), b"209".to_vec());
    assert_eq!(decimal_bytes(1234567), b"1234567".to_vec());
}

#[test]
fn response_assembly() {
    let body = b"<p>Oopsie, We don't know what you're looking for!!!</p>";
    let response = build_response(b"HTTP/1.1 404 NOT FOUND", body);
    let expected = format!(
        "HTTP/1.1 404 NOT FOUND\r\nContent-Length: {}\r\n\r\n{}",
        body.len(),
        String::from_utf8(body.to_vec()).unwrap()
    );
    assert_eq!(response, expected.into_bytes());
}

#[test]
fn response_assembly_empty_body() {
    let response = build_response(b"HTTP/1.1 200 OK", b"");
    assert_eq!(response, b"HTTP/1.1 200 OK\r\nContent-Length: 0\r\n\r\n".to_vec());
}
