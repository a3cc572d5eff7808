use rabbit::request::{Method, ParseError, Request};

#[test]
fn parser_request_line() {
    let raw = b"GET /api/cars HTTP/1.1\r\nHost: example\r\n\r\n".to_vec();
    let req = Request::new(&raw).unwrap();
    assert!(matches!(req.method, Method::GET));
    assert_eq!(req.path, b"/api/cars".to_vec());
}

#[test]
fn parser_no_space_fails() {
    let raw = b"GETONLY\r\n".to_vec();
    let err = Request::new(&raw).unwrap_err();
    assert!(matches!(err, ParseError::MalformedRequestLine));
}

#[test]
fn parser_empty_fails() {
    let raw = Vec::new();
    assert!(Request::new(&raw).is_err());
}

#[test]
fn parser_known_methods() {
    let cases: Vec<(&[u8], Method)> = vec![
        (b"GET /x HTTP/1.1\r\n", Method::GET),
        (b"POST /x HTTP/1.1\r\n", Method::POST),
        (b"PUT /x HTTP/1.1\r\n", Method::PUT),
        (b"DELETE /x HTTP/1.1\r\n", Method::DELETE),
        (b"UPDATE /x HTTP/1.1\r\n", Method::UPDATE),
    ];
    for (raw, expected) in cases {
        let req = Request::new(&raw.to_vec()).unwrap();
        assert_eq!(req.method, expected);
        assert_eq!(req.path, b"/x".to_vec());
    }
}

#[test]
fn parser_unknown_method_defaults_to_get() {
    let req = Request::new(&b"BREW /coffee HTTP/1.1\r\n".to_vec()).unwrap();
    assert!(matches!(req.method, Method::GET));
    assert_eq!(req.path, b"/coffee".to_vec());
}

#[test]
fn parser_empty_method_token_defaults_to_get() {
    let req = Request::new(&b" /x HTTP/1.1\r\n".to_vec()).unwrap();
    assert!(matches!(req.method, Method::GET));
    assert_eq!(req.path, b"/x".to_vec());
}

#[test]
fn parser_method_is_case_sensitive() {
    let req = Request::new(&b"post /x HTTP/1.1\r\n".to_vec()).unwrap();
    assert!(matches!(req.method, Method::GET));
}

#[test]
fn parser_path_stops_at_next_space() {
    let req = Request::new(&b"GET /a b c\r\n".to_vec()).unwrap();
    assert_eq!(req.path, b"/a".to_vec());
}

#[test]
fn parser_path_may_run_to_line_end() {
    let req = Request::new(&b"GET /bare-path".to_vec()).unwrap();
    assert_eq!(req.path, b"/bare-path".to_vec());
}

#[test]
fn parser_reads_first_line_only() {
    let req = Request::new(&b"GET /first HTTP/1.1\nGET /second HTTP/1.1\n".to_vec()).unwrap();
    assert_eq!(req.path, b"/first".to_vec());
}

#[test]
fn parser_strips_trailing_carriage_return() {
    let req = Request::new(&b"GET /only\r\n".to_vec()).unwrap();
    assert_eq!(req.path, b"/only".to_vec());
}

#[test]
fn parser_second_line_spaces_do_not_help() {
    let raw = b"NOSPACEHERE\r\nGET /x HTTP/1.1\r\n".to_vec();
    assert!(Request::new(&raw).is_err());
}
