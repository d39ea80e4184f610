use uptime_monitor::http::{read_request_body, send_response};

#[test]
fn empty_body_has_no_pieces() {
    let r = send_response(404, "application/json", &[]);
    assert_eq!(r.status, 404);
    assert_eq!(r.header_name, "content-type");
    assert_eq!(r.header_value, b"application/json".to_vec());
    assert!(r.chunks.is_empty());
}

#[test]
fn bodies_are_sent_in_pieces_of_4096() {
    for n in [1usize, 4095, 4096, 4097, 8192, 10000] {
        let body: Vec<u8> = (0..n).map(|i| (i % 251) as u8).collect();
        let r = send_response(200, "text/html; charset=utf-8", &body);
        let expected: Vec<Vec<u8>> = body.chunks(4096).map(|c| c.to_vec()).collect();
        assert_eq!(r.chunks, expected);
        assert_eq!(r.chunks.concat(), body);
    }
}

#[test]
fn body_is_read_until_an_empty_piece() {
    let mut body = Vec::new();
    assert!(read_request_body(&mut body, Some(vec![1, 2])));
    assert!(read_request_body(&mut body, Some(vec![3])));
    assert!(!read_request_body(&mut body, Some(vec![])));
    assert_eq!(body, vec![1, 2, 3]);
}

#[test]
fn body_is_read_until_a_failure() {
    let mut body = vec![9];
    assert!(!read_request_body(&mut body, None));
    assert_eq!(body, vec![9]);
}
