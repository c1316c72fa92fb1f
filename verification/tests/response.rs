use rocket_core::decimal::to_decimal;
use rocket_core::response::{
    contains_name, name_eq, Body, Header, Response, Status, DEFAULT_CHUNK_SIZE,
};
use rocket_core::transport::{
    check_head, check_header_name, check_header_value, check_status, EncodeError,
};

fn pairs(headers: &[Header]) -> Vec<(String, String)> {
    headers
        .iter()
        .map(|h| {
            (String::from_utf8(h.name.clone()).unwrap(), String::from_utf8(h.value.clone()).unwrap())
        })
        .collect()
}

fn pair(name: &str, value: &str) -> (String, String) {
    (name.to_string(), value.to_string())
}

#[test]
fn decimal_of_small_and_large_numbers() {
    assert_eq!(to_decimal(0), b"0".to_vec());
    assert_eq!(to_decimal(7), b"7".to_vec());
    assert_eq!(to_decimal(9), b"9".to_vec());
    assert_eq!(to_decimal(10), b"10".to_vec());
    assert_eq!(to_decimal(13), b"13".to_vec());
    assert_eq!(to_decimal(100), b"100".to_vec());
    assert_eq!(to_decimal(4096), b"4096".to_vec());
    assert_eq!(to_decimal(1000000007), b"1000000007".to_vec());
    assert_eq!(to_decimal(u64::MAX), b"18446744073709551615".to_vec());
}

#[test]
fn decimal_agrees_with_the_standard_rendering() {
    for n in [0u64, 1, 9, 10, 11, 99, 100, 101, 12345, 1 << 32, u64::MAX - 1] {
        assert_eq!(to_decimal(n), n.to_string().into_bytes());
    }
}

#[test]
fn status_codes() {
    assert_eq!(Status::ok().code, 200);
    assert_eq!(Status::created().code, 201);
    assert_eq!(Status::accepted().code, 202);
    assert_eq!(Status::bad_request().code, 400);
    assert_eq!(Status::not_found().code, 404);
}

#[test]
fn header_names_compare_without_case() {
    assert!(name_eq(&b"Content-Length".to_vec(), &b"content-length".to_vec()));
    assert!(name_eq(&b"ETAG".to_vec(), &b"etag".to_vec()));
    assert!(name_eq(&b"".to_vec(), &b"".to_vec()));
    assert!(!name_eq(&b"ETag".to_vec(), &b"ETags".to_vec()));
    assert!(!name_eq(&b"X-A".to_vec(), &b"X-B".to_vec()));
    assert!(!name_eq(&b"@".to_vec(), &b"`".to_vec()));
    assert!(!name_eq(&b"[".to_vec(), &b"{".to_vec()));
    assert!(name_eq(&b"Z".to_vec(), &b"z".to_vec()));
    assert!(name_eq(&b"A".to_vec(), &b"a".to_vec()));
}

#[test]
fn header_from_text_and_from_bytes() {
    let h = Header::new("X-Id", "7");
    assert_eq!(h.name, b"X-Id".to_vec());
    assert_eq!(h.value, b"7".to_vec());
    let g = Header::from_bytes(b"X-Id".to_vec(), vec![0xfa, 0x20]);
    assert_eq!(g.name, b"X-Id".to_vec());
    assert_eq!(g.value, vec![0xfa, 0x20]);
    assert_eq!(h.copy(), h);
    assert_eq!(g.copy().value, g.value);
}

#[test]
fn new_response_is_empty() {
    let response: Response<()> = Response::new();
    assert!(response.status.is_none());
    assert!(response.headers.is_empty());
    assert!(response.body.is_none());
    assert_eq!(response.status(), Status { code: 200 });
}

#[test]
fn set_header_replaces_headers_of_the_same_name() {
    let mut response: Response<()> = Response::new();
    response.set_header(Header::new("A", "1"));
    response.set_header(Header::new("B", "2"));
    response.adjoin_header(Header::new("a", "3"));
    response.set_header(Header::new("C", "4"));
    assert_eq!(
        pairs(&response.headers),
        vec![pair("A", "1"), pair("B", "2"), pair("a", "3"), pair("C", "4")]
    );
    response.set_header(Header::new("A", "5"));
    assert_eq!(pairs(&response.headers), vec![pair("B", "2"), pair("C", "4"), pair("A", "5")]);
    response.set_header(Header::new("b", "6"));
    assert_eq!(pairs(&response.headers), vec![pair("C", "4"), pair("A", "5"), pair("b", "6")]);
}

#[test]
fn adjoin_header_keeps_what_is_there() {
    let mut response: Response<()> = Response::new();
    response.adjoin_header(Header::new("Set-Cookie", "a=1"));
    response.adjoin_header(Header::new("Set-Cookie", "b=2"));
    assert_eq!(
        pairs(&response.headers),
        vec![pair("Set-Cookie", "a=1"), pair("Set-Cookie", "b=2")]
    );
    assert!(contains_name(&response.headers, &b"set-cookie".to_vec()));
    assert!(!contains_name(&response.headers, &b"cookie".to_vec()));
}

#[test]
fn bodies_are_set_and_taken() {
    let mut response: Response<u8> = Response::new();
    response.set_sized_body(1, 10);
    assert!(matches!(response.body, Some(Body::Sized(1, 10))));
    response.set_chunked_body(2, 512);
    assert!(matches!(response.body, Some(Body::Chunked(2, 512))));
    response.set_streamed_body(3);
    assert!(matches!(response.body, Some(Body::Chunked(3, 4096))));
    assert_eq!(DEFAULT_CHUNK_SIZE, 4096);
    assert!(matches!(response.take_body(), Some(Body::Chunked(3, 4096))));
    assert!(response.body.is_none());
    assert!(response.take_body().is_none());
}

#[test]
fn merge_takes_status_body_and_headers_of_the_other() {
    let mut ours: Response<u8> = Response::new();
    ours.set_status(Status { code: 500 });
    ours.set_sized_body(1, 1);
    ours.adjoin_header(Header::new("A", "1"));
    ours.adjoin_header(Header::new("B", "2"));
    ours.adjoin_header(Header::new("a", "3"));
    ours.adjoin_header(Header::new("C", "4"));

    let mut theirs: Response<u8> = Response::new();
    theirs.set_status(Status { code: 201 });
    theirs.set_chunked_body(2, 8);
    theirs.adjoin_header(Header::new("A", "x"));
    theirs.adjoin_header(Header::new("D", "y"));
    theirs.adjoin_header(Header::new("A", "z"));

    ours.merge(theirs);
    assert_eq!(ours.status, Some(Status { code: 201 }));
    assert!(matches!(ours.body, Some(Body::Chunked(2, 8))));
    assert_eq!(
        pairs(&ours.headers),
        vec![pair("B", "2"), pair("C", "4"), pair("A", "x"), pair("D", "y"), pair("A", "z")]
    );
}

#[test]
fn merge_keeps_what_the_other_lacks() {
    let mut ours: Response<u8> = Response::new();
    ours.set_status(Status { code: 500 });
    ours.set_sized_body(1, 1);
    ours.adjoin_header(Header::new("A", "1"));
    ours.merge(Response::new());
    assert_eq!(ours.status, Some(Status { code: 500 }));
    assert!(matches!(ours.body, Some(Body::Sized(1, 1))));
    assert_eq!(pairs(&ours.headers), vec![pair("A", "1")]);
}

#[test]
fn transport_accepts_three_digit_status_codes() {
    assert!(!check_status(0));
    assert!(!check_status(99));
    assert!(check_status(100));
    assert!(check_status(200));
    assert!(check_status(999));
    assert!(!check_status(1000));
    assert!(!check_status(u16::MAX));
}

#[test]
fn transport_accepts_token_header_names() {
    assert!(check_header_name(&b"Content-Length".to_vec()));
    assert!(check_header_name(&b"x-custom_1".to_vec()));
    assert!(!check_header_name(&b"".to_vec()));
    assert!(!check_header_name(&b"bad name".to_vec()));
    assert!(!check_header_name(&b"bad:name".to_vec()));
    assert!(!check_header_name(&b"caf\xc3\xa9".to_vec()));
    assert!(check_header_name(&vec![b'a'; 65535]));
    assert!(!check_header_name(&vec![b'a'; 65536]));
}

#[test]
fn transport_accepts_visible_header_values() {
    assert!(check_header_value(&b"".to_vec()));
    assert!(check_header_value(&b"text/plain; charset=utf-8".to_vec()));
    assert!(check_header_value(&b"a\tb".to_vec()));
    assert!(check_header_value(&vec![32, 126, 128, 255]));
    assert!(!check_header_value(&b"a\nb".to_vec()));
    assert!(!check_header_value(&b"a\rb".to_vec()));
    assert!(!check_header_value(&vec![31]));
    assert!(!check_header_value(&vec![127]));
    assert!(!check_header_value(&vec![0]));
}

#[test]
fn head_check_names_the_first_refusal() {
    let good = vec![Header::new("A", "1"), Header::new("B", "2")];
    assert_eq!(check_head(200, &good), Ok(()));
    assert_eq!(check_head(200, &Vec::new()), Ok(()));
    assert_eq!(check_head(1000, &good), Err(EncodeError::InvalidStatus));
    let bad_value = vec![Header::new("A", "1"), Header::new("B", "\x7f"), Header::new("", "")];
    assert_eq!(check_head(200, &bad_value), Err(EncodeError::InvalidHeaderValue(1)));
    let bad_name = vec![Header::new("A", "1"), Header::new("B", "2"), Header::new("C D", "\n")];
    assert_eq!(check_head(200, &bad_name), Err(EncodeError::InvalidHeaderName(2)));
    assert_eq!(check_head(99, &bad_name), Err(EncodeError::InvalidStatus));
}

fn name_byte(b: u8) -> bool {
    matches!(b, 33..=39 | 42 | 43 | 45 | 46 | 48..=57 | 65..=90 | 94..=122 | 124 | 126)
}

fn value_byte(b: u8) -> bool {
    (b >= 32 && b != 127) || b == 9
}

#[test]
fn every_byte_in_a_header_name() {
    for b in 0u8..=255 {
        assert_eq!(check_header_name(&vec![b]), name_byte(b), "byte {}", b);
        let mut short = vec![b'x'; 64];
        short[63] = b;
        assert_eq!(check_header_name(&short), name_byte(b), "byte {} at the end of 64", b);
        let mut long = vec![b'x'; 70];
        long[35] = b;
        assert_eq!(check_header_name(&long), name_byte(b), "byte {} among 70", b);
    }
}

#[test]
fn every_byte_in_a_header_value() {
    for b in 0u8..=255 {
        assert_eq!(check_header_value(&vec![b]), value_byte(b), "byte {}", b);
        assert_eq!(check_header_value(&vec![b'a', b, b'c']), value_byte(b), "byte {} inside", b);
    }
}

#[test]
fn header_names_of_every_length_up_to_the_limit() {
    assert!(!check_header_name(&Vec::new()));
    for len in [1usize, 2, 63, 64, 65, 66, 1000, 65534, 65535] {
        assert!(check_header_name(&vec![b'n'; len]), "length {}", len);
    }
    for len in [65536usize, 65537, 100000] {
        assert!(!check_header_name(&vec![b'n'; len]), "length {}", len);
    }
}

#[test]
fn every_status_code() {
    for code in 0u16..=u16::MAX {
        assert_eq!(check_status(code), (100..1000).contains(&code), "code {}", code);
    }
}

#[test]
fn standard_header_names_in_any_case() {
    for name in ["content-length", "Content-Length", "CONTENT-LENGTH", "ETag", "Location", "\"quoted\""] {
        assert!(check_header_name(&name.as_bytes().to_vec()), "{}", name);
    }
}
