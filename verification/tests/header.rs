use downloader::header::get_file_size;
use downloader::header::range_header;
use reqwest::header::HeaderValue;

#[test]
fn range_header_holds_the_offset() {
    let value = range_header(300).unwrap();
    assert_eq!(value.as_bytes(), b"bytes=300-");
}

#[test]
fn range_header_from_the_start() {
    let value = range_header(0).unwrap();
    assert_eq!(value.as_bytes(), b"bytes=0-");
}

#[test]
fn range_header_of_the_largest_offset() {
    let value = range_header(u64::MAX).unwrap();
    assert_eq!(value.as_bytes(), b"bytes=18446744073709551615-");
    assert_eq!(value.to_str().unwrap(), "bytes=18446744073709551615-");
}

#[test]
fn range_header_is_what_a_format_would_give() {
    for offset in [1u64, 9, 10, 99, 100, 1023, 1024, 4_294_967_296] {
        let value = range_header(offset).unwrap();
        assert_eq!(value, HeaderValue::from_str(&format!("bytes={}-", offset)).unwrap());
    }
}

#[test]
fn declared_size_is_read_from_the_header() {
    let value = HeaderValue::from_static("700");
    assert_eq!(get_file_size(Some(&value)), 700);
}

#[test]
fn declared_size_is_zero_without_a_header() {
    assert_eq!(get_file_size(None), 0);
}

#[test]
fn declared_size_is_zero_for_what_is_no_number() {
    for text in ["", "abc", "-1", " 7", "7 ", "1.5", "+", "12,5"] {
        let value = HeaderValue::from_str(text).unwrap();
        assert_eq!(get_file_size(Some(&value)), 0);
    }
}

#[test]
fn declared_size_is_zero_for_what_is_no_text() {
    let value = HeaderValue::from_bytes(b"12\xfa").unwrap();
    assert!(value.to_str().is_err());
    assert_eq!(get_file_size(Some(&value)), 0);
    let value = HeaderValue::from_bytes(b"\xfa").unwrap();
    assert_eq!(get_file_size(Some(&value)), 0);
}

#[test]
fn declared_size_takes_a_plus_and_leading_zeros() {
    let value = HeaderValue::from_static("+42");
    assert_eq!(get_file_size(Some(&value)), 42);
    let value = HeaderValue::from_static("0001000");
    assert_eq!(get_file_size(Some(&value)), 1000);
}

#[test]
fn declared_size_at_the_limit() {
    let value = HeaderValue::from_static("18446744073709551615");
    assert_eq!(get_file_size(Some(&value)), u64::MAX);
    let value = HeaderValue::from_static("18446744073709551616");
    assert_eq!(get_file_size(Some(&value)), 0);
}

#[test]
fn declared_size_of_a_real_response() {
    let response = http::Response::builder()
        .header("content-length", "1000")
        .body("")
        .unwrap();
    let response = reqwest::Response::from(response);
    let header = response.headers().get(reqwest::header::CONTENT_LENGTH);
    assert_eq!(get_file_size(header), 1000);
}

#[test]
fn declared_size_of_a_response_without_the_header() {
    let response = http::Response::builder().body("").unwrap();
    let response = reqwest::Response::from(response);
    let header = response.headers().get(reqwest::header::CONTENT_LENGTH);
    assert_eq!(get_file_size(header), 0);
}
