use downloader::errors::Error;

#[test]
fn request_error_becomes_request_failed() {
    let cause = reqwest::Client::new().get("not a url").build().unwrap_err();
    assert!(matches!(Error::from(cause), Error::RequestFailed(_)));
}

#[test]
fn io_error_becomes_io() {
    let cause = std::io::Error::new(std::io::ErrorKind::NotFound, "gone");
    match Error::from(cause) {
        Error::IO(e) => assert_eq!(e.kind(), std::io::ErrorKind::NotFound),
        _ => panic!("an error of the file system should stay one"),
    }
}

#[test]
fn error_text_names_the_kind() {
    let error = Error::DirectoryNotFound("/no/such".to_string());
    assert_eq!(format!("{:?}", error), "DirectoryNotFound(\"/no/such\")");
    let error = Error::from(std::io::Error::new(std::io::ErrorKind::NotFound, "gone"));
    assert!(format!("{:?}", error).starts_with("IO("));
    let cause = reqwest::header::HeaderValue::from_str("\n").unwrap_err();
    assert!(format!("{:?}", Error::InvalidHeaderValue(cause)).starts_with("InvalidHeaderValue"));
    let cause = reqwest::Client::new().get("not a url").build().unwrap_err();
    assert!(format!("{:?}", Error::from(cause)).starts_with("RequestFailed("));
}
