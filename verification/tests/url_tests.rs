use rizwold::store::Url;

#[test]
fn test_url_try_from_valid() {
    let result = Url::try_from("http://localhost/");
    assert!(result.is_ok());
}

#[test]
fn test_url_try_from_invalid_scheme() {
    let result = Url::try_from("ftp://localhost/");
    assert!(result.is_err());
}

#[test]
fn test_url_with_username() {
    let result = Url::try_from("http://user@localhost/");
    assert!(result.is_err());
}

#[test]
fn test_url_with_password() {
    let result = Url::try_from("http://:pass@localhost/");
    assert!(result.is_err());
}

#[test]
fn url_is_normalized() {
    let url = Url::try_from("https://example.com").unwrap();
    assert_eq!(url.to_bytes(), b"https://example.com/".to_vec());
}

#[test]
fn url_garbage_is_rejected() {
    assert!(Url::try_from("not a url").is_err());
}
