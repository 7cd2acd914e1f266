use shazamio_core::SignatureError;

#[test]
fn signature_error_displays_message() {
    let err = SignatureError::new("boom".to_string());
    assert_eq!(err.to_string(), "boom");
}

#[test]
fn signature_error_keeps_an_empty_message() {
    let err = SignatureError::new(String::new());
    assert_eq!(err.to_string(), "");
    let copy = err.clone();
    assert_eq!(copy.to_string(), "");
}
