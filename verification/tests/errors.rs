use mud_domain::errors::Error;

#[test]
fn error_suffixes_tell_the_kind() {
    assert!(Error::Error("disk".to_string()).is_fatal());
    assert!(Error::ParserError("bad".to_string()).is_fatal());
    assert!(!Error::NotFoundFailure.is_fatal());
    assert!(Error::NotFoundFailure.is_failure());
    assert!(Error::ConflictException.is_exception());
    assert!(!Error::ParserError("bad".to_string()).is_failure());
}
