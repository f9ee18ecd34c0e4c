use cflib_rust::error::Error;

#[test]
fn each_error_class_describes_itself() {
    assert_eq!(Error::Validation.describe(), "invalid input");
    assert_eq!(Error::Protocol.describe(), "protocol error");
    assert_eq!(Error::ResourceUnavailable.describe(), "resource unavailable");
    assert_eq!(Error::ConnectionLost.describe(), "connection lost");
}

#[test]
fn error_classes_are_distinct() {
    assert_ne!(Error::Validation, Error::Protocol);
    assert_ne!(Error::Protocol, Error::ResourceUnavailable);
    assert_ne!(Error::ResourceUnavailable, Error::ConnectionLost);
    assert_ne!(Error::ConnectionLost, Error::Validation);
}
