use find_unsafe_rs::{
    bar, invalid_argument_status, sanitize, sink, source, Foo, status_of, Error, FileFailure, IoErrorKind,
    PARSE_ERROR_STATUS,
};

#[test]
fn status_codes_per_error() {
    assert_eq!(status_of(&Ok::<(), Error>(())), 0);
    let with_code = Error::FileError(FileFailure { kind: IoErrorKind::NotFound, os_code: Some(2) });
    assert_eq!(status_of(&Err::<(), Error>(with_code)), 2);
    let without = Error::FileError(FileFailure { kind: IoErrorKind::Other, os_code: None });
    assert_eq!(status_of(&Err::<(), Error>(without)), libc::EIO);
    assert_eq!(status_of(&Err::<(), Error>(Error::ParseError)), -16);
    assert_eq!(PARSE_ERROR_STATUS, -16);
    assert_eq!(status_of(&Err::<bool, Error>(Error::RwLockError)), libc::ENOLCK);
    assert_eq!(invalid_argument_status(), libc::EINVAL);
}

#[test]
fn samples_pass_values_through() {
    assert_eq!(source(), 42);
    assert_eq!(sanitize(7), 7);
    assert_eq!(sink(source()), 42);
    let mut foo = Foo::new();
    assert_eq!(foo.x, 0);
    assert_eq!(foo.y, [0; 16]);
    bar(&mut foo, 5, 9);
    assert_eq!(foo.x, 5);
    assert_eq!(foo.y[0], 9);
    assert_eq!(foo.y[1], 0);
}
