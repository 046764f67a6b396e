use dicey::{map_io_error, Address, Error, IoErrorKind};

#[test]
fn io_errors_are_classified() {
    assert_eq!(map_io_error(IoErrorKind::NotFound), Error::FileNotFound);
    assert_eq!(map_io_error(IoErrorKind::InvalidInput), Error::InvalidData);
    assert_eq!(map_io_error(IoErrorKind::InvalidData), Error::InvalidData);
    assert_eq!(map_io_error(IoErrorKind::ConnectionRefused), Error::ConnectionRefused);
    assert_eq!(map_io_error(IoErrorKind::ConnectionReset), Error::ConnectionReset);
    assert_eq!(map_io_error(IoErrorKind::TimedOut), Error::TimedOut);
    assert_eq!(map_io_error(IoErrorKind::AlreadyExists), Error::Already);
    assert_eq!(map_io_error(IoErrorKind::BrokenPipe), Error::BrokenPipe);
    assert_eq!(map_io_error(IoErrorKind::Other), Error::UnknownUVError);
}

#[test]
fn numeric_codes_are_kept_as_they_are() {
    for code in [0, 1, -1, -257, i32::MIN, i32::MAX] {
        assert_eq!(Error::from_code(code), Error::Engine(code));
        assert_eq!(Error::from_code(code).code(), Some(code));
    }
    assert_eq!(Error::TimedOut.code(), None);
    assert_eq!(Error::InvalidData.code(), None);
    assert_ne!(Error::Engine(1), Error::Engine(2));
}

#[test]
fn address_keeps_its_bytes() {
    let address = Address::new(b"/tmp/.uvsock");
    assert_eq!(address.as_bytes(), b"/tmp/.uvsock");
    assert_eq!(address.into_raw(), b"/tmp/.uvsock".to_vec());
    assert_eq!(Address::new(b"").into_raw(), Vec::<u8>::new());
}

#[test]
fn address_with_a_nul_is_refused() {
    assert_eq!(Address::parse(b"a\0b"), Err(Error::InvalidData));
    assert_eq!(Address::parse(b"\0"), Err(Error::InvalidData));
    assert_eq!(Address::parse(b"@abstract"), Ok(Address::new(b"@abstract")));
    assert!(dicey::encode::contains_nul(b"a\0"));
    assert!(!dicey::encode::contains_nul(b"a"));
}
