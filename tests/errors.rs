use kaspa_grpc_server::error::{Error, ErrorImpl};

#[test]
fn error_impl_message() {
    assert_eq!(ErrorImpl::DecodeInvalidLength.message(), "decoding error");
    assert_eq!(ErrorImpl::DecodeInvalidStr.message(), "decoding error");
}

#[test]
fn error_from_error_impl_carries_message() {
    match Error::from(ErrorImpl::DecodeInvalidStr) {
        Error::String(s) => assert_eq!(s, "decoding error"),
        other => panic!("{:?}", other),
    }
}

#[test]
fn error_from_base58_decode() {
    let e = bs58::decode("0OIl").into_vec().unwrap_err();
    assert!(matches!(Error::from(e), Error::Base58Decode(_)));
}

#[test]
fn error_from_slice_conversion() {
    let bytes = [1u8, 2, 3];
    let e = <[u8; 2]>::try_from(&bytes[..]).unwrap_err();
    assert!(matches!(Error::from(e), Error::Decode(_)));
}

#[test]
fn error_from_utf8() {
    let bytes = vec![0xffu8, 0xfe];
    let e = std::str::from_utf8(&bytes).unwrap_err();
    assert!(matches!(Error::from(e), Error::Utf8Error(_)));
}
