use handterm::base64::base64_decode;

#[test]
fn padded_and_unpadded_text_decode_to_the_same_bytes() {
    assert_eq!(base64_decode(b"aGVsbG8=").unwrap(), b"hello".to_vec());
    assert_eq!(base64_decode(b"aGVsbG8").unwrap(), b"hello".to_vec());
    assert_eq!(base64_decode(b"aGk=").unwrap(), b"hi".to_vec());
    assert_eq!(base64_decode(b"").unwrap(), Vec::<u8>::new());
}

#[test]
fn line_breaks_anywhere_do_not_change_the_decoding() {
    assert_eq!(base64_decode(b"aG\r\nVs\nbG8=\r\n").unwrap(), b"hello".to_vec());
    assert_eq!(base64_decode(b"/+/+\n").unwrap(), vec![0xff, 0xef, 0xfe]);
}
