use imagedrive::hexcode;

#[test]
fn it_works() {
    assert_eq!(2 + 2, 4);
}

#[test]
fn digest_text_round_trip() {
    let digest = vec![0x00u8, 0x0f, 0xa5, 0xff];
    let text = hexcode::encode(&digest);
    assert_eq!(text, "000fa5ff");
    assert_eq!(hexcode::decode(&text), Some(digest));
}
