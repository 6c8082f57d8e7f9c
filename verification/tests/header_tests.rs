use dmrparse::header::{parse_zip_header, HeaderInfo, StartupError};

fn good_header() -> Vec<u8> {
    let mut h = vec![0u8; 30];
    h[0] = 0x50;
    h[1] = 0x4b;
    h[2] = 0x03;
    h[3] = 0x04;
    h[26] = 5; // name length 261 = 5 + 256
    h[27] = 1;
    h[28] = 7; // extra length 7
    h[29] = 0;
    h
}

#[test]
fn header_lengths_are_little_endian() {
    let h = good_header();
    let info = parse_zip_header(&h).unwrap();
    assert_eq!(info, HeaderInfo { name_len: 261, extra_len: 7 });
}

#[test]
fn header_bad_magic_is_rejected() {
    let mut h = good_header();
    h[3] = 0x05;
    assert_eq!(parse_zip_header(&h), Err(StartupError::BadMagic));
}

#[test]
fn header_too_short_is_rejected() {
    let h = vec![0x50u8, 0x4b, 0x03, 0x04];
    assert_eq!(parse_zip_header(&h), Err(StartupError::TruncatedHeader));
}
