use dmrparse::reader::{find_str_in_u8, window_fragment, DoubleBufferReader, WindowError};

#[test]
fn test_find_str_in_u8() {
    let haystack = "Hello 34zhfu 3kf f34\u{a0}\u{b6}world";
    let needle = "3kf";
    assert_eq!(find_str_in_u8(&needle, haystack.as_bytes()), Some(13));
}

#[test]
fn find_absent_needle() {
    assert_eq!(find_str_in_u8("zzz", b"Hello world"), None);
    assert_eq!(find_str_in_u8("x", b""), None);
}

#[test]
fn find_needle_at_start_and_end() {
    assert_eq!(find_str_in_u8("He", b"Hello"), Some(0));
    assert_eq!(find_str_in_u8("lo", b"Hello"), Some(3));
}

// The window's fragment is the wrapper-open literal, then the older buffer
// from its first marker, then the newer buffer up to its first marker.
#[test]
fn fragment_spans_first_marker_to_first_marker() {
    let first = b"xx<ns:Statistik>AAA".to_vec();
    let second = b"BBB<ns:Statistik>CCC".to_vec();
    let frag = window_fragment(&first, &second).unwrap();
    let expected = b"<root><ns:Statistik>AAABBB".to_vec();
    assert_eq!(frag, expected);
}

#[test]
fn fragment_with_marker_at_offset_zero() {
    let first = b"<ns:Statistik>AAA".to_vec();
    let second = b"B<ns:Statistik>".to_vec();
    let frag = window_fragment(&first, &second).unwrap();
    assert_eq!(frag, b"<root><ns:Statistik>AAAB".to_vec());
}

#[test]
fn fragment_with_empty_second_takes_whole_tail() {
    let first = b"junk<ns:Statistik>tail bytes".to_vec();
    let second: Vec<u8> = Vec::new();
    let frag = window_fragment(&first, &second).unwrap();
    assert_eq!(frag, b"<root><ns:Statistik>tail bytes".to_vec());
}

#[test]
fn fragment_marker_missing_in_first() {
    let first = b"no marker here".to_vec();
    let second = b"<ns:Statistik>".to_vec();
    assert_eq!(window_fragment(&first, &second), Err(WindowError::MarkerNotFound));
}

#[test]
fn fragment_marker_missing_in_second() {
    let first = b"a<ns:Statistik>bc".to_vec();
    let second = b"never a marker".to_vec();
    assert_eq!(window_fragment(&first, &second), Err(WindowError::MarkerNotFound));
}

#[test]
fn double_buffer_reader_reads_in_chunks() {
    let first = b"xx<ns:Statistik>AB".to_vec();
    let second = b"CD<ns:Statistik>".to_vec();
    let mut dbr = DoubleBufferReader::new(&first, &second);
    // the very first read hands out the wrapper-open literal whole
    assert_eq!(dbr.read(1024).unwrap(), b"<root>".to_vec());
    // then the older buffer from its marker, within the chunk limit
    assert_eq!(dbr.read(7).unwrap(), b"<ns:Sta".to_vec());
    assert_eq!(dbr.read(1024).unwrap(), b"tistik>AB".to_vec());
    // then the newer buffer up to its marker
    assert_eq!(dbr.read(1024).unwrap(), b"CD".to_vec());
    // exhausted: empty reads from now on
    assert_eq!(dbr.read(1024).unwrap(), Vec::<u8>::new());
    assert_eq!(dbr.read(1024).unwrap(), Vec::<u8>::new());
}
