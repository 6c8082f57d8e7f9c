use dmrparse::pipeline::{run_pipeline, BufferPool};
use dmrparse::record::CarInfo;
use dmrparse::worker::{fill_buffer, parse_window, ByteSource, MemSource, PipelineError, ReadOutcome};

fn elem(name: &str, value: &str) -> String {
    format!("<{}>{}</{}>", name, value, name)
}

fn rec_xml(id: &str, vin: &str) -> String {
    let mut s = String::from("<ns:Statistik>");
    s.push_str(&elem("ns:KoeretoejIdent", id));
    s.push_str(&elem("ns:KoeretoejArtNummer", "1"));
    s.push_str(&elem("ns:KoeretoejArtNavn", "Personbil"));
    s.push_str(&elem("ns:RegistreringNummerNummer", "AB12345"));
    s.push_str(&elem("ns:KoeretoejOplysningStelNummer", vin));
    s.push_str(&elem("ns:KoeretoejOplysningFoersteRegistreringDato", "2010-01-02"));
    s.push_str(&elem("ns:KoeretoejMaerkeTypeNavn", "Brandy"));
    s.push_str(&elem("ns:KoeretoejModelTypeNavn", "Modello"));
    s.push_str(&elem("ns:KoeretoejVariantTypeNavn", "Variante"));
    s.push_str(&elem("ns:KoeretoejOplysningModelAar", "2011"));
    s.push_str(&elem("ns:RegistreringNummerUdloebDato", "2020-01-02"));
    s.push_str(&elem("ns:KoeretoejRegistreringStatus", "Registreret"));
    s.push_str(&elem("ns:KoeretoejRegistreringStatusDato", "2010-01-03"));
    s.push_str("</ns:Statistik>");
    s
}

// Buffer pool shape: exactly N buffers, each of capacity S, zero-filled.
#[test]
fn pool_allocates_count_buffers_of_size() {
    let pool = BufferPool::new(4, 10);
    assert_eq!(pool.count(), 4);
    assert_eq!(pool.capacity(), 10);
    for i in 0..4 {
        assert_eq!(pool.slot_len(i), 10);
    }
}

// A fill never writes past the buffer capacity.
#[test]
fn pool_fill_never_exceeds_capacity() {
    let mut pool = BufferPool::new(2, 8);
    let mut src = MemSource::new(b"0123456789abcdef".to_vec());
    let n = pool.fill_slot(0, &mut src).unwrap();
    assert_eq!(n, 8);
    assert_eq!(pool.slot_len(0), 8);
    let n = pool.fill_slot(1, &mut src).unwrap();
    assert_eq!(n, 8);
    let n = pool.fill_slot(0, &mut src).unwrap();
    assert_eq!(n, 0);
    assert_eq!(pool.slot_len(0), 0);
}

#[test]
fn fill_buffer_takes_exact_prefix() {
    let mut src = MemSource::new(b"abcdefgh".to_vec());
    let mut buf: Vec<u8> = Vec::new();
    assert_eq!(fill_buffer(&mut buf, 5, &mut src), Ok(5));
    assert_eq!(buf, b"abcde".to_vec());
    assert_eq!(fill_buffer(&mut buf, 5, &mut src), Ok(3));
    assert_eq!(buf, b"fgh".to_vec());
    assert_eq!(fill_buffer(&mut buf, 5, &mut src), Ok(0));
    assert!(buf.is_empty());
}

#[test]
fn mem_source_reads_in_chunks() {
    let mut src = MemSource::new(b"abcdef".to_vec());
    match src.read_chunk(4) {
        ReadOutcome::Data(chunk) => assert_eq!(chunk, b"abcd".to_vec()),
        _ => panic!("in-memory source never faults"),
    }
    match src.read_chunk(4) {
        ReadOutcome::Data(chunk) => assert_eq!(chunk, b"ef".to_vec()),
        _ => panic!("in-memory source never faults"),
    }
    match src.read_chunk(4) {
        ReadOutcome::Data(chunk) => assert!(chunk.is_empty()),
        _ => panic!("in-memory source never faults"),
    }
}

#[test]
fn parse_window_empty_older_buffer_yields_nothing() {
    let first: Vec<u8> = Vec::new();
    let second = b"anything at all".to_vec();
    let recs = parse_window(&first, &second).unwrap();
    assert!(recs.is_empty());
}

fn field_tuple(r: &CarInfo) -> (String, String) {
    (
        r.id.clone().unwrap_or_default(),
        r.vin.clone().unwrap_or_default(),
    )
}

// End to end: three complete records over two buffers plus the sentinel
// tail; exactly the records with a 17-character identification come out,
// with every other field populated, none duplicated, none missing.
#[test]
fn three_records_over_two_buffers() {
    let vin_ok_1 = "WAUZZZ8V5KA000001";
    let vin_bad = "TOOSHORT12345678"; // 16 characters
    let vin_ok_3 = "WAUZZZ8V5KA000003";
    assert_eq!(vin_ok_1.len(), 17);
    assert_eq!(vin_bad.len(), 16);
    assert_eq!(vin_ok_3.len(), 17);

    let r1 = rec_xml("id1", vin_ok_1);
    let r2 = rec_xml("id2", vin_bad);
    let r3 = rec_xml("id3", vin_ok_3);
    let input = format!("{}{}{}", r1, r2, r3);

    // split the stream inside the second record: two chunks, then the
    // sentinel pairing for the tail
    let buffer_size = input.len() / 2 + 20;
    assert!(buffer_size > r1.len());
    assert!(buffer_size < r1.len() + r2.len());
    assert!(2 * buffer_size > input.len());
    let _ = &r3;

    let mut src = MemSource::new(input.clone().into_bytes());
    let recs = run_pipeline(&mut src, 2, buffer_size).unwrap();

    assert_eq!(recs.len(), 2);
    assert_eq!(field_tuple(&recs[0]), (String::from("id1"), String::from(vin_ok_1)));
    assert_eq!(field_tuple(&recs[1]), (String::from("id3"), String::from(vin_ok_3)));

    // every other field of an accepted record is populated from its source
    let r = &recs[0];
    assert_eq!(r.typ.as_deref(), Some("1"));
    assert_eq!(r.typ_name.as_deref(), Some("Personbil"));
    assert_eq!(r.license_plate.as_deref(), Some("AB12345"));
    assert_eq!(r.first_registration.as_deref(), Some("2010-01-02"));
    assert_eq!(r.brand.as_deref(), Some("Brandy"));
    assert_eq!(r.model.as_deref(), Some("Modello"));
    assert_eq!(r.variant.as_deref(), Some("Variante"));
    assert_eq!(r.model_year.as_deref(), Some("2011"));
    assert_eq!(r.registration_ended.as_deref(), Some("2020-01-02"));
    assert_eq!(r.status.as_deref(), Some("Registreret"));
    assert_eq!(r.status_date.as_deref(), Some("2010-01-03"));
}

// Re-running on the unchanged input and configuration yields the same
// records.
#[test]
fn rerun_yields_same_records() {
    let input = format!(
        "{}{}",
        rec_xml("ida", "WAUZZZ8V5KA000011"),
        rec_xml("idb", "WAUZZZ8V5KA000012"),
    );
    // the two records have the same length: the chunk boundary falls
    // exactly between them
    let buffer_size = input.len() / 2;

    let mut src1 = MemSource::new(input.clone().into_bytes());
    let out1 = run_pipeline(&mut src1, 3, buffer_size).unwrap();
    let mut src2 = MemSource::new(input.into_bytes());
    let out2 = run_pipeline(&mut src2, 3, buffer_size).unwrap();

    let v1: Vec<(String, String)> = out1.iter().map(field_tuple).collect();
    let v2: Vec<(String, String)> = out2.iter().map(field_tuple).collect();
    assert_eq!(v1, v2);
}

#[test]
fn stream_without_marker_fails_with_marker_not_found() {
    let mut src = MemSource::new(b"this stream holds no record element".to_vec());
    let r = run_pipeline(&mut src, 2, 1000);
    assert_eq!(r.err(), Some(PipelineError::MarkerNotFound));
}

struct FailingSource;

impl ByteSource for FailingSource {
    fn read_chunk(&mut self, _max: usize) -> ReadOutcome {
        ReadOutcome::Fatal(String::from("stream fault"))
    }
}

// A source fault is fatal, and its reason is carried through unmapped.
#[test]
fn source_fault_fails_with_decompression_error() {
    let mut src = FailingSource;
    let r = run_pipeline(&mut src, 2, 100);
    assert_eq!(r.err(), Some(PipelineError::Decompression(String::from("stream fault"))));
}
