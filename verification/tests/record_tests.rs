use dmrparse::record::{CarInfo, CurrentTag};
use dmrparse::xml::XmlEvent;

fn start(name: &str) -> XmlEvent {
    XmlEvent::Start(name.as_bytes().to_vec())
}

fn end(name: &str) -> XmlEvent {
    XmlEvent::End(name.as_bytes().to_vec())
}

fn text(raw: &str) -> XmlEvent {
    XmlEvent::Text(raw.as_bytes().to_vec())
}

// The filter accepts a record exactly when the vehicle identification
// field is present with exactly 17 characters.
#[test]
fn filter_accepts_only_seventeen_characters() {
    let mut car = CarInfo::new();
    assert!(!car.accepts());

    car.vin = Some("A".repeat(16));
    assert!(!car.accepts());

    car.vin = Some("A".repeat(17));
    assert!(car.accepts());

    car.vin = Some("A".repeat(18));
    assert!(!car.accepts());
}

#[test]
fn fresh_record_has_no_fields_and_no_focus() {
    let car = CarInfo::new();
    assert_eq!(car.id, None);
    assert_eq!(car.vin, None);
    assert_eq!(car.status_date, None);
    assert_eq!(car.current_tag, CurrentTag::Idle);
}

#[test]
fn handle_text_fills_focused_field_only() {
    let mut car = CarInfo::new();
    car.current_tag = CurrentTag::Brand;
    car.handle_text(Some(String::from("Makers")));
    assert_eq!(car.brand.as_deref(), Some("Makers"));
    assert_eq!(car.model, None);

    car.current_tag = CurrentTag::Idle;
    car.handle_text(Some(String::from("ignored")));
    assert_eq!(car.brand.as_deref(), Some("Makers"));
    assert_eq!(car.id, None);
}

#[test]
fn events_build_and_emit_accepted_record() {
    let mut car = CarInfo::new();
    assert!(car.handle_event(&start("ns:Statistik")).is_none());
    assert!(car.handle_event(&start("ns:KoeretoejIdent")).is_none());
    assert!(car.handle_event(&text("id0001")).is_none());
    assert!(car.handle_event(&end("ns:KoeretoejIdent")).is_none());
    assert!(car.handle_event(&start("ns:KoeretoejOplysningStelNummer")).is_none());
    assert!(car.handle_event(&text("ABCDEFGHIJKLMNOPQ")).is_none());
    assert!(car.handle_event(&end("ns:KoeretoejOplysningStelNummer")).is_none());
    let emitted = car.handle_event(&end("ns:Statistik"));
    let rec = emitted.expect("record with a 17-character identification must be emitted");
    assert_eq!(rec.id.as_deref(), Some("id0001"));
    assert_eq!(rec.vin.as_deref(), Some("ABCDEFGHIJKLMNOPQ"));
    assert_eq!(rec.brand, None);
}

#[test]
fn events_drop_rejected_record() {
    let mut car = CarInfo::new();
    car.handle_event(&start("ns:Statistik"));
    car.handle_event(&start("ns:KoeretoejOplysningStelNummer"));
    car.handle_event(&text("TOOSHORT"));
    car.handle_event(&end("ns:KoeretoejOplysningStelNummer"));
    assert!(car.handle_event(&end("ns:Statistik")).is_none());
}

// Entity escapes in text are decoded, not copied through verbatim.
#[test]
fn text_entities_are_unescaped() {
    let mut car = CarInfo::new();
    car.handle_event(&start("ns:Statistik"));
    car.handle_event(&start("ns:KoeretoejMaerkeTypeNavn"));
    car.handle_event(&text("A&amp;B &lt;fast&gt;"));
    assert_eq!(car.brand.as_deref(), Some("A&B <fast>"));
}

#[test]
fn record_start_discards_partial_record() {
    let mut car = CarInfo::new();
    car.handle_event(&start("ns:Statistik"));
    car.handle_event(&start("ns:KoeretoejIdent"));
    car.handle_event(&text("left over"));
    car.handle_event(&start("ns:Statistik"));
    assert_eq!(car.id, None);
    assert_eq!(car.current_tag, CurrentTag::Idle);
}

#[test]
fn unknown_tags_are_ignored() {
    let mut car = CarInfo::new();
    car.handle_event(&start("ns:Statistik"));
    car.handle_event(&start("ns:SomethingElse"));
    assert_eq!(car.current_tag, CurrentTag::Idle);
    car.handle_event(&text("stray text"));
    assert_eq!(car.id, None);
}
