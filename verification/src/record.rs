//! One extractable record, the finite tag-focus state machine that fills it
//! from tag events, and the filter that decides emission.

use vstd::prelude::*;
use vstd::string::StrSliceExecFns;
use vstd::string::StringSliceAdditionalSpecFns;

use crate::xml::{unescaped_of, EventV, XmlEvent};
use crate::xml::unescape_text;

verus! {

/// Which field the parser is currently focused on, if any.
#[derive(Clone, Copy, PartialEq, Eq, Structural, Debug)]
pub enum CurrentTag {
    Idle,
    Id,
    Type,
    TypeName,
    LicensePlate,
    Vin,
    FirstRegistration,
    Brand,
    Model,
    Variant,
    ModelYear,
    RegistrationEnded,
    Status,
    StatusDate,
}

/// One vehicle record under construction or finished: every extractable
/// field as decoded text, plus the parser's current focus.
pub struct CarInfo {
    pub id: Option<String>,
    pub typ: Option<String>,
    pub typ_name: Option<String>,
    pub license_plate: Option<String>,
    pub vin: Option<String>,
    pub first_registration: Option<String>,
    pub brand: Option<String>,
    pub model: Option<String>,
    pub variant: Option<String>,
    pub model_year: Option<String>,
    pub registration_ended: Option<String>,
    pub status: Option<String>,
    pub status_date: Option<String>,
    pub current_tag: CurrentTag,
}

/// The ghost counterpart of a record.
pub struct CarInfoV {
    pub id: Option<Seq<char>>,
    pub typ: Option<Seq<char>>,
    pub typ_name: Option<Seq<char>>,
    pub license_plate: Option<Seq<char>>,
    pub vin: Option<Seq<char>>,
    pub first_registration: Option<Seq<char>>,
    pub brand: Option<Seq<char>>,
    pub model: Option<Seq<char>>,
    pub variant: Option<Seq<char>>,
    pub model_year: Option<Seq<char>>,
    pub registration_ended: Option<Seq<char>>,
    pub status: Option<Seq<char>>,
    pub status_date: Option<Seq<char>>,
    pub current_tag: CurrentTag,
}

/// The text a field holds, as a sequence of characters.
pub open spec fn opt_view(o: Option<String>) -> Option<Seq<char>> {
    match o {
        Some(s) => Some(s@),
        None => None,
    }
}

impl View for CarInfo {
    type V = CarInfoV;

    open spec fn view(&self) -> CarInfoV {
        CarInfoV {
            id: opt_view(self.id),
            typ: opt_view(self.typ),
            typ_name: opt_view(self.typ_name),
            license_plate: opt_view(self.license_plate),
            vin: opt_view(self.vin),
            first_registration: opt_view(self.first_registration),
            brand: opt_view(self.brand),
            model: opt_view(self.model),
            variant: opt_view(self.variant),
            model_year: opt_view(self.model_year),
            registration_ended: opt_view(self.registration_ended),
            status: opt_view(self.status),
            status_date: opt_view(self.status_date),
            current_tag: self.current_tag,
        }
    }
}

/// The qualified name of the record element itself.
pub open spec fn record_tag() -> Seq<u8> {
    "ns:Statistik".spec_bytes()
}

/// A record with no field set and no focus.
pub open spec fn init_car() -> CarInfoV {
    CarInfoV {
        id: None,
        typ: None,
        typ_name: None,
        license_plate: None,
        vin: None,
        first_registration: None,
        brand: None,
        model: None,
        variant: None,
        model_year: None,
        registration_ended: None,
        status: None,
        status_date: None,
        current_tag: CurrentTag::Idle,
    }
}

/// The field that a recognized start tag focuses, if any.
pub open spec fn tag_lookup(name: Seq<u8>) -> Option<CurrentTag> {
    if name == "ns:KoeretoejIdent".spec_bytes() {
        Some(CurrentTag::Id)
    } else if name == "ns:KoeretoejArtNummer".spec_bytes() {
        Some(CurrentTag::Type)
    } else if name == "ns:KoeretoejArtNavn".spec_bytes() {
        Some(CurrentTag::TypeName)
    } else if name == "ns:RegistreringNummerNummer".spec_bytes() {
        Some(CurrentTag::LicensePlate)
    } else if name == "ns:KoeretoejOplysningStelNummer".spec_bytes() {
        Some(CurrentTag::Vin)
    } else if name == "ns:KoeretoejOplysningFoersteRegistreringDato".spec_bytes() {
        Some(CurrentTag::FirstRegistration)
    } else if name == "ns:KoeretoejMaerkeTypeNavn".spec_bytes() {
        Some(CurrentTag::Brand)
    } else if name == "ns:KoeretoejModelTypeNavn".spec_bytes() {
        Some(CurrentTag::Model)
    } else if name == "ns:KoeretoejVariantTypeNavn".spec_bytes() {
        Some(CurrentTag::Variant)
    } else if name == "ns:KoeretoejOplysningModelAar".spec_bytes() {
        Some(CurrentTag::ModelYear)
    } else if name == "ns:RegistreringNummerUdloebDato".spec_bytes() {
        Some(CurrentTag::RegistrationEnded)
    } else if name == "ns:KoeretoejRegistreringStatus".spec_bytes() {
        Some(CurrentTag::Status)
    } else if name == "ns:KoeretoejRegistreringStatusDato".spec_bytes() {
        Some(CurrentTag::StatusDate)
    } else {
        None
    }
}

/// Assign decoded text to whichever field is in focus; no focus, no change.
pub open spec fn set_field(car: CarInfoV, text: Option<Seq<char>>) -> CarInfoV {
    match car.current_tag {
        CurrentTag::Idle => car,
        CurrentTag::Id => CarInfoV { id: text, ..car },
        CurrentTag::Type => CarInfoV { typ: text, ..car },
        CurrentTag::TypeName => CarInfoV { typ_name: text, ..car },
        CurrentTag::LicensePlate => CarInfoV { license_plate: text, ..car },
        CurrentTag::Vin => CarInfoV { vin: text, ..car },
        CurrentTag::FirstRegistration => CarInfoV { first_registration: text, ..car },
        CurrentTag::Brand => CarInfoV { brand: text, ..car },
        CurrentTag::Model => CarInfoV { model: text, ..car },
        CurrentTag::Variant => CarInfoV { variant: text, ..car },
        CurrentTag::ModelYear => CarInfoV { model_year: text, ..car },
        CurrentTag::RegistrationEnded => CarInfoV { registration_ended: text, ..car },
        CurrentTag::Status => CarInfoV { status: text, ..car },
        CurrentTag::StatusDate => CarInfoV { status_date: text, ..car },
    }
}

/// The record filter: a record is accepted exactly when its vehicle
/// identification field is present and exactly 17 characters long.
pub open spec fn accepts_v(car: CarInfoV) -> bool {
    match car.vin {
        Some(v) => v.len() == 17,
        None => false,
    }
}

/// How one event advances the record under construction.
pub open spec fn step_car(car: CarInfoV, ev: EventV) -> CarInfoV {
    match ev {
        EventV::Start(name) => {
            if name == record_tag() {
                init_car()
            } else {
                match tag_lookup(name) {
                    Some(t) => CarInfoV { current_tag: t, ..car },
                    None => car,
                }
            }
        },
        EventV::End(name) => {
            if name == record_tag() {
                car
            } else {
                CarInfoV { current_tag: CurrentTag::Idle, ..car }
            }
        },
        EventV::Text(raw) => set_field(car, unescaped_of(raw)),
        _ => car,
    }
}

/// The record one event emits, if any: the record's own end tag finalizes
/// it, and it is emitted exactly when the filter accepts it.
pub open spec fn step_emit(car: CarInfoV, ev: EventV) -> Option<CarInfoV> {
    match ev {
        EventV::End(name) => {
            if name == record_tag() && accepts_v(car) {
                Some(car)
            } else {
                None
            }
        },
        _ => None,
    }
}

/// The record state after a sequence of events.
pub open spec fn run_car(car: CarInfoV, evs: Seq<EventV>) -> CarInfoV
    decreases evs.len(),
{
    if evs.len() == 0 {
        car
    } else {
        run_car(step_car(car, evs[0]), evs.skip(1))
    }
}

/// Every record emitted over a sequence of events, in order.
pub open spec fn run_emits(car: CarInfoV, evs: Seq<EventV>) -> Seq<CarInfoV>
    decreases evs.len(),
{
    if evs.len() == 0 {
        Seq::empty()
    } else {
        match step_emit(car, evs[0]) {
            Some(r) => seq![r] + run_emits(step_car(car, evs[0]), evs.skip(1)),
            None => run_emits(step_car(car, evs[0]), evs.skip(1)),
        }
    }
}

/// The records a whole event sequence yields, starting from a fresh record.
pub open spec fn records_of(evs: Seq<EventV>) -> Seq<CarInfoV> {
    run_emits(init_car(), evs)
}

/// Appending one event to a run steps the state once and emits at most one
/// more record at the very end.
pub(crate) proof fn lemma_run_snoc(car: CarInfoV, evs: Seq<EventV>, ev: EventV)
    ensures
        run_car(car, evs + seq![ev]) == step_car(run_car(car, evs), ev),
        run_emits(car, evs + seq![ev]) == run_emits(car, evs) + match step_emit(
            run_car(car, evs),
            ev,
        ) {
            Some(r) => seq![r],
            None => Seq::<CarInfoV>::empty(),
        },
    decreases evs.len(),
{
    reveal_with_fuel(run_car, 3);
    reveal_with_fuel(run_emits, 3);
    let whole = evs + seq![ev];
    if evs.len() == 0 {
        assert(whole =~= seq![ev]);
        assert(whole.skip(1) =~= Seq::<EventV>::empty());
        assert(run_emits(car, whole) =~= run_emits(car, evs) + match step_emit(
            run_car(car, evs),
            ev,
        ) {
            Some(r) => seq![r],
            None => Seq::<CarInfoV>::empty(),
        });
    } else {
        assert(whole[0] == evs[0]);
        assert(whole.skip(1) =~= evs.skip(1) + seq![ev]);
        lemma_run_snoc(step_car(car, evs[0]), evs.skip(1), ev);
        let tail_emit = match step_emit(run_car(car, evs), ev) {
            Some(r) => seq![r],
            None => Seq::<CarInfoV>::empty(),
        };
        assert(run_car(car, evs) == run_car(step_car(car, evs[0]), evs.skip(1)));
        match step_emit(car, evs[0]) {
            Some(r) => {
                assert(run_emits(car, whole) == seq![r] + run_emits(
                    step_car(car, evs[0]),
                    whole.skip(1),
                ));
                assert(run_emits(car, whole) =~= run_emits(car, evs) + tail_emit);
            },
            None => {
                assert(run_emits(car, whole) =~= run_emits(car, evs) + tail_emit);
            },
        }
    }
}

/// Byte-for-byte equality of two slices.
fn bytes_eq(a: &[u8], b: &[u8]) -> (r: bool)
    ensures
        r == (a@ == b@),
{
    if a.len() != b.len() {
        proof {
            if a@ == b@ {
                assert(a@.len() == b@.len());
            }
        }
        return false;
    }
    let mut i: usize = 0;
    while i < a.len()
        invariant
            a@.len() == b@.len(),
            0 <= i <= a@.len(),
            forall|k: int| 0 <= k < i ==> a@[k] == b@[k],
        decreases a@.len() - i,
    {
        if *vstd::slice::slice_index_get(a, i) != *vstd::slice::slice_index_get(b, i) {
            proof {
                if a@ == b@ {
                    assert(a@[i as int] == b@[i as int]);
                }
            }
            return false;
        }
        i += 1;
    }
    proof {
        assert(a@ =~= b@);
    }
    true
}

/// The field that a recognized start tag focuses, if any.
fn tag_lookup_exec(name: &[u8]) -> (r: Option<CurrentTag>)
    ensures
        r == tag_lookup(name@),
{
    if bytes_eq(name, "ns:KoeretoejIdent".as_bytes()) {
        Some(CurrentTag::Id)
    } else if bytes_eq(name, "ns:KoeretoejArtNummer".as_bytes()) {
        Some(CurrentTag::Type)
    } else if bytes_eq(name, "ns:KoeretoejArtNavn".as_bytes()) {
        Some(CurrentTag::TypeName)
    } else if bytes_eq(name, "ns:RegistreringNummerNummer".as_bytes()) {
        Some(CurrentTag::LicensePlate)
    } else if bytes_eq(name, "ns:KoeretoejOplysningStelNummer".as_bytes()) {
        Some(CurrentTag::Vin)
    } else if bytes_eq(name, "ns:KoeretoejOplysningFoersteRegistreringDato".as_bytes()) {
        Some(CurrentTag::FirstRegistration)
    } else if bytes_eq(name, "ns:KoeretoejMaerkeTypeNavn".as_bytes()) {
        Some(CurrentTag::Brand)
    } else if bytes_eq(name, "ns:KoeretoejModelTypeNavn".as_bytes()) {
        Some(CurrentTag::Model)
    } else if bytes_eq(name, "ns:KoeretoejVariantTypeNavn".as_bytes()) {
        Some(CurrentTag::Variant)
    } else if bytes_eq(name, "ns:KoeretoejOplysningModelAar".as_bytes()) {
        Some(CurrentTag::ModelYear)
    } else if bytes_eq(name, "ns:RegistreringNummerUdloebDato".as_bytes()) {
        Some(CurrentTag::RegistrationEnded)
    } else if bytes_eq(name, "ns:KoeretoejRegistreringStatus".as_bytes()) {
        Some(CurrentTag::Status)
    } else if bytes_eq(name, "ns:KoeretoejRegistreringStatusDato".as_bytes()) {
        Some(CurrentTag::StatusDate)
    } else {
        None
    }
}

/// Clone one field's text.
fn clone_opt(o: &Option<String>) -> (r: Option<String>)
    ensures
        opt_view(r) == opt_view(*o),
{
    match o {
        Some(s) => Some(s.clone()),
        None => None,
    }
}

impl CarInfo {
    /// A fresh record: no field set, no focus.
    pub fn new() -> (r: Self)
        ensures
            r@ == init_car(),
    {
        CarInfo {
            id: None,
            typ: None,
            typ_name: None,
            license_plate: None,
            vin: None,
            first_registration: None,
            brand: None,
            model: None,
            variant: None,
            model_year: None,
            registration_ended: None,
            status: None,
            status_date: None,
            current_tag: CurrentTag::Idle,
        }
    }

    /// Assign decoded text to whichever field is in focus.
    pub fn handle_text(&mut self, text: Option<String>)
        ensures
            final(self)@ == set_field(old(self)@, opt_view(text)),
    {
        match self.current_tag {
            CurrentTag::Idle => {},
            CurrentTag::Id => self.id = text,
            CurrentTag::Type => self.typ = text,
            CurrentTag::TypeName => self.typ_name = text,
            CurrentTag::LicensePlate => self.license_plate = text,
            CurrentTag::Vin => self.vin = text,
            CurrentTag::FirstRegistration => self.first_registration = text,
            CurrentTag::Brand => self.brand = text,
            CurrentTag::Model => self.model = text,
            CurrentTag::Variant => self.variant = text,
            CurrentTag::ModelYear => self.model_year = text,
            CurrentTag::RegistrationEnded => self.registration_ended = text,
            CurrentTag::Status => self.status = text,
            CurrentTag::StatusDate => self.status_date = text,
        }
    }

    /// The record filter: accepted exactly when the vehicle identification
    /// field is present and exactly 17 characters long.
    pub fn accepts(&self) -> (r: bool)
        ensures
            r == accepts_v(self@),
    {
        match &self.vin {
            Some(v) => v.as_str().unicode_len() == 17,
            None => false,
        }
    }

    /// An owned copy of this record.
    pub fn snapshot(&self) -> (r: CarInfo)
        ensures
            r@ == self@,
    {
        CarInfo {
            id: clone_opt(&self.id),
            typ: clone_opt(&self.typ),
            typ_name: clone_opt(&self.typ_name),
            license_plate: clone_opt(&self.license_plate),
            vin: clone_opt(&self.vin),
            first_registration: clone_opt(&self.first_registration),
            brand: clone_opt(&self.brand),
            model: clone_opt(&self.model),
            variant: clone_opt(&self.variant),
            model_year: clone_opt(&self.model_year),
            registration_ended: clone_opt(&self.registration_ended),
            status: clone_opt(&self.status),
            status_date: clone_opt(&self.status_date),
            current_tag: self.current_tag,
        }
    }

    /// Advance this record by one event; the emitted record, if the event
    /// finalizes one that the filter accepts.
    pub fn handle_event(&mut self, ev: &XmlEvent) -> (emit: Option<CarInfo>)
        ensures
            final(self)@ == step_car(old(self)@, ev@),
            match emit {
                Some(r) => step_emit(old(self)@, ev@) == Some(r@),
                None => step_emit(old(self)@, ev@) is None,
            },
    {
        match ev {
            XmlEvent::Start(name) => {
                if bytes_eq(name.as_slice(), "ns:Statistik".as_bytes()) {
                    *self = CarInfo::new();
                } else {
                    match tag_lookup_exec(name.as_slice()) {
                        Some(t) => self.current_tag = t,
                        None => {},
                    }
                }
                None
            },
            XmlEvent::End(name) => {
                if bytes_eq(name.as_slice(), "ns:Statistik".as_bytes()) {
                    if self.accepts() {
                        Some(self.snapshot())
                    } else {
                        None
                    }
                } else {
                    self.current_tag = CurrentTag::Idle;
                    None
                }
            },
            XmlEvent::Text(raw) => {
                let text = unescape_text(raw.as_slice());
                self.handle_text(text);
                None
            },
            _ => None,
        }
    }
}

} // verus!
