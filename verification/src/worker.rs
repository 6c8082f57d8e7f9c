//! One worker's job: parse a window's fragment into accepted records. Also
//! the byte source a fill draws from, and the fill itself.

use vstd::prelude::*;

use crate::reader::{fragment_spec, markers_ok, window_fragment, WindowError};
use crate::record::{init_car, records_of, run_car, run_emits, CarInfo, CarInfoV};
use crate::xml::{event_stream_new, event_stream_next, xml_events_of, XmlEvent};

verus! {

/// The ghost records of a sequence of owned records.
pub open spec fn cars_view(v: Seq<CarInfo>) -> Seq<CarInfoV> {
    v.map_values(|c: CarInfo| c@)
}

/// A window over an empty older buffer exposes no record start, so it
/// yields nothing; otherwise it yields whatever the tag events of its
/// fragment produce.
pub open spec fn window_records(first: Seq<u8>, second: Seq<u8>) -> Seq<CarInfoV> {
    if first.len() == 0 {
        Seq::empty()
    } else {
        records_of(xml_events_of(fragment_spec(first, second)))
    }
}

/// A window can be parsed: its older buffer is empty (nothing to yield) or
/// both buffers can be anchored on the record-start marker.
pub open spec fn window_ok(first: Seq<u8>, second: Seq<u8>) -> bool {
    first.len() == 0 || markers_ok(first, second)
}

/// Parse one window: stitch the two buffers into the boundary-safe
/// fragment, run the tag parser over it, and keep exactly the records the
/// filter accepts, in the order they are finalized. Fails exactly when a
/// buffer that should hold the record-start marker does not.
pub fn parse_window(first: &[u8], second: &[u8]) -> (r: Result<Vec<CarInfo>, WindowError>)
    requires
        first@.len() + second@.len() <= usize::MAX,
    ensures
        r matches Ok(v) ==> window_ok(first@, second@) && cars_view(v@) == window_records(
            first@,
            second@,
        ),
        r is Err ==> !window_ok(first@, second@),
        window_ok(first@, second@) ==> r is Ok,
{
    let mut out: Vec<CarInfo> = Vec::new();
    if first.len() == 0 {
        proof {
            assert(cars_view(out@) =~= window_records(first@, second@));
        }
        return Ok(out);
    }
    let frag = match window_fragment(first, second) {
        Ok(f) => f,
        Err(e) => {
            return Err(e);
        },
    };
    let mut stream = event_stream_new(frag.as_slice());
    let mut car = CarInfo::new();
    let ghost evs = xml_events_of(frag@);
    loop
        invariant
            first@.len() > 0,
            markers_ok(first@, second@),
            frag@ == fragment_spec(first@, second@),
            evs == xml_events_of(frag@),
            stream.doc() == frag@,
            0 <= stream.pos() <= evs.len(),
            car@ == run_car(init_car(), evs.take(stream.pos())),
            cars_view(out@) == run_emits(init_car(), evs.take(stream.pos())),
        decreases evs.len() - stream.pos(),
    {
        let ghost p = stream.pos();
        let ev = event_stream_next(&mut stream);
        match &ev {
            XmlEvent::Eof => {
                proof {
                    assert(p == evs.len());
                    assert(evs.take(p) =~= evs);
                }
                return Ok(out);
            },
            _ => {},
        }
        proof {
            crate::record::lemma_run_snoc(init_car(), evs.take(p), evs[p]);
            assert(evs.take(p) + seq![evs[p]] =~= evs.take(p + 1));
        }
        let emit = car.handle_event(&ev);
        match emit {
            Some(rec) => {
                out.push(rec);
                proof {
                    assert(cars_view(out@) =~= run_emits(init_car(), evs.take(p + 1)));
                }
            },
            None => {
                proof {
                    assert(cars_view(out@) =~= run_emits(init_car(), evs.take(p + 1)));
                }
            },
        }
    }
}

/// What one pull from a byte source yields: some bytes (empty exactly at
/// end of stream) or a fatal fault carrying its reason.
pub enum ReadOutcome {
    Data(Vec<u8>),
    Fatal(String),
}

/// A pull-based source of plaintext bytes, such as a streaming
/// decompressor. A source has a definite remaining byte stream; a pull
/// hands out a prefix of it and reports end of stream by an empty chunk,
/// exactly when nothing remains. Transient interruption-class errors are
/// the source's own to retry: a pull returns only bytes or a fatal fault.
pub trait ByteSource {
    /// The bytes not yet delivered. The default, an empty stream, is only
    /// for impls outside the verified world, which no contract here can
    /// speak about anyway; a verified source gives its own.
    open spec fn stream(&self) -> Seq<u8> {
        Seq::empty()
    }

    /// Pull up to `max` bytes off the front of the stream.
    fn read_chunk(&mut self, max: usize) -> (r: ReadOutcome)
        requires
            max >= 1,
        ensures
            match r {
                ReadOutcome::Data(chunk) => {
                    &&& chunk@.len() <= max
                    &&& chunk@.len() <= old(self).stream().len()
                    &&& chunk@ == old(self).stream().take(chunk@.len() as int)
                    &&& final(self).stream() == old(self).stream().skip(chunk@.len() as int)
                    &&& (chunk@.len() == 0 ==> old(self).stream().len() == 0)
                },
                ReadOutcome::Fatal(_) => true,
            },
    ;
}

/// An in-memory byte source: the whole stream is a vector.
pub struct MemSource {
    data: Vec<u8>,
    pos: usize,
}

impl MemSource {
    #[verifier::type_invariant]
    spec fn type_wf(self) -> bool {
        self.pos <= self.data@.len()
    }

    /// A source that will deliver exactly these bytes.
    pub fn new(data: Vec<u8>) -> (r: Self)
        ensures
            r.stream() == data@,
    {
        let r = MemSource { data, pos: 0 };
        proof {
            assert(r.stream() =~= r.data@);
        }
        r
    }
}

impl ByteSource for MemSource {
    closed spec fn stream(&self) -> Seq<u8> {
        self.data@.skip(self.pos as int)
    }

    fn read_chunk(&mut self, max: usize) -> (r: ReadOutcome)
        ensures
            r is Data,
    {
        proof {
            use_type_invariant(&*self);
        }
        let remaining = self.data.len() - self.pos;
        let n = if max < remaining {
            max
        } else {
            remaining
        };
        let ghost p = self.pos as int;
        let chunk = vstd::slice::slice_to_vec(
            vstd::slice::slice_subrange(self.data.as_slice(), self.pos, self.pos + n),
        );
        self.pos = self.pos + n;
        proof {
            assert(chunk@ =~= self.data@.skip(p).take(n as int));
            assert(self.data@.skip(p + n) =~= self.data@.skip(p).skip(n as int));
        }
        ReadOutcome::Data(chunk)
    }
}

/// A fatal fault of the underlying compressed stream, carrying the
/// source's reason for it, or a window that could not be anchored on the
/// record-start marker.
#[derive(Clone, PartialEq, Eq, Debug)]
pub enum PipelineError {
    Decompression(String),
    MarkerNotFound,
}

/// Fill one buffer from the source: clear it, then pull until it holds
/// `size` bytes or the stream ends. The buffer ends up holding exactly the
/// next `min(size, stream)` bytes; on a fatal fault it keeps the stream
/// prefix pulled before the fault.
pub fn fill_buffer<T: ByteSource>(buf: &mut Vec<u8>, size: usize, src: &mut T) -> (r: Result<
    usize,
    PipelineError,
>)
    requires
        size >= 1,
    ensures
        match r {
            Ok(n) => {
                &&& n == final(buf)@.len()
                &&& n as int == vstd::math::min(size as int, old(src).stream().len() as int)
                &&& final(buf)@ == old(src).stream().take(n as int)
                &&& final(src).stream() == old(src).stream().skip(n as int)
            },
            Err(e) => {
                &&& e is Decompression
                &&& final(buf)@.len() <= size
                &&& final(buf)@ == old(src).stream().take(final(buf)@.len() as int)
            },
        },
{
    buf.clear();
    let ghost s0 = src.stream();
    loop
        invariant
            s0 == old(src).stream(),
            size >= 1,
            buf@.len() <= size,
            buf@.len() <= s0.len(),
            buf@ == s0.take(buf@.len() as int),
            src.stream() == s0.skip(buf@.len() as int),
        decreases size - buf@.len(),
    {
        if buf.len() == size {
            return Ok(buf.len());
        }
        let want = size - buf.len();
        match src.read_chunk(want) {
            ReadOutcome::Data(mut chunk) => {
                if chunk.len() == 0 {
                    proof {
                        assert(s0.skip(buf@.len() as int).len() == 0);
                    }
                    return Ok(buf.len());
                }
                let ghost bl = buf@.len() as int;
                let ghost cl = chunk@.len() as int;
                buf.append(&mut chunk);
                proof {
                    assert(buf@ =~= s0.take(bl + cl));
                    assert(s0.skip(bl).skip(cl) =~= s0.skip(bl + cl));
                }
            },
            ReadOutcome::Fatal(reason) => {
                return Err(PipelineError::Decompression(reason));
            },
        }
    }
}

} // verus!
