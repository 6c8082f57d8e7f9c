//! The buffer pool and the orchestrator: fill a fixed ring of buffers in
//! sequence from the byte source, pair each freshly filled buffer with the
//! one filled just before it, and collect every window's accepted records.

use vstd::prelude::*;

use crate::record::CarInfoV;
use crate::worker::{
    cars_view, fill_buffer, parse_window, window_ok, window_records, ByteSource, PipelineError,
};

verus! {

/// The byte stream cut into successive chunks of `s` bytes; only the last
/// chunk is shorter, and an empty stream is one empty chunk.
pub open spec fn chunks_of(input: Seq<u8>, s: int) -> Seq<Seq<u8>>
    decreases input.len()
        when s >= 1
{
    if input.len() <= s {
        seq![input]
    } else {
        seq![input.take(s)] + chunks_of(input.skip(s), s)
    }
}

/// The pair of adjacent chunks that forms window `i`: chunk `i` as the
/// older buffer, and the chunk after it, or the empty sentinel, as the
/// newer one.
pub open spec fn window_second(cs: Seq<Seq<u8>>, i: int) -> Seq<u8> {
    if i + 1 < cs.len() {
        cs[i + 1]
    } else {
        Seq::empty()
    }
}

/// The records window `i` yields.
pub open spec fn window_at(cs: Seq<Seq<u8>>, i: int) -> Seq<CarInfoV> {
    window_records(cs[i], window_second(cs, i))
}

/// One record sequence per window, in window order.
pub open spec fn windows_of(cs: Seq<Seq<u8>>) -> Seq<Seq<CarInfoV>> {
    Seq::new(cs.len(), |i: int| window_at(cs, i))
}

/// All the windows' records, in window order.
pub open spec fn concat_all(ws: Seq<Seq<CarInfoV>>) -> Seq<CarInfoV>
    decreases ws.len(),
{
    if ws.len() == 0 {
        Seq::empty()
    } else {
        ws[0] + concat_all(ws.skip(1))
    }
}

/// Every record the whole pipeline emits for this input and chunk size.
pub open spec fn pipeline_records(input: Seq<u8>, s: int) -> Seq<CarInfoV> {
    concat_all(windows_of(chunks_of(input, s)))
}

/// Every window of the chunked input can be anchored on the record-start
/// marker.
pub open spec fn pipeline_ok(input: Seq<u8>, s: int) -> bool {
    let cs = chunks_of(input, s);
    forall|i: int| 0 <= i < cs.len() ==> window_ok(cs[i], window_second(cs, i))
}

/// Appending one window's records to a concatenation extends it at the end.
proof fn lemma_concat_snoc(ws: Seq<Seq<CarInfoV>>, w: Seq<CarInfoV>)
    ensures
        concat_all(ws + seq![w]) == concat_all(ws) + w,
    decreases ws.len(),
{
    reveal_with_fuel(concat_all, 3);
    let whole = ws + seq![w];
    if ws.len() == 0 {
        assert(whole =~= seq![w]);
        assert(whole.skip(1) =~= Seq::<Seq<CarInfoV>>::empty());
        assert(concat_all(whole) =~= concat_all(ws) + w);
    } else {
        assert(whole[0] == ws[0]);
        assert(whole.skip(1) =~= ws.skip(1) + seq![w]);
        lemma_concat_snoc(ws.skip(1), w);
        assert(concat_all(whole) =~= concat_all(ws) + w);
    }
}

/// A fixed ring of reusable byte buffers: allocated once, each of the same
/// capacity, each refilled in place and never growing past that capacity.
pub struct BufferPool {
    slots: Vec<Vec<u8>>,
    size: usize,
}

impl BufferPool {
    /// The bytes each buffer currently holds.
    pub closed spec fn slots_view(self) -> Seq<Seq<u8>> {
        self.slots@.map_values(|b: Vec<u8>| b@)
    }

    /// The common buffer capacity.
    pub closed spec fn size(self) -> int {
        self.size as int
    }

    /// No buffer ever holds more than the common capacity.
    pub closed spec fn wf(self) -> bool {
        forall|i: int|
            0 <= i < self.slots@.len() ==> #[trigger] self.slots@[i]@.len() <= self.size
    }

    /// Allocate exactly `count` buffers, each of capacity `size`, all
    /// zero-filled to their full length.
    pub fn new(count: usize, size: usize) -> (r: Self)
        requires
            count >= 1,
            size >= 1,
        ensures
            r.wf(),
            r.size() == size,
            r.slots_view().len() == count,
            forall|i: int| 0 <= i < count ==> #[trigger] r.slots_view()[i].len() == size,
    {
        let mut slots: Vec<Vec<u8>> = Vec::new();
        let mut made: usize = 0;
        while made < count
            invariant
                made <= count,
                slots@.len() == made,
                forall|i: int| 0 <= i < made ==> #[trigger] slots@[i]@.len() == size,
            decreases count - made,
        {
            let b: Vec<u8> = vec![0u8; size];
            slots.push(b);
            made += 1;
        }
        let r = BufferPool { slots, size };
        proof {
            assert(forall|i: int|
                0 <= i < count ==> #[trigger] r.slots_view()[i].len() == size);
        }
        r
    }

    /// How many buffers the ring holds.
    pub fn count(&self) -> (r: usize)
        ensures
            r == self.slots_view().len(),
    {
        self.slots.len()
    }

    /// The common buffer capacity.
    pub fn capacity(&self) -> (r: usize)
        ensures
            r == self.size(),
    {
        self.size
    }

    /// How many bytes buffer `i` currently holds.
    pub fn slot_len(&self, i: usize) -> (r: usize)
        requires
            i < self.slots_view().len(),
        ensures
            r == self.slots_view()[i as int].len(),
    {
        self.slots[i].len()
    }

    /// Refill buffer `i` from the source; it ends up holding exactly the
    /// next `min(size, stream)` bytes — on a fatal fault, the stream prefix
    /// pulled before the fault — and no other buffer changes.
    pub fn fill_slot<T: ByteSource>(&mut self, i: usize, src: &mut T) -> (r: Result<
        usize,
        PipelineError,
    >)
        requires
            old(self).wf(),
            old(self).size() >= 1,
            i < old(self).slots_view().len(),
        ensures
            final(self).wf(),
            final(self).size() == old(self).size(),
            final(self).slots_view().len() == old(self).slots_view().len(),
            forall|j: int|
                0 <= j < old(self).slots_view().len() && j != i ==> final(self).slots_view()[j]
                    == #[trigger] old(self).slots_view()[j],
            match r {
                Ok(n) => {
                    &&& n as int == vstd::math::min(
                        old(self).size(),
                        old(src).stream().len() as int,
                    )
                    &&& final(self).slots_view()[i as int] == old(src).stream().take(n as int)
                    &&& final(src).stream() == old(src).stream().skip(n as int)
                },
                Err(e) => {
                    &&& e is Decompression
                    &&& final(self).slots_view()[i as int] == old(src).stream().take(
                        final(self).slots_view()[i as int].len() as int,
                    )
                },
            },
    {
        let ghost pre = self.slots@;
        let mut b = self.slots.remove(i);
        let r = fill_buffer(&mut b, self.size, src);
        self.slots.insert(i, b);
        proof {
            assert(self.slots@ =~= pre.update(i as int, self.slots@[i as int]));
            assert forall|j: int|
                0 <= j < pre.len() && j != i implies self.slots_view()[j] == pre.map_values(
                |bb: Vec<u8>| bb@,
            )[j] by {
                assert(self.slots@[j] == pre[j]);
            }
        }
        match r {
            Ok(n) => Ok(n),
            Err(e) => Err(e),
        }
    }

    /// Truncate buffer `i` to empty, making it the sentinel for the final
    /// window; no other buffer changes.
    pub fn clear_slot(&mut self, i: usize)
        requires
            old(self).wf(),
            i < old(self).slots_view().len(),
        ensures
            final(self).wf(),
            final(self).size() == old(self).size(),
            final(self).slots_view().len() == old(self).slots_view().len(),
            final(self).slots_view()[i as int].len() == 0,
            forall|j: int|
                0 <= j < old(self).slots_view().len() && j != i ==> final(self).slots_view()[j]
                    == #[trigger] old(self).slots_view()[j],
    {
        let ghost pre = self.slots@;
        let mut b = self.slots.remove(i);
        b.clear();
        self.slots.insert(i, b);
        proof {
            assert(self.slots@ =~= pre.update(i as int, self.slots@[i as int]));
            assert forall|j: int|
                0 <= j < pre.len() && j != i implies self.slots_view()[j] == pre.map_values(
                |bb: Vec<u8>| bb@,
            )[j] by {
                assert(self.slots@[j] == pre[j]);
            }
        }
    }
}

/// Re-running the pipeline on an unchanged input stream and buffer size
/// yields the same records: what `run_pipeline` promises of a successful
/// result is a function of the stream's bytes and the buffer size alone,
/// so two successful runs cannot differ, even in order.
pub proof fn lemma_pipeline_idempotent(
    input: Seq<u8>,
    s: int,
    r1: Seq<CarInfoV>,
    r2: Seq<CarInfoV>,
)
    requires
        r1 == pipeline_records(input, s),
        r2 == pipeline_records(input, s),
    ensures
        r1 == r2,
{
}

/// Drive the whole pipeline sequentially over one byte source: fill the
/// ring of buffers in order, parse the window over each adjacent pair as
/// soon as the newer buffer is filled, and after the final short fill pair
/// the last buffer with an emptied sentinel so the stream's tail forms its
/// own window. On success the result is exactly every window's accepted
/// records, in window order.
#[verifier::rlimit(30)]
pub fn run_pipeline<T: ByteSource>(
    src: &mut T,
    buffer_count: usize,
    buffer_size: usize,
) -> (r: Result<Vec<crate::record::CarInfo>, PipelineError>)
    requires
        buffer_count >= 2,
        buffer_size >= 1,
        buffer_size <= usize::MAX / 2,
    ensures
        r matches Ok(v) ==> cars_view(v@) == pipeline_records(old(src).stream(), buffer_size as int)
            && pipeline_ok(old(src).stream(), buffer_size as int),
        r matches Err(e) ==> (e is MarkerNotFound ==> !pipeline_ok(
            old(src).stream(),
            buffer_size as int,
        )),
{
    let ghost input = src.stream();
    let ghost s = buffer_size as int;
    let ghost cs = chunks_of(input, s);

    let mut pool = BufferPool::new(buffer_count, buffer_size);
    let mut recs: Vec<crate::record::CarInfo> = Vec::new();

    let n0 = match pool.fill_slot(0, src) {
        Ok(n) => n,
        Err(e) => {
            return Err(e);
        },
    };
    let mut completed = n0 < buffer_size;
    let mut idx: usize = 0;
    let ghost mut k: int = 0;

    proof {
        reveal_with_fuel(chunks_of, 2);
        reveal_with_fuel(concat_all, 2);
        assert(cs.len() >= 1);
        if input.len() <= s {
            assert(cs[0] == input);
            assert(input.take(vstd::math::min(s, input.len() as int)) =~= input);
        } else {
            assert(cs == seq![input.take(s)] + chunks_of(input.skip(s), s));
            assert(cs[0] == input.take(s));
            assert(cs.take(1) =~= seq![input.take(s)]);
        }
        assert(windows_of(cs).take(0) =~= Seq::<Seq<CarInfoV>>::empty());
        assert(cars_view(recs@) =~= concat_all(windows_of(cs).take(0)));
    }

    while !completed
        invariant
            input == old(src).stream(),
            s == buffer_size as int,
            cs == chunks_of(input, s),
            buffer_count >= 2,
            1 <= buffer_size,
            buffer_size <= usize::MAX / 2,
            pool.wf(),
            pool.size() == s,
            pool.slots_view().len() == buffer_count,
            idx < buffer_count,
            cs.len() >= 1,
            0 <= k <= cs.len(),
            cars_view(recs@) == concat_all(windows_of(cs).take(k)),
            forall|i: int| 0 <= i < k ==> window_ok(cs[i], window_second(cs, i)),
            k < cs.len() ==> pool.slots_view()[idx as int] == cs[k],
            k == cs.len() ==> pool.slots_view()[idx as int].len() == 0,
            !completed ==> {
                &&& k < cs.len()
                &&& cs[k].len() == s
                &&& (src.stream().len() > 0 ==> cs == cs.take(k + 1) + chunks_of(
                    src.stream(),
                    s,
                ))
                &&& (src.stream().len() == 0 ==> cs.len() == k + 1)
            },
            completed ==> k == cs.len() || k + 1 == cs.len(),
        decreases cs.len() - k,
    {
        let idx2 = if idx + 1 == buffer_count {
            0
        } else {
            idx + 1
        };
        let ghost rem = src.stream();
        let n1 = match pool.fill_slot(idx2, src) {
            Ok(n) => n,
            Err(e) => {
                return Err(e);
            },
        };
        if n1 < buffer_size {
            completed = true;
        }
        proof {
            reveal_with_fuel(chunks_of, 2);
            if rem.len() == 0 {
                assert(cs.len() == k + 1);
                assert(pool.slots_view()[idx2 as int] =~= Seq::<u8>::empty());
            } else {
                assert(cs == cs.take(k + 1) + chunks_of(rem, s));
                assert(cs[k + 1] == chunks_of(rem, s)[0]);
                if rem.len() <= s {
                    assert(chunks_of(rem, s) == seq![rem]);
                    assert(rem.take(vstd::math::min(s, rem.len() as int)) =~= rem);
                } else {
                    assert(cs[k + 1] == rem.take(s));
                }
                assert(pool.slots_view()[idx2 as int] == cs[k + 1]);
            }
        }
        let got = match parse_window(pool.slots[idx].as_slice(), pool.slots[idx2].as_slice()) {
            Ok(g) => g,
            Err(_) => {
                proof {
                    assert(!window_ok(cs[k as int], window_second(cs, k)));
                    assert(!pipeline_ok(input, s));
                }
                return Err(PipelineError::MarkerNotFound);
            },
        };
        let mut got = got;
        let ghost pre_recs = recs@;
        recs.append(&mut got);
        proof {
            assert(cars_view(recs@) =~= cars_view(pre_recs) + window_at(cs, k));
            lemma_concat_snoc(windows_of(cs).take(k), window_at(cs, k));
            assert(windows_of(cs).take(k) + seq![window_at(cs, k)] =~= windows_of(cs).take(k + 1));
            assert(cars_view(recs@) == concat_all(windows_of(cs).take(k + 1)));
            if rem.len() > 0 && rem.len() > s {
                assert(cs.take(k + 2) =~= cs.take(k + 1) + seq![cs[k + 1]]);
                assert(cs.take(k + 1) + (seq![rem.take(s)] + chunks_of(rem.skip(s), s)) =~= (
                cs.take(k + 1) + seq![rem.take(s)]) + chunks_of(rem.skip(s), s));
            }
            k = k + 1;
        }
        idx = idx2;
    }

    let idx3 = if idx + 1 == buffer_count {
        0
    } else {
        idx + 1
    };
    pool.clear_slot(idx3);
    let got = match parse_window(pool.slots[idx].as_slice(), pool.slots[idx3].as_slice()) {
        Ok(g) => g,
        Err(_) => {
            proof {
                assert(k + 1 == cs.len());
                assert(!window_ok(cs[k as int], window_second(cs, k)));
                assert(!pipeline_ok(input, s));
            }
            return Err(PipelineError::MarkerNotFound);
        },
    };
    let mut got = got;
    let ghost pre_recs = recs@;
    recs.append(&mut got);
    proof {
        if k + 1 == cs.len() {
            assert(cars_view(recs@) =~= cars_view(pre_recs) + window_at(cs, k));
            lemma_concat_snoc(windows_of(cs).take(k), window_at(cs, k));
            assert(windows_of(cs).take(k) + seq![window_at(cs, k)] =~= windows_of(cs).take(k + 1));
            assert(windows_of(cs).take(k + 1) =~= windows_of(cs));
            assert(cars_view(recs@) == pipeline_records(input, s));
        } else {
            assert(k == cs.len());
            assert(cars_view(recs@) =~= cars_view(pre_recs));
            assert(windows_of(cs).take(k) =~= windows_of(cs));
            assert(cars_view(recs@) == pipeline_records(input, s));
        }
        assert(pipeline_ok(input, s));
    }
    Ok(recs)
}

} // verus!
