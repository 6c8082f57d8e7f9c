//! Byte-level search for the record-start marker, and the window over two
//! adjacent buffers that exposes one boundary-safe fragment.

use vstd::prelude::*;
use vstd::string::StringSliceAdditionalSpecFns;

verus! {

/// The record-start marker, `<ns:Statistik>`, as bytes.
pub open spec fn marker() -> Seq<u8> {
    seq![60u8, 110u8, 115u8, 58u8, 83u8, 116u8, 97u8, 116u8, 105u8, 115u8, 116u8, 105u8, 107u8, 62u8]
}

/// The synthetic wrapper-open literal, `<root>`, that every fragment begins with.
pub open spec fn xml_pre() -> Seq<u8> {
    seq![60u8, 114u8, 111u8, 111u8, 116u8, 62u8]
}

/// The record-start marker as an owned byte vector.
fn marker_vec() -> (r: Vec<u8>)
    ensures
        r@ == marker(),
{
    let mut v: Vec<u8> = Vec::new();
    v.push(60u8);
    v.push(110u8);
    v.push(115u8);
    v.push(58u8);
    v.push(83u8);
    v.push(116u8);
    v.push(97u8);
    v.push(116u8);
    v.push(105u8);
    v.push(115u8);
    v.push(116u8);
    v.push(105u8);
    v.push(107u8);
    v.push(62u8);
    proof {
        assert(v@ =~= marker());
    }
    v
}

/// The wrapper-open literal as an owned byte vector.
fn pre_vec() -> (r: Vec<u8>)
    ensures
        r@ == xml_pre(),
{
    let mut v: Vec<u8> = Vec::new();
    v.push(60u8);
    v.push(114u8);
    v.push(111u8);
    v.push(111u8);
    v.push(116u8);
    v.push(62u8);
    proof {
        assert(v@ =~= xml_pre());
    }
    v
}

/// The needle occurs in the haystack at position `i`.
pub open spec fn matches_at(needle: Seq<u8>, hay: Seq<u8>, i: int) -> bool {
    &&& 0 <= i
    &&& i + needle.len() <= hay.len()
    &&& hay.subrange(i, i + needle.len()) == needle
}

/// The first occurrence of the needle at or after position `i`, if any.
pub open spec fn find_first_from(needle: Seq<u8>, hay: Seq<u8>, i: int) -> Option<int>
    decreases hay.len() - i,
{
    if i < 0 || i + needle.len() > hay.len() {
        None
    } else if needle.len() == 0 || matches_at(needle, hay, i) {
        Some(i)
    } else {
        find_first_from(needle, hay, i + 1)
    }
}

/// The position of the first occurrence of the needle in the haystack.
pub open spec fn find_first(needle: Seq<u8>, hay: Seq<u8>) -> Option<int> {
    find_first_from(needle, hay, 0)
}

proof fn lemma_find_skip(needle: Seq<u8>, hay: Seq<u8>, i: int)
    requires
        0 <= i,
        needle.len() >= 1,
        !matches_at(needle, hay, i),
    ensures
        find_first_from(needle, hay, i) == find_first_from(needle, hay, i + 1),
{
}

/// A found position is a real occurrence, and nothing earlier matches.
proof fn lemma_find_found(needle: Seq<u8>, hay: Seq<u8>, i: int, j: int)
    requires
        0 <= i,
        needle.len() >= 1,
        find_first_from(needle, hay, i) == Some(j),
    ensures
        matches_at(needle, hay, j),
        i <= j,
    decreases hay.len() - i,
{
    if i + needle.len() <= hay.len() && !matches_at(needle, hay, i) {
        lemma_find_found(needle, hay, i + 1, j);
    }
}

/// Search for the first occurrence of `needle` in `hay`.
fn find_bytes(needle: &[u8], hay: &[u8]) -> (r: Option<usize>)
    requires
        needle@.len() >= 1,
    ensures
        r is Some <==> find_first(needle@, hay@) is Some,
        r matches Some(i) ==> find_first(needle@, hay@) == Some(i as int),
{
    let n = needle.len();
    let h = hay.len();
    if n > h {
        proof {
            assert(find_first_from(needle@, hay@, 0) is None);
        }
        return None;
    }
    let mut i: usize = 0;
    loop
        invariant
            needle@.len() == n,
            hay@.len() == h,
            1 <= n <= h,
            0 <= i <= h - n + 1,
            find_first(needle@, hay@) == find_first_from(needle@, hay@, i as int),
        decreases h - i,
    {
        if i > h - n {
            proof {
                assert(find_first_from(needle@, hay@, i as int) is None);
            }
            return None;
        }
        let mut j: usize = 0;
        let mut mismatch = false;
        while j < n
            invariant
                needle@.len() == n,
                hay@.len() == h,
                0 <= i,
                i + n <= h,
                0 <= j <= n,
                !mismatch ==> forall|k: int| 0 <= k < j ==> hay@[i + k] == needle@[k],
                mismatch ==> !matches_at(needle@, hay@, i as int),
            decreases n - j,
        {
            let a = *vstd::slice::slice_index_get(hay, i + j);
            let b = *vstd::slice::slice_index_get(needle, j);
            if a != b {
                proof {
                    if matches_at(needle@, hay@, i as int) {
                        assert(hay@.subrange(i as int, i + needle@.len())[j as int] == needle@[j as int]);
                    }
                }
                mismatch = true;
            }
            j += 1;
        }
        if !mismatch {
            proof {
                assert(hay@.subrange(i as int, i + needle@.len()) =~= needle@);
            }
            return Some(i);
        }
        proof {
            lemma_find_skip(needle@, hay@, i as int);
        }
        i += 1;
    }
}

/// The position of the first marker in the older buffer; meaningful only
/// when the buffer holds one.
pub open spec fn mstart_of(first: Seq<u8>) -> int {
    match find_first(marker(), first) {
        Some(i) => i,
        None => 0,
    }
}

/// The exclusive end of the newer buffer's contribution: the position of its
/// first marker, or zero when the buffer is empty.
pub open spec fn mend_of(second: Seq<u8>) -> int {
    if second.len() == 0 {
        0
    } else {
        match find_first(marker(), second) {
            Some(i) => i,
            None => 0,
        }
    }
}

/// Both buffers can be anchored: the older buffer holds a marker, and the
/// newer one holds a marker or is empty (the final sentinel).
pub open spec fn markers_ok(first: Seq<u8>, second: Seq<u8>) -> bool {
    &&& first.len() >= 1
    &&& find_first(marker(), first) is Some
    &&& (second.len() == 0 || find_first(marker(), second) is Some)
}

/// The one well-formed fragment a window exposes: the wrapper-open literal,
/// then the older buffer from its first marker on, then the newer buffer up
/// to (excluding) its first marker.
pub open spec fn fragment_spec(first: Seq<u8>, second: Seq<u8>) -> Seq<u8> {
    xml_pre() + first.skip(mstart_of(first)) + second.take(mend_of(second))
}

/// How many bytes the next successful read hands out, given how many of the
/// fragment's bytes were already delivered: the whole wrapper-open literal
/// first; then up to `max` of what is left of the older buffer's share; then
/// up to `max` of what is left of the fragment.
pub open spec fn next_chunk_len(first: Seq<u8>, second: Seq<u8>, offset: int, max: int) -> int {
    let older_share_end = xml_pre().len() as int + first.len() as int - mstart_of(first);
    if offset == 0 {
        xml_pre().len() as int
    } else if offset < older_share_end {
        vstd::math::min(max, older_share_end - offset)
    } else {
        vstd::math::min(max, fragment_spec(first, second).len() as int - offset)
    }
}

/// Raised when a buffer that should hold the record-start marker does not:
/// the chunk boundary fell somewhere no window can anchor.
#[derive(Clone, Copy, PartialEq, Eq, Structural, Debug)]
pub enum WindowError {
    MarkerNotFound,
}

/// A sequential view over two adjacent buffers that yields exactly the
/// window's boundary-safe fragment, chunk by chunk.
pub struct DoubleBufferReader<'a> {
    first: &'a [u8],
    second: &'a [u8],
    position: usize,
    // global end in bytes: the length of first plus the newer buffer's
    // contribution; zero until the newer buffer is anchored
    end: usize,
    started: bool,
    finished: bool,
}

impl<'a> DoubleBufferReader<'a> {
    /// The older buffer's bytes.
    pub closed spec fn first_view(self) -> Seq<u8> {
        self.first@
    }

    /// The newer buffer's bytes.
    pub closed spec fn second_view(self) -> Seq<u8> {
        self.second@
    }

    /// How many bytes of the fragment have been handed out so far.
    pub closed spec fn offset(self) -> int {
        if !self.started {
            0
        } else if self.finished {
            fragment_spec(self.first@, self.second@).len() as int
        } else {
            xml_pre().len() + self.position - mstart_of(self.first@)
        }
    }

    /// Internal consistency of the cursor state.
    pub closed spec fn wf(self) -> bool {
        &&& self.first@.len() + self.second@.len() <= usize::MAX
        &&& (!self.started ==> self.position == 0 && self.end == 0 && !self.finished)
        &&& (self.started ==> {
            &&& self.first@.len() >= 1
            &&& find_first(marker(), self.first@) is Some
            &&& 0 <= mstart_of(self.first@)
            &&& mstart_of(self.first@) + marker().len() <= self.first@.len()
            &&& mstart_of(self.first@) <= self.position
            &&& (self.end == 0 ==> self.position <= self.first@.len())
            &&& (self.end != 0 ==> {
                &&& (self.second@.len() > 0 ==> {
                    &&& find_first(marker(), self.second@) is Some
                    &&& mend_of(self.second@) + marker().len() <= self.second@.len()
                })
                &&& 0 <= mend_of(self.second@) <= self.second@.len()
                &&& self.end == self.first@.len() + mend_of(self.second@)
                &&& self.first@.len() <= self.position <= self.end
            })
        })
        &&& (self.finished ==> self.started && self.end != 0)
    }

    /// A fresh window over two adjacent buffers; nothing delivered yet.
    pub fn new(first: &'a [u8], second: &'a [u8]) -> (r: Self)
        requires
            first@.len() + second@.len() <= usize::MAX,
        ensures
            r.wf(),
            r.first_view() == first@,
            r.second_view() == second@,
            r.offset() == 0,
    {
        Self { first, second, position: 0, end: 0, started: false, finished: false }
    }

    /// Deliver the next slice of the fragment, at most `max` bytes (the very
    /// first call delivers the wrapper-open literal whole). An empty result
    /// means the fragment is exhausted. Fails exactly when a buffer that
    /// should hold the record-start marker does not.
    pub fn read(&mut self, max: usize) -> (r: Result<Vec<u8>, WindowError>)
        requires
            old(self).wf(),
            max >= xml_pre().len(),
        ensures
            final(self).wf(),
            final(self).first_view() == old(self).first_view(),
            final(self).second_view() == old(self).second_view(),
            match r {
                Ok(chunk) => {
                    let frag = fragment_spec(old(self).first_view(), old(self).second_view());
                    &&& final(self).offset() == old(self).offset() + chunk@.len()
                    &&& old(self).offset() + chunk@.len() <= frag.len()
                    &&& chunk@ == frag.subrange(old(self).offset(), old(self).offset() + chunk@.len())
                    &&& chunk@.len() <= max
                    &&& chunk@.len() == next_chunk_len(
                        old(self).first_view(),
                        old(self).second_view(),
                        old(self).offset(),
                        max as int,
                    )
                    &&& (old(self).offset() == 0 ==> chunk@ == xml_pre())
                    &&& (chunk@.len() == 0 <==> old(self).offset() == frag.len())
                    &&& (chunk@.len() == 0 ==> markers_ok(
                        old(self).first_view(),
                        old(self).second_view(),
                    ))
                },
                Err(_) => {
                    &&& !markers_ok(old(self).first_view(), old(self).second_view())
                    &&& final(self).offset() == old(self).offset()
                },
            },
            markers_ok(old(self).first_view(), old(self).second_view()) ==> r is Ok,
    {
        let ghost frag = fragment_spec(self.first@, self.second@);
        if self.finished {
            let chunk: Vec<u8> = Vec::new();
            return Ok(chunk);
        }
        if !self.started {
            if self.first.len() == 0 {
                return Err(WindowError::MarkerNotFound);
            }
            let m = marker_vec();
            match find_bytes(m.as_slice(), self.first) {
                Some(p) => {
                    proof {
                        lemma_find_found(marker(), self.first@, 0, p as int);
                    }
                    self.position = p;
                    self.started = true;
                    let chunk = pre_vec();
                    proof {
                        assert(chunk@ =~= frag.subrange(0, xml_pre().len() as int));
                    }
                    return Ok(chunk);
                },
                None => {
                    return Err(WindowError::MarkerNotFound);
                },
            }
        }
        if self.position < self.first.len() {
            let mut len = max;
            let left = self.first.len() - self.position;
            if left < len {
                len = left;
            }
            let chunk = vstd::slice::slice_to_vec(
                vstd::slice::slice_subrange(self.first, self.position, self.position + len),
            );
            let ghost off = self.offset();
            self.position = self.position + len;
            proof {
                assert forall|k: int| 0 <= k < len implies chunk@[k] == frag[off + k] by {
                    assert(frag[off + k] == self.first@.skip(mstart_of(self.first@))[
                        off + k - xml_pre().len()]);
                }
                assert(chunk@ =~= frag.subrange(off, off + len));
            }
            return Ok(chunk);
        }
        if self.end == 0 {
            if self.second.len() == 0 {
                self.end = self.first.len();
            } else {
                let m = marker_vec();
                match find_bytes(m.as_slice(), self.second) {
                    Some(p) => {
                        proof {
                            lemma_find_found(marker(), self.second@, 0, p as int);
                        }
                        self.end = p + self.first.len();
                    },
                    None => {
                        return Err(WindowError::MarkerNotFound);
                    },
                }
            }
        }
        let end_in_second = self.end - self.first.len();
        let pos_in_second = self.position - self.first.len();
        let len = end_in_second - pos_in_second;
        let ghost off = self.offset();
        if len < max {
            let chunk = vstd::slice::slice_to_vec(
                vstd::slice::slice_subrange(self.second, pos_in_second, end_in_second),
            );
            self.finished = true;
            proof {
                assert forall|k: int| 0 <= k < len implies chunk@[k] == frag[off + k] by {
                    assert(frag[off + k] == self.second@.take(mend_of(self.second@))[
                        pos_in_second + k]);
                }
                assert(chunk@ =~= frag.subrange(off, off + len));
            }
            Ok(chunk)
        } else {
            let chunk = vstd::slice::slice_to_vec(
                vstd::slice::slice_subrange(self.second, pos_in_second, pos_in_second + max),
            );
            self.position = self.position + max;
            proof {
                assert forall|k: int| 0 <= k < max implies chunk@[k] == frag[off + k] by {
                    assert(frag[off + k] == self.second@.take(mend_of(self.second@))[
                        pos_in_second + k]);
                }
                assert(chunk@ =~= frag.subrange(off, off + max as int));
            }
            Ok(chunk)
        }
    }
}

/// Build a window's whole fragment: the wrapper-open literal, the older
/// buffer from its first marker, and the newer buffer up to its first
/// marker. Fails exactly when a buffer that should hold the marker lacks it.
pub fn window_fragment(first: &[u8], second: &[u8]) -> (r: Result<Vec<u8>, WindowError>)
    requires
        first@.len() + second@.len() <= usize::MAX,
    ensures
        r matches Ok(v) ==> markers_ok(first@, second@) && v@ == fragment_spec(first@, second@),
        r is Err ==> !markers_ok(first@, second@),
        markers_ok(first@, second@) ==> r is Ok,
{
    let ghost frag = fragment_spec(first@, second@);
    let mut dbr = DoubleBufferReader::new(first, second);
    let mut out: Vec<u8> = Vec::new();
    loop
        invariant
            frag == fragment_spec(first@, second@),
            dbr.wf(),
            dbr.first_view() == first@,
            dbr.second_view() == second@,
            0 <= dbr.offset() <= frag.len(),
            out@ == frag.take(dbr.offset()),
        decreases frag.len() - dbr.offset(),
    {
        let ghost off = dbr.offset();
        match dbr.read(65536) {
            Ok(mut chunk) => {
                if chunk.len() == 0 {
                    proof {
                        assert(out@ =~= frag);
                    }
                    return Ok(out);
                }
                let ghost clen = chunk@.len() as int;
                out.append(&mut chunk);
                proof {
                    assert(out@ =~= frag.take(off + clen));
                }
            },
            Err(e) => {
                return Err(e);
            },
        }
    }
}

/// Locate a string needle inside a byte haystack; the position of the first
/// occurrence of the needle's UTF-8 bytes, if any.
pub fn find_str_in_u8(needle: &str, haystack: &[u8]) -> (r: Option<usize>)
    requires
        needle.spec_bytes().len() >= 1,
    ensures
        r is Some <==> find_first(needle.spec_bytes(), haystack@) is Some,
        r matches Some(i) ==> find_first(needle.spec_bytes(), haystack@) == Some(i as int),
{
    find_bytes(needle.as_bytes(), haystack)
}

} // verus!
