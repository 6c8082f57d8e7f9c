//! The fixed 30-byte local header at the front of the archive: its magic
//! signature and the two little-endian field lengths that say how many
//! bytes to skip before the compressed stream begins.

use vstd::prelude::*;

verus! {

/// The archive cannot be started on: the header is shorter than its fixed
/// size, or the magic signature is wrong.
#[derive(Clone, Copy, PartialEq, Eq, Structural, Debug)]
pub enum StartupError {
    TruncatedHeader,
    BadMagic,
}

/// The 4-byte magic signature the first entry must begin with.
pub open spec fn zip_magic() -> Seq<u8> {
    seq![0x50u8, 0x4bu8, 0x03u8, 0x04u8]
}

/// The entry-name length, little-endian at bytes 26 and 27.
pub open spec fn name_len_of(h: Seq<u8>) -> int {
    h[26] + 256 * h[27]
}

/// The extra-field length, little-endian at bytes 28 and 29.
pub open spec fn extra_len_of(h: Seq<u8>) -> int {
    h[28] + 256 * h[29]
}

/// The header holds its fixed prefix and the right magic signature.
pub open spec fn header_ok(h: Seq<u8>) -> bool {
    h.len() >= 30 && h.subrange(0, 4) == zip_magic()
}

/// The two variable lengths read from a well-formed local header; the
/// compressed stream begins `30 + name_len + extra_len` bytes in.
#[derive(Clone, Copy, PartialEq, Eq, Structural, Debug)]
pub struct HeaderInfo {
    pub name_len: usize,
    pub extra_len: usize,
}

/// Check the fixed local header and read the two variable lengths.
/// Succeeds exactly on a header of at least 30 bytes whose first four
/// bytes are the magic signature.
pub fn parse_zip_header(header: &[u8]) -> (r: Result<HeaderInfo, StartupError>)
    ensures
        r matches Ok(info) ==> header_ok(header@) && info.name_len == name_len_of(header@)
            && info.extra_len == extra_len_of(header@),
        r is Err ==> !header_ok(header@),
        header_ok(header@) ==> r is Ok,
{
    if header.len() < 30 {
        return Err(StartupError::TruncatedHeader);
    }
    let b0 = *vstd::slice::slice_index_get(header, 0);
    let b1 = *vstd::slice::slice_index_get(header, 1);
    let b2 = *vstd::slice::slice_index_get(header, 2);
    let b3 = *vstd::slice::slice_index_get(header, 3);
    if !(b0 == 0x50 && b1 == 0x4b && b2 == 0x03 && b3 == 0x04) {
        proof {
            if header@.subrange(0, 4) == zip_magic() {
                assert(header@.subrange(0, 4)[0] == zip_magic()[0]);
                assert(header@.subrange(0, 4)[1] == zip_magic()[1]);
                assert(header@.subrange(0, 4)[2] == zip_magic()[2]);
                assert(header@.subrange(0, 4)[3] == zip_magic()[3]);
            }
        }
        return Err(StartupError::BadMagic);
    }
    proof {
        assert(header@.subrange(0, 4) =~= zip_magic());
    }
    let lo_name = *vstd::slice::slice_index_get(header, 26);
    let hi_name = *vstd::slice::slice_index_get(header, 27);
    let lo_extra = *vstd::slice::slice_index_get(header, 28);
    let hi_extra = *vstd::slice::slice_index_get(header, 29);
    let name_len = lo_name as usize + 256 * (hi_name as usize);
    let extra_len = lo_extra as usize + 256 * (hi_extra as usize);
    Ok(HeaderInfo { name_len, extra_len })
}

} // verus!
