//! Trusted boundary to std's UTF-8 string construction.

use vstd::prelude::*;

verus! {

pub open spec fn ascii_bytes(v: Seq<u8>) -> bool {
    forall|i: int| 0 <= i < v.len() ==> (#[trigger] v[i]) < 128
}

/// Relies on String::from_utf8_lossy: an ASCII byte string becomes the
/// string with exactly those characters; other bytes are decoded lossily
/// and nothing is claimed of them.
#[verifier::external_body]
pub fn bytes_to_string(v: &Vec<u8>) -> (r: String)
    ensures
        ascii_bytes(v@) ==> (r@.len() == v@.len() && forall|i: int|
            0 <= i < v@.len() ==> (#[trigger] r@[i]) == v@[i] as char),
{
    String::from_utf8_lossy(v).into_owned()
}

} // verus!
