//! Byte strings, as the `bstr` crate represents them.

use bstr::BString;
use vstd::prelude::*;

verus! {

/// `bstr::BString`, an owned byte string. Nothing is known of its inside.
#[verifier::external_type_specification]
#[verifier::external_body]
pub struct ExBString(bstr::BString);

/// The bytes that a byte string holds.
pub uninterp spec fn bstring_bytes(text: BString) -> Seq<u8>;

/// The bytes that each byte string of a list holds.
pub open spec fn texts(list: Seq<BString>) -> Seq<Seq<u8>> {
    Seq::new(list.len(), |i: int| bstring_bytes(list[i]))
}

/// `BString::from(&[u8])`: a byte string that holds a copy of `data`.
#[verifier::external_body]
pub(crate) fn bstring_from(data: &[u8]) -> (text: BString)
    ensures
        bstring_bytes(text) == data@,
{
    BString::from(data)
}

} // verus!
