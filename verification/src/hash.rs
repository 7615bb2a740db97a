//! Object ids, as the `git-hash` crate represents them.
//!
//! The types of that crate are opaque to the verifier. What the rest of the
//! library needs to know about them is stated here, without proof.

use git_hash::oid;
use git_hash::ObjectId;
use vstd::prelude::*;

verus! {

/// `git_hash::ObjectId`, an owned id. Nothing is known of its inside.
#[verifier::external_type_specification]
#[verifier::external_body]
pub struct ExObjectId(git_hash::ObjectId);

/// `git_hash::oid`, a borrowed id. Nothing is known of its inside.
#[verifier::external_type_specification]
#[verifier::external_body]
pub struct ExOid(git_hash::oid);

/// `git_hash::Kind`, the kind of hash. Nothing is known of its inside.
#[verifier::external_type_specification]
#[verifier::external_body]
pub struct ExHashKind(git_hash::Kind);

/// The number of bytes in a SHA-1 digest.
pub const SHA1_LEN: usize = 20;

/// The digest that an owned object id holds, byte by byte.
pub uninterp spec fn id_bytes(id: ObjectId) -> Seq<u8>;

/// The digest that a borrowed object id points to, byte by byte.
pub uninterp spec fn oid_bytes(id: &oid) -> Seq<u8>;

/// The digest of the null id: twenty zero bytes.
pub open spec fn null_bytes() -> Seq<u8> {
    Seq::new(SHA1_LEN as nat, |i: int| 0u8)
}

/// `ObjectId::from(&[u8])`: copies a digest of twenty bytes into an owned id.
/// The outside function panics on any other length, which `requires` excludes.
#[verifier::external_body]
pub(crate) fn id_from_slice(digest: &[u8]) -> (id: ObjectId)
    requires
        digest@.len() == SHA1_LEN,
    ensures
        id_bytes(id) == digest@,
{
    ObjectId::from(digest)
}

/// `ObjectId::is_null`: whether every byte of the digest is zero.
#[verifier::external_body]
pub(crate) fn id_is_null(id: &ObjectId) -> (null: bool)
    ensures
        null == (id_bytes(*id) == null_bytes()),
{
    id.is_null()
}

/// `ObjectId::as_ref`: borrows the id, which still points to the same digest.
#[verifier::external_body]
pub(crate) fn id_as_oid(id: &ObjectId) -> (borrowed: &oid)
    ensures
        oid_bytes(borrowed) == id_bytes(*id),
{
    id.as_ref()
}

/// `ObjectId::eq`: two ids are equal exactly if their digests are.
#[verifier::external_body]
pub(crate) fn id_eq(a: &ObjectId, b: &ObjectId) -> (same: bool)
    ensures
        same == (id_bytes(*a) == id_bytes(*b)),
{
    a == b
}

/// `Kind::len_in_bytes`: the length of a digest of the given kind of hash.
/// SHA-1 is the only kind there is, so the answer is always twenty.
#[verifier::external_body]
pub(crate) fn hash_len_in_bytes(kind: git_hash::Kind) -> (len: usize)
    ensures
        len == SHA1_LEN,
{
    kind.len_in_bytes()
}

} // verus!
