//! A handle to an object of a repository, and the rule by which an object is
//! peeled: followed from tag to target and from commit to tree until an
//! object of the wanted kind is reached.

pub mod equality;
pub mod peel_to_kind;

use crate::hash::id_as_oid;
use crate::hash::id_bytes;
use crate::hash::id_eq;
use crate::hash::oid_bytes;
use crate::object::peel_to_kind::Error;
use git_hash::oid;
use git_hash::ObjectId;
use git_object::CommitRefIter;
use git_object::TagRefIter;
use vstd::prelude::*;

verus! {

/// `git_object::Kind`, the four kinds of object: tree, blob, commit and tag.
#[verifier::external_type_specification]
pub struct ExKind(git_object::Kind);

/// The digest of the tree that the data of a commit names in its first
/// line, or nothing if the data does not begin as a commit does.
pub uninterp spec fn commit_tree(data: Seq<u8>) -> Option<Seq<u8>>;

/// The digest of the object that the data of a tag names in its first line,
/// or nothing if the data does not begin as a tag does.
pub uninterp spec fn tag_target(data: Seq<u8>) -> Option<Seq<u8>>;

/// `CommitRefIter::from_bytes(data).tree_id()`: parses the first line of a
/// commit. The result depends on `data` alone; an error is turned into
/// `None`.
#[verifier::external_body]
pub(crate) fn commit_tree_id(data: &[u8]) -> (tree: Option<ObjectId>)
    ensures
        match tree {
            Some(id) => commit_tree(data@) == Some(id_bytes(id)),
            None => commit_tree(data@) is None,
        },
{
    CommitRefIter::from_bytes(data).tree_id().ok()
}

/// `TagRefIter::from_bytes(data).target_id()`: parses the first line of a
/// tag. The result depends on `data` alone; an error is turned into `None`.
#[verifier::external_body]
pub(crate) fn tag_target_id(data: &[u8]) -> (target: Option<ObjectId>)
    ensures
        match target {
            Some(id) => tag_target(data@) == Some(id_bytes(id)),
            None => tag_target(data@) is None,
        },
{
    TagRefIter::from_bytes(data).target_id().ok()
}

/// Whether two kinds of object are the same.
pub fn same_kind(a: git_object::Kind, b: git_object::Kind) -> (same: bool)
    ensures
        same == (a == b),
{
    match (a, b) {
        (git_object::Kind::Tree, git_object::Kind::Tree) => true,
        (git_object::Kind::Blob, git_object::Kind::Blob) => true,
        (git_object::Kind::Commit, git_object::Kind::Commit) => true,
        (git_object::Kind::Tag, git_object::Kind::Tag) => true,
        _ => false,
    }
}

/// The digest that the data of an object of kind `found` refers to as the
/// next object on the way to what it stands for: a commit to its tree, a tag
/// to its target. Trees and blobs refer to nothing.
pub open spec fn referenced(found: git_object::Kind, data: Seq<u8>) -> Option<Seq<u8>> {
    match found {
        git_object::Kind::Commit => commit_tree(data),
        git_object::Kind::Tag => tag_target(data),
        git_object::Kind::Tree => None,
        git_object::Kind::Blob => None,
    }
}

/// The id that the data of an object of kind `found` refers to, if it
/// refers to one and can be parsed.
pub fn referenced_id(found: git_object::Kind, data: &[u8]) -> (id: Option<ObjectId>)
    ensures
        match id {
            Some(id) => referenced(found, data@) == Some(id_bytes(id)),
            None => referenced(found, data@) is None,
        },
{
    match found {
        git_object::Kind::Commit => commit_tree_id(data),
        git_object::Kind::Tag => tag_target_id(data),
        git_object::Kind::Tree => None,
        git_object::Kind::Blob => None,
    }
}

/// An object id together with the means to look the object up.
pub struct Object<'repo, A> {
    id: ObjectId,
    access: &'repo A,
}

/// What to do after an object was looked up while peeling.
pub enum Step<'repo, A> {
    /// The object is of the wanted kind: it is the result.
    Done(Object<'repo, A>),
    /// The object is to be looked up next.
    Follow(Object<'repo, A>),
}

impl<'repo, A> Object<'repo, A> {
    /// The digest of the object's id.
    pub closed spec fn digest(&self) -> Seq<u8> {
        id_bytes(self.id)
    }

    /// A handle to the object named `id`, to be looked up through `access`.
    pub fn from_id(id: ObjectId, access: &'repo A) -> (object: Self)
        ensures
            object.digest() == id_bytes(id),
            object.repository() == access,
    {
        Object { id, access }
    }

    /// The means to look the object up.
    pub closed spec fn repository(&self) -> &'repo A {
        self.access
    }

    /// The id of the object.
    pub fn id(&self) -> (id: &oid)
        ensures
            oid_bytes(id) == self.digest(),
    {
        id_as_oid(&self.id)
    }

    /// The means to look the object up.
    pub fn access(&self) -> (access: &'repo A)
        ensures
            access == self.repository(),
    {
        self.access
    }

    /// Whether `other` names the same object, whatever it is looked up
    /// through.
    pub fn is_same<B>(&self, other: &Object<'repo, B>) -> (same: bool)
        ensures
            same == (self.digest() == other.digest()),
    {
        id_eq(&self.id, &other.id)
    }

    /// One step of peeling this object to `kind`, once it was looked up and
    /// found to be of kind `found`, referring to `next`.
    ///
    /// - If it is of the wanted kind, it is the result.
    /// - Otherwise a commit leads to its tree and a tag to its target.
    /// - Otherwise a tree or a blob ends the search without a result.
    ///
    /// An object that is followed must refer to another: a commit or a tag
    /// whose data could not be parsed is not among the inputs.
    pub fn peel_step(
        &self,
        kind: git_object::Kind,
        found: git_object::Kind,
        next: Option<ObjectId>,
    ) -> (result: Result<Step<'repo, A>, Error>)
        requires
            kind != found && (found is Commit || found is Tag) ==> next is Some,
        ensures
            match result {
                Ok(Step::Done(object)) => {
                    &&& kind == found
                    &&& object.digest() == self.digest()
                    &&& object.repository() == self.repository()
                },
                Ok(Step::Follow(object)) => {
                    &&& kind != found
                    &&& found is Commit || found is Tag
                    &&& next matches Some(id) && object.digest() == id_bytes(id)
                    &&& object.repository() == self.repository()
                },
                Err(error) => {
                    &&& kind != found
                    &&& found is Tree || found is Blob
                    &&& error matches Error::NotFound { id, kind: wanted }
                    &&& id_bytes(id) == self.digest()
                    &&& wanted == kind
                },
            },
    {
        if same_kind(kind, found) {
            return Ok(Step::Done(Object::from_id(self.id, self.access)));
        }
        match found {
            git_object::Kind::Commit => Ok(Step::Follow(Object::from_id(next.unwrap(), self.access))),
            git_object::Kind::Tag => Ok(Step::Follow(Object::from_id(next.unwrap(), self.access))),
            git_object::Kind::Tree => Err(Error::NotFound { id: self.id, kind }),
            git_object::Kind::Blob => Err(Error::NotFound { id: self.id, kind }),
        }
    }
}

} // verus!
