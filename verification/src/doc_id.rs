//! Document identities.
//!
//! Every stored document carries an opaque string key.  Key derivation is
//! deterministic and owned by each document type; callers never allocate
//! keys.  A sentinel "placeholder" value exists for documents that have not
//! been persisted yet.

use vstd::prelude::*;

verus! {

/// The placeholder key for documents that are not persisted yet.
pub open spec fn placeholder_key() -> Seq<char> {
    "DOC_ID_PLACEHOLDER"@
}

/// Opaque string identity of a stored document.  Equality is string
/// equality.
#[derive(Debug)]
pub struct DocId(pub String);

impl Clone for DocId {
    /// A clone carries the same key.
    fn clone(&self) -> (r: Self)
        ensures
            r@ == self@,
    {
        DocId(self.0.clone())
    }
}

impl View for DocId {
    type V = Seq<char>;

    open spec fn view(&self) -> Seq<char> {
        self.0@
    }
}

impl DocId {
    /// Wrap an existing key string.
    pub fn new(id: String) -> (r: Self)
        ensures
            r@ == id@,
    {
        DocId(id)
    }

    /// The sentinel key of a not-yet-persisted document.
    pub fn placeholder() -> (r: Self)
        ensures
            r@ == placeholder_key(),
    {
        DocId("DOC_ID_PLACEHOLDER".to_owned())
    }

    /// Whether this is the sentinel key.
    pub fn is_placeholder(&self) -> (r: bool)
        ensures
            r == (self@ == placeholder_key()),
    {
        self.0 == "DOC_ID_PLACEHOLDER".to_owned()
    }

    /// The key as a string slice.
    pub fn as_str(&self) -> (r: &str)
        ensures
            r@ == self@,
    {
        self.0.as_str()
    }

    /// String equality of two keys.
    pub fn key_eq(&self, other: &DocId) -> (r: bool)
        ensures
            r == (self@ == other@),
    {
        self.0 == other.0
    }
}

impl Default for DocId {
    /// The default key is the placeholder sentinel.
    fn default() -> (r: Self)
        ensures
            r@ == placeholder_key(),
    {
        DocId::placeholder()
    }
}

/// A document type that derives its own storage key from its logical
/// identity.
pub trait HasDocId: Sized {
    /// The derived key, as a mathematical value.
    spec fn key_spec(&self) -> Seq<char>;

    /// The derived key of this document.
    fn doc_id(&self) -> (r: DocId)
        ensures
            r@ == self.key_spec(),
    ;
}

} // verus!
