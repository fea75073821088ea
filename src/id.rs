//! Stable widget identifiers.
use vstd::prelude::*;

verus! {

/// A stable identifier of a widget, area or other persistent item.
///
/// Identifiers are derived from a source string (`Id::new`) or from a parent
/// identifier and a salt (`Id::with`). Two equal identifiers name the same item.
#[derive(Clone, Copy, Debug, PartialEq, Eq, Structural, Hash)]
pub struct Id(pub u64);

/// Relies on `ahash::RandomState::with_seeds(1, 2, 3, 4).hash_one`: a hash of the
/// source string. The value differs between platforms, so nothing is stated of it.
#[verifier::external_body]
fn hash_source(source: &str) -> (r: u64) {
    ahash::RandomState::with_seeds(1, 2, 3, 4).hash_one(source)
}

/// Relies on `ahash::RandomState::with_seeds(1, 2, 3, 4).hash_one`: a hash of a
/// parent value paired with a salt string. Nothing is stated of the value.
#[verifier::external_body]
fn hash_child(parent: u64, salt: &str) -> (r: u64) {
    ahash::RandomState::with_seeds(1, 2, 3, 4).hash_one((parent, salt))
}

/// The raw value of the identifier that stands for "no item".
pub const NULL_ID_VALUE: u64 = 0xffff_ffff_ffff_ffff;

impl Id {
    /// The identifier that stands for "no item".
    pub fn null() -> (r: Id)
        ensures
            r == Id(NULL_ID_VALUE),
    {
        Id(NULL_ID_VALUE)
    }

    /// An identifier built from a raw hash; zero is moved to one, so that a
    /// hash never collides with the all-zero value.
    pub fn from_hash(hash: u64) -> (r: Id)
        ensures
            r.0 == (if hash == 0 { 1 } else { hash }),
    {
        if hash == 0 {
            Id(1)
        } else {
            Id(hash)
        }
    }

    /// The identifier of a source string, e.g. a window title.
    pub fn new(source: &str) -> (r: Id)
        ensures
            r.0 != 0,
    {
        Id::from_hash(hash_source(source))
    }

    /// The identifier of a child of `self`, distinguished by `salt`.
    pub fn with(self, salt: &str) -> (r: Id)
        ensures
            r.0 != 0,
    {
        Id::from_hash(hash_child(self.0, salt))
    }

    /// The raw value.
    pub fn value(self) -> (r: u64)
        ensures
            r == self.0,
    {
        self.0
    }
}

} // verus!
