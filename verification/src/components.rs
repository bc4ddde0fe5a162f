//! Type identities for component and query registration.
//!
//! The store holds arbitrarily many unrelated value types without a closed
//! type list in the runtime itself: a user chooses one carrier type (usually
//! an enum with one variant per component type) and tags it as eligible for
//! per-entity storage by implementing [`Component`]. Each carrier value
//! reports the stable key of the component type it represents, and the store
//! indexes cells by that key.

use vstd::prelude::*;

verus! {

/// The stable identity of a component or resource type.
pub type TypeKey = u64;

/// A value type eligible for per-entity storage.
///
/// `type_key` must be constant per represented component type: two values
/// standing for the same component type report the same key, and values
/// standing for different component types report different keys.
pub trait Component: Sized {
    /// The type key of this value, as specification-level data.
    spec fn key_spec(&self) -> TypeKey;

    /// The stable identity of the component type this value belongs to.
    fn type_key(&self) -> (k: TypeKey)
        ensures
            k == self.key_spec(),
    ;
}

/// A request for a tuple of component types, given by their keys in order.
pub trait Query {
    /// The requested keys, as specification-level data.
    spec fn keys_spec(&self) -> Seq<TypeKey>;

    /// The requested component type keys, in the order results are yielded.
    fn keys(&self) -> (ks: Vec<TypeKey>)
        ensures
            ks@ == self.keys_spec(),
    ;
}

impl Query for Vec<TypeKey> {
    open spec fn keys_spec(&self) -> Seq<TypeKey> {
        self@
    }

    fn keys(&self) -> (ks: Vec<TypeKey>) {
        let mut ks: Vec<TypeKey> = Vec::new();
        let mut i: usize = 0;
        while i < self.len()
            invariant
                i <= self.len(),
                ks@ == self@.subrange(0, i as int),
            decreases self.len() - i,
        {
            ks.push(self[i]);
            i += 1;
        }
        ks
    }
}

} // verus!
