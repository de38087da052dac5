use vstd::prelude::*;

use std::sync::Arc;
use vstd::rwlock::RwLock;

use crate::value::Value;

verus! {

/// Relies on `Arc::clone`, which makes another pointer to the same
/// allocation.
#[verifier::external_body]
fn share<T>(a: &Arc<T>) -> (r: Arc<T>)
    ensures
        r == *a,
{
    Arc::clone(a)
}

/// The cell behind every handle of one console variable: its name, its
/// description and its current value under a reader-writer lock.
#[verifier::reject_recursive_types(T)]
pub struct InnerCVar<T: Value> {
    name: &'static str,
    description: &'static str,
    value: RwLock<T, spec_fn(T) -> bool>,
}

impl<T: Value> InnerCVar<T> {
    /// The lock admits every value of the type.
    #[verifier::type_invariant]
    spec fn admits_all(self) -> bool {
        forall|v: T| #[trigger] self.value.inv(v)
    }
}

/// A handle to a console variable. Handles are duplicated by [`Clone`],
/// which shares the cell rather than copying it.
#[verifier::reject_recursive_types(T)]
pub struct CVar<T: Value>(Arc<InnerCVar<T>>);

impl<T: Value> CVar<T> {
    /// The lock that holds the value; handles of one cell share it.
    pub closed spec fn cell(&self) -> RwLock<T, spec_fn(T) -> bool> {
        self.0.value
    }

    pub closed spec fn name_view(&self) -> Seq<char> {
        self.0.name@
    }

    pub closed spec fn description_view(&self) -> Seq<char> {
        self.0.description@
    }

    /// Makes a cell holding `value` and returns the first handle to it.
    pub fn new(name: &'static str, description: &'static str, value: T) -> (r: Self)
        ensures
            r.name_view() == name@,
            r.description_view() == description@,
    {
        let lock = RwLock::new(value, Ghost(|v: T| true));
        CVar(Arc::new(InnerCVar { name, description, value: lock }))
    }

    pub fn name(&self) -> (r: &'static str)
        ensures
            r@ == self.name_view(),
    {
        self.0.name
    }

    pub fn description(&self) -> (r: &'static str)
        ensures
            r@ == self.description_view(),
    {
        self.0.description
    }

    /// A clone of the value the cell holds at the moment of reading, taken
    /// under the shared lock. The library's own value types clone without
    /// panicking; a `Clone` impl of another type that panics here would leave
    /// the read lock held, and later writers would wait for good.
    pub fn get(&self) -> (r: T)
        where T: Clone,
        ensures
            exists|v: T| self.cell().inv(v) && cloned::<T>(v, r),
    {
        let handle = self.0.value.acquire_read();
        let ghost held = handle.view();
        let v = handle.borrow().clone();
        proof {
            assert(self.cell().inv(held));
            assert(cloned::<T>(held, v));
        }
        handle.release_read();
        v
    }

    /// Replaces the value under the exclusive lock.
    pub fn set(&self, value: T) {
        proof {
            use_type_invariant(&*self.0);
        }
        let (_old, handle) = self.0.value.acquire_write();
        handle.release_write(value);
    }
}

impl<T: Value> Clone for CVar<T> {
    /// Another handle to the same cell.
    fn clone(&self) -> (r: Self)
        ensures
            r.cell() == self.cell(),
            r.name_view() == self.name_view(),
            r.description_view() == self.description_view(),
    {
        CVar(share(&self.0))
    }
}

} // verus!
