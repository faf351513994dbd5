//! Wrapper around one engine-owned object: the handles it was created
//! with, emptied when the object is destroyed, so that every later
//! access fails with a distinct "object no longer valid" error
//! instead of touching the stale handle.

use vstd::prelude::*;

verus! {

use crate::types::{ObjectNoLongerValid, RawBaseObjectPointer};

/// Wrapper around one engine object. `inherit_ptrs` carries whatever
/// kind-specific secondary handles the object type needs for typed
/// calls; like the main handles it is given up on destruction.
pub struct BaseObjectWrapper<InheritPtrs> {
    pub ptr: Option<RawBaseObjectPointer>,
    pub base_ptr: Option<RawBaseObjectPointer>,
    pub inherit_ptrs: Option<InheritPtrs>,
}

impl<InheritPtrs> BaseObjectWrapper<InheritPtrs> {
    /// Whether the wrapped object is still alive.
    pub open spec fn spec_valid(self) -> bool {
        self.ptr is Some
    }

    /// Wraps a freshly created object.
    pub fn new(
        ptr: RawBaseObjectPointer,
        base_ptr: RawBaseObjectPointer,
        inherit_ptrs: InheritPtrs,
    ) -> (r: BaseObjectWrapper<InheritPtrs>)
        ensures
            r.ptr == Some(ptr),
            r.base_ptr == Some(base_ptr),
            r.inherit_ptrs == Some(inherit_ptrs),
            r.spec_valid(),
    {
        BaseObjectWrapper { ptr: Some(ptr), base_ptr: Some(base_ptr), inherit_ptrs: Some(
            inherit_ptrs,
        ) }
    }

    /// The kind-specific handle, or the stale-access error once the
    /// object has been destroyed.
    pub fn ptr(&self) -> (r: Result<RawBaseObjectPointer, ObjectNoLongerValid>)
        ensures
            r == (match self.ptr {
                Some(p) => Ok::<RawBaseObjectPointer, ObjectNoLongerValid>(p),
                None => Err::<RawBaseObjectPointer, ObjectNoLongerValid>(ObjectNoLongerValid),
            }),
    {
        match self.ptr {
            Some(p) => Ok(p),
            None => Err(ObjectNoLongerValid),
        }
    }

    /// The base-object handle, or the stale-access error once the
    /// object has been destroyed.
    pub fn base_ptr(&self) -> (r: Result<RawBaseObjectPointer, ObjectNoLongerValid>)
        ensures
            r == (match self.base_ptr {
                Some(p) => Ok::<RawBaseObjectPointer, ObjectNoLongerValid>(p),
                None => Err::<RawBaseObjectPointer, ObjectNoLongerValid>(ObjectNoLongerValid),
            }),
    {
        match self.base_ptr {
            Some(p) => Ok(p),
            None => Err(ObjectNoLongerValid),
        }
    }

    /// Marks the object destroyed: every handle is given up, and any
    /// later access through this wrapper fails. Destroying twice
    /// fails with the same stale-access error and changes nothing.
    pub fn internal_destroy(&mut self) -> (r: Result<(), ObjectNoLongerValid>)
        ensures
            old(self).spec_valid() ==> {
                &&& r == Ok::<(), ObjectNoLongerValid>(())
                &&& final(self).ptr is None
                &&& final(self).base_ptr is None
                &&& final(self).inherit_ptrs is None
            },
            !old(self).spec_valid() ==> {
                &&& r == Err::<(), ObjectNoLongerValid>(ObjectNoLongerValid)
                &&& *final(self) == *old(self)
            },
    {
        if self.ptr.is_some() {
            self.ptr = None;
            self.base_ptr = None;
            self.inherit_ptrs = None;
            Ok(())
        } else {
            Err(ObjectNoLongerValid)
        }
    }
}

} // verus!
