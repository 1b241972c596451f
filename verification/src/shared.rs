//! A location shared between concurrent callers: the memo cell sits behind
//! a verified reader-writer lock whose invariant only admits the one value
//! a fresh scan of the fixed region can produce. Whichever caller performs
//! the scan, every caller observes that same terminal value.

use vstd::prelude::*;
use vstd::rwlock::RwLock;

use crate::location::{bounds_ok, first_match_index, fresh_resolution, MemoryLocation};
use crate::search;

verus! {

/// The value that resolving against `region` loaded at `base` must return:
/// the offset-adjusted address of the first match, or nothing.
pub open spec fn resolved_outcome(region: Seq<u8>, sig: Seq<u8>, base: int, off: int) -> Option<
    usize,
> {
    if search::occurs(region, sig) {
        Some((base + first_match_index(region, sig) + off) as usize)
    } else {
        None
    }
}

/// The lock invariant of a shared location: the descriptor never changes,
/// and the state is either still unresolved or exactly the outcome of one
/// fresh scan of the fixed region.
pub open spec fn shared_pred(
    region: Seq<u8>,
    sig: Seq<u8>,
    base: int,
    off: int,
    label: Seq<char>,
) -> spec_fn(MemoryLocation) -> bool {
    |v: MemoryLocation|
        {
            &&& v.sig() == sig
            &&& v.offset() == off
            &&& v.label() == label
            &&& (v.state() is Unresolved || v.state() == fresh_resolution(region, sig, base, off))
        }
}

/// A memory location whose memoization cell may be queried from many call
/// sites holding only a shared reference. The searchable region and its
/// base address are fixed when the location is shared, mirroring a region
/// that stays in place for the whole process run.
pub struct SharedLocation {
    lock: RwLock<MemoryLocation, spec_fn(MemoryLocation) -> bool>,
    region: Ghost<Seq<u8>>,
    base: usize,
    sig: Ghost<Seq<u8>>,
    off: Ghost<int>,
    label: Ghost<Seq<char>>,
}

impl SharedLocation {
    /// The signature bytes searched for.
    pub closed spec fn sig(&self) -> Seq<u8> {
        self.sig@
    }

    /// The signed displacement applied to the first matched byte's address.
    pub closed spec fn offset(&self) -> int {
        self.off@
    }

    /// The human-readable name, used only for diagnostics.
    pub closed spec fn label(&self) -> Seq<char> {
        self.label@
    }

    /// The bytes of the region fixed at construction.
    pub closed spec fn region_view(&self) -> Seq<u8> {
        self.region@
    }

    /// The absolute address the fixed region is loaded at.
    pub closed spec fn base_spec(&self) -> int {
        self.base as int
    }

    /// A well-formed shared location: the lock's invariant is the one built
    /// from this location's descriptor and region, the signature is
    /// non-empty, and every address the offset can produce is representable.
    pub closed spec fn wf(&self) -> bool {
        &&& self.lock.pred() == shared_pred(
            self.region@,
            self.sig@,
            self.base as int,
            self.off@,
            self.label@,
        )
        &&& self.sig@.len() > 0
        &&& bounds_ok(self.region@.len(), self.base as int, self.off@)
    }

    /// Shares a not-yet-resolved location, fixing the region snapshot and
    /// base address every later `resolve` call must present again.
    pub fn new(loc: MemoryLocation, region: &[u8], base: usize) -> (r: SharedLocation)
        requires
            loc.wf(),
            loc.state() is Unresolved,
            bounds_ok(region@.len(), base as int, loc.offset()),
        ensures
            r.wf(),
            r.sig() == loc.sig(),
            r.offset() == loc.offset(),
            r.label() == loc.label(),
            r.region_view() == region@,
            r.base_spec() == base as int,
    {
        let ghost pred = shared_pred(region@, loc.sig(), base as int, loc.offset(), loc.label());
        proof {
            assert(pred(loc));
        }
        let ghost sig = loc.sig();
        let ghost off = loc.offset();
        let ghost label = loc.label();
        SharedLocation {
            lock: RwLock::new(loc, Ghost(pred)),
            region: Ghost(region@),
            base,
            sig: Ghost(sig),
            off: Ghost(off),
            label: Ghost(label),
        }
    }

    /// Resolves under the lock. The first caller to take the write lock
    /// pays for the scan and stores its outcome; every other caller, before
    /// or after, leaves with the very same value, because the lock admits
    /// no other terminal state.
    pub fn resolve(&self, region: &[u8], base: usize) -> (r: Option<usize>)
        requires
            self.wf(),
            region@ == self.region_view(),
            base as int == self.base_spec(),
        ensures
            r == resolved_outcome(self.region_view(), self.sig(), self.base_spec(), self.offset()),
    {
        let (mut loc, handle) = self.lock.acquire_write();
        let r = loc.resolve(region, base);
        proof {
            assert(self.lock.inv(loc));
        }
        handle.release_write(loc);
        r
    }
}

} // verus!
