//! A memory location: a named signature with a fixed offset, resolved to an
//! absolute address at most once and memoized thereafter.

use vstd::prelude::*;

use crate::search;

verus! {

/// The memoized outcome of resolving one location. It starts `Unresolved`
/// and moves exactly once to a terminal state, `Found` or `NotFound`.
#[derive(Clone, Copy, PartialEq, Eq, Structural, Debug)]
pub enum Resolution {
    /// No resolution has been attempted yet.
    Unresolved,
    /// The signature was found; the payload is the absolute address of
    /// interest (first matched byte plus the location's offset).
    Found(usize),
    /// The signature occurs nowhere in the searched region.
    NotFound,
}

/// The lowest index at which `needle` occurs in `haystack`; meaningful only
/// when `occurs(haystack, needle)` holds.
pub open spec fn first_match_index(haystack: Seq<u8>, needle: Seq<u8>) -> int {
    choose|i: int| search::is_first_match(haystack, needle, i)
}

/// Wherever the signature occurs at all, `first_match_index` names its
/// lowest occurrence.
pub proof fn lemma_first_match_index_valid(haystack: Seq<u8>, needle: Seq<u8>)
    requires
        search::occurs(haystack, needle),
    ensures
        search::is_first_match(haystack, needle, first_match_index(haystack, needle)),
{
    let i = choose|i: int| search::is_match_at(haystack, needle, i);
    search::lemma_first_match_exists(haystack, needle, i);
}

/// The machine limits under which a resolved address is representable:
/// the region itself fits in the address space, and the offset moves no
/// address within it below zero or beyond `usize::MAX`.
pub open spec fn bounds_ok(region_len: nat, base: int, off: int) -> bool {
    &&& base + region_len <= usize::MAX
    &&& 0 <= base + off
    &&& base + region_len + off <= usize::MAX
}

/// What one resolution attempt leaves behind: a fresh scan of `region`
/// yields `Found(base + m + off)` for the first match index `m`, or
/// `NotFound` when the signature occurs nowhere.
pub open spec fn fresh_resolution(region: Seq<u8>, sig: Seq<u8>, base: int, off: int) -> Resolution {
    if search::occurs(region, sig) {
        Resolution::Found((base + first_match_index(region, sig) + off) as usize)
    } else {
        Resolution::NotFound
    }
}

/// How a location after a `resolve` call relates to the location before it:
/// the descriptor (signature, offset, name) is untouched, the state is
/// terminal, a terminal state is kept as it was, and an unresolved state
/// becomes the outcome of one fresh scan.
pub open spec fn resolved_from(
    before: MemoryLocation,
    after: MemoryLocation,
    region: Seq<u8>,
    base: int,
) -> bool {
    &&& after.sig() == before.sig()
    &&& after.offset() == before.offset()
    &&& after.label() == before.label()
    &&& !(after.state() is Unresolved)
    &&& !(before.state() is Unresolved) ==> after.state() == before.state()
    &&& before.state() is Unresolved ==> after.state() == fresh_resolution(
        region,
        before.sig(),
        base,
        before.offset(),
    )
}

/// One target to locate: an immutable descriptor (a non-empty signature, a
/// signed byte offset and a diagnostic name) together with the memoized
/// resolution state.
pub struct MemoryLocation {
    signature: Vec<u8>,
    start_offset: isize,
    name: String,
    resolved: Resolution,
}

impl MemoryLocation {
    /// The signature bytes searched for.
    pub closed spec fn sig(&self) -> Seq<u8> {
        self.signature@
    }

    /// The signed displacement applied to the first matched byte's address.
    pub closed spec fn offset(&self) -> int {
        self.start_offset as int
    }

    /// The human-readable name, used only for diagnostics.
    pub closed spec fn label(&self) -> Seq<char> {
        self.name@
    }

    /// The memoized resolution state.
    pub closed spec fn state(&self) -> Resolution {
        self.resolved
    }

    /// A well-formed location carries a non-empty signature.
    pub open spec fn wf(&self) -> bool {
        self.sig().len() > 0
    }

    /// Builds a location with its descriptor fixed and its cache empty.
    pub fn new(signature: Vec<u8>, start_offset: isize, name: String) -> (r: MemoryLocation)
        requires
            signature@.len() > 0,
        ensures
            r.sig() == signature@,
            r.offset() == start_offset as int,
            r.label() == name@,
            r.state() is Unresolved,
            r.wf(),
    {
        MemoryLocation { signature, start_offset, name, resolved: Resolution::Unresolved }
    }

    /// The signature bytes.
    pub fn signature(&self) -> (r: &Vec<u8>)
        ensures
            r@ == self.sig(),
    {
        &self.signature
    }

    /// The signed offset.
    pub fn start_offset(&self) -> (r: isize)
        ensures
            r as int == self.offset(),
    {
        self.start_offset
    }

    /// The diagnostic name.
    pub fn name(&self) -> (r: &String)
        ensures
            r@ == self.label(),
    {
        &self.name
    }

    /// The current memoized state, without resolving.
    pub fn resolution(&self) -> (r: Resolution)
        ensures
            r == self.state(),
    {
        self.resolved
    }

    /// Resolves this location against the `region` bytes loaded at absolute
    /// address `base`.
    ///
    /// The first call scans the region for the signature's first occurrence
    /// and stores `Found(base + m + start_offset)` for a match at index `m`,
    /// or `NotFound` when the signature occurs nowhere; every later call
    /// returns the memoized terminal value without rescanning, whatever
    /// region it is handed.
    pub fn resolve(&mut self, region: &[u8], base: usize) -> (r: Option<usize>)
        requires
            old(self).wf(),
            old(self).state() is Unresolved ==> bounds_ok(
                region@.len(),
                base as int,
                old(self).offset(),
            ),
        ensures
            resolved_from(*old(self), *final(self), region@, base as int),
            final(self).wf(),
            r is Some <==> final(self).state() is Found,
            r matches Some(a) ==> final(self).state() == Resolution::Found(a),
            old(self).state() matches Resolution::Found(a) ==> r == Some(a),
            old(self).state() is NotFound ==> r is None,
            old(self).state() is Unresolved && search::occurs(region@, old(self).sig()) ==> r
                == Some(
                (base + first_match_index(region@, old(self).sig()) + old(self).offset()) as usize,
            ),
            old(self).state() is Unresolved && !search::occurs(region@, old(self).sig()) ==> r
                is None,
    {
        let cached = self.resolved;
        match cached {
            Resolution::Found(a) => Some(a),
            Resolution::NotFound => None,
            Resolution::Unresolved => {
                let found = search::find(region, self.signature.as_slice());
                match found {
                    Some(m) => {
                        proof {
                            assert(search::is_first_match(region@, self.sig(), m as int));
                            lemma_first_match_index_valid(region@, self.sig());
                            search::lemma_first_match_unique(
                                region@,
                                self.sig(),
                                first_match_index(region@, self.sig()),
                                m as int,
                            );
                        }
                        let off = self.start_offset;
                        let sum = base + m;
                        let addr: usize = if off >= 0 {
                            sum + (off as usize)
                        } else {
                            sum - ((-(off as i128)) as usize)
                        };
                        assert(addr as int == base + m + self.offset());
                        self.resolved = Resolution::Found(addr);
                        Some(addr)
                    },
                    None => {
                        self.resolved = Resolution::NotFound;
                        None
                    },
                }
            },
        }
    }
}

} // verus!
