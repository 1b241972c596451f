//! The batch verifier: resolves a whole table of locations, never
//! short-circuiting, and collects one failure report per location whose
//! signature was not found.

use vstd::prelude::*;
use vstd::string::StringExecFns;

use crate::location::{bounds_ok, resolved_from, MemoryLocation};

verus! {

/// The fixed text that precedes the failing location's name in a report.
pub open spec fn failure_prefix() -> Seq<char> {
    "Failed to find "@
}

/// The fixed text that follows the failing location's name in a report:
/// the likely causes and the consequence for dependent functionality.
pub open spec fn failure_suffix() -> Seq<char> {
    " in memory. This may be caused by an incompatible co-installed modification, or by an update to the host application. The dependent functionality stays disabled."@
}

/// The full diagnostic message owed for a location named `name`.
pub open spec fn failure_message(name: Seq<char>) -> Seq<char> {
    failure_prefix() + name + failure_suffix()
}

/// One report handed to the failure sink: the failing location's name and
/// the diagnostic message built around it.
pub struct FailureReport {
    /// The name of the location whose signature was not found.
    pub name: String,
    /// The message owed to the operator, `failure_message(name@)`.
    pub message: String,
}

/// The names carried by a sequence of reports, in order.
pub open spec fn report_names(reports: Seq<FailureReport>) -> Seq<Seq<char>> {
    reports.map_values(|f: FailureReport| f.name@)
}

/// The names of the locations of `locs` whose state is `NotFound`, in the
/// order the locations stand in.
pub open spec fn failed_names(locs: Seq<MemoryLocation>) -> Seq<Seq<char>>
    decreases locs.len(),
{
    if locs.len() == 0 {
        Seq::empty()
    } else if locs.last().state() is NotFound {
        failed_names(locs.drop_last()).push(locs.last().label())
    } else {
        failed_names(locs.drop_last())
    }
}

/// Appending one location extends the failed names by its name exactly when
/// its state is `NotFound`.
proof fn lemma_failed_names_push(s: Seq<MemoryLocation>, x: MemoryLocation)
    ensures
        failed_names(s.push(x)) == if x.state() is NotFound {
            failed_names(s).push(x.label())
        } else {
            failed_names(s)
        },
{
    assert(s.push(x).drop_last() =~= s);
    assert(s.push(x).last() == x);
}

/// A sequence without a `NotFound` location yields no failed names.
proof fn lemma_failed_names_empty(s: Seq<MemoryLocation>)
    requires
        forall|i: int| 0 <= i < s.len() ==> !((#[trigger] s[i]).state() is NotFound),
    ensures
        failed_names(s).len() == 0,
    decreases s.len(),
{
    if s.len() > 0 {
        lemma_failed_names_empty(s.drop_last());
    }
}

/// A sequence that yields a failed name holds a `NotFound` location.
proof fn lemma_failed_names_nonempty(s: Seq<MemoryLocation>)
    requires
        failed_names(s).len() > 0,
    ensures
        exists|i: int| 0 <= i < s.len() && (#[trigger] s[i]).state() is NotFound,
    decreases s.len(),
{
    if s.len() > 0 {
        if s.last().state() is NotFound {
            assert(s[s.len() - 1].state() is NotFound);
        } else {
            lemma_failed_names_nonempty(s.drop_last());
            let i = choose|i: int|
                0 <= i < s.drop_last().len() && (#[trigger] s.drop_last()[i]).state() is NotFound;
            assert(s[i].state() is NotFound);
        }
    }
}

/// Builds the report owed for a failing location named `name`.
fn build_report(name: &String) -> (r: FailureReport)
    ensures
        r.name@ == name@,
        r.message@ == failure_message(name@),
{
    let mut message = String::new();
    message.append("Failed to find ");
    message.append(name.as_str());
    message.append(
        " in memory. This may be caused by an incompatible co-installed modification, or by an update to the host application. The dependent functionality stays disabled.",
    );
    proof {
        assert(message@ =~= failure_message(name@));
    }
    FailureReport { name: name.clone(), message }
}

/// What one batch verification returns: the aggregate outcome and one
/// report per failing location.
pub struct BatchOutcome {
    /// `true` exactly when every location resolved to an address.
    pub ok: bool,
    /// One report, in table order, for each location whose signature was
    /// not found.
    pub failures: Vec<FailureReport>,
}

/// Resolves every location of the table against the `region` bytes loaded
/// at absolute address `base`, never skipping a later location because an
/// earlier one failed.
///
/// Returns `ok == true` exactly when every location ends in `Found`, and
/// one failure report — name plus diagnostic message — for each location
/// that ends in `NotFound`, in table order.
pub fn verify_all(locations: &mut Vec<MemoryLocation>, region: &[u8], base: usize) -> (r:
    BatchOutcome)
    requires
        forall|i: int| 0 <= i < old(locations)@.len() ==> (#[trigger] old(locations)@[i]).wf(),
        forall|i: int|
            0 <= i < old(locations)@.len() ==> ((#[trigger] old(locations)@[i]).state()
                is Unresolved ==> bounds_ok(
                region@.len(),
                base as int,
                old(locations)@[i].offset(),
            )),
    ensures
        final(locations)@.len() == old(locations)@.len(),
        forall|i: int|
            0 <= i < old(locations)@.len() ==> resolved_from(
                #[trigger] old(locations)@[i],
                final(locations)@[i],
                region@,
                base as int,
            ),
        r.ok <==> (forall|i: int|
            0 <= i < final(locations)@.len() ==> (#[trigger] final(locations)@[i]).state()
                is Found),
        r.ok <==> r.failures@.len() == 0,
        report_names(r.failures@) == failed_names(final(locations)@),
        forall|k: int|
            0 <= k < r.failures@.len() ==> (#[trigger] r.failures@[k]).message@
                == failure_message(r.failures@[k].name@),
{
    let mut failures: Vec<FailureReport> = Vec::new();
    let mut ok = true;
    let n = locations.len();
    let mut i: usize = 0;
    while i < n
        invariant
            n == locations@.len(),
            locations@.len() == old(locations)@.len(),
            0 <= i <= n,
            forall|j: int| i <= j < n ==> locations@[j] == old(locations)@[j],
            forall|j: int| 0 <= j < n ==> (#[trigger] old(locations)@[j]).wf(),
            forall|j: int|
                0 <= j < n ==> ((#[trigger] old(locations)@[j]).state() is Unresolved
                    ==> bounds_ok(region@.len(), base as int, old(locations)@[j].offset())),
            forall|j: int|
                0 <= j < i ==> resolved_from(
                    #[trigger] old(locations)@[j],
                    locations@[j],
                    region@,
                    base as int,
                ),
            ok ==> (forall|j: int| 0 <= j < i ==> (#[trigger] locations@[j]).state() is Found),
            !ok ==> failures@.len() > 0,
            report_names(failures@) == failed_names(locations@.subrange(0, i as int)),
            forall|k: int|
                0 <= k < failures@.len() ==> (#[trigger] failures@[k]).message@
                    == failure_message(failures@[k].name@),
        decreases n - i,
    {
        let ghost prev = locations@;
        let ghost prev_failures = failures@;
        let loc = &mut locations[i];
        let res = loc.resolve(region, base);
        if res.is_none() {
            ok = false;
            let report = build_report(loc.name());
            failures.push(report);
        }
        proof {
            let cur = locations@[i as int];
            assert(resolved_from(prev[i as int], cur, region@, base as int));
            assert(res is Some <==> cur.state() is Found);
            assert(locations@.subrange(0, i as int) =~= prev.subrange(0, i as int));
            assert(locations@.subrange(0, i + 1) =~= locations@.subrange(0, i as int).push(cur));
            lemma_failed_names_push(locations@.subrange(0, i as int), cur);
            if cur.state() is NotFound {
                assert(report_names(failures@) =~= report_names(prev_failures).push(
                    failures@.last().name@,
                ));
            }
        }
        i += 1;
    }
    proof {
        assert(locations@.subrange(0, n as int) =~= locations@);
        assert(failures@.len() == report_names(failures@).len());
        if ok {
            assert(forall|j: int|
                0 <= j < n ==> !((#[trigger] locations@[j]).state() is NotFound));
            lemma_failed_names_empty(locations@);
            assert(report_names(failures@).len() == 0);
        } else {
            lemma_failed_names_nonempty(locations@);
            let j = choose|j: int|
                0 <= j < locations@.len() && (#[trigger] locations@[j]).state() is NotFound;
            assert(!(locations@[j].state() is Found));
        }
    }
    BatchOutcome { ok, failures }
}

} // verus!
