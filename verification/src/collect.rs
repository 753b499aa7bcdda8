//! The result collector: aggregate the ports reported by the probe attempts
//! into a deterministic, ascending sequence, whatever order the reports
//! arrived in.

use vstd::prelude::*;
use vstd::relations::{sorted_by, total_ordering};
use vstd::seq_lib::lemma_sorted_unique;
use crate::request::{port_in_range, ScanRequest};

verus! {

/// Ascending numeric order on ports, as a relation.
pub open spec fn port_order() -> spec_fn(u16, u16) -> bool {
    |x: u16, y: u16| x <= y
}

/// The deterministic result that a collection of reported ports yields:
/// the same ports, in ascending numeric order.
pub open spec fn sorted_of(reports: Seq<u16>) -> Seq<u16> {
    reports.sort_by(port_order())
}

/// Each entry is strictly smaller than every later one: ascending with no
/// duplicates.
pub open spec fn strictly_ascending(s: Seq<u16>) -> bool {
    forall|i: int, j: int| 0 <= i < j < s.len() ==> s[i] < s[j]
}

pub proof fn lemma_port_order_total()
    ensures
        total_ordering(port_order()),
{
    assert forall|x: u16| #[trigger] port_order()(x, x) by {}
    assert forall|x: u16, y: u16| #[trigger] port_order()(x, y) || #[trigger] port_order()(y, x) by {}
}

/// What sorting guarantees: the result is ordered and holds exactly the
/// reported ports.
pub proof fn lemma_sorted_of_ensures(reports: Seq<u16>)
    ensures
        sorted_of(reports).to_multiset() == reports.to_multiset(),
        sorted_by(sorted_of(reports), port_order()),
        sorted_of(reports).len() == reports.len(),
        forall|p: u16| reports.contains(p) <==> sorted_of(reports).contains(p),
{
    broadcast use vstd::seq_lib::group_to_multiset_ensures;

    lemma_port_order_total();
    reports.lemma_sort_by_ensures(port_order());
    assert(reports.to_multiset().len() == reports.len());
    assert(sorted_of(reports).to_multiset().len() == sorted_of(reports).len());
    assert forall|p: u16| reports.contains(p) <==> sorted_of(reports).contains(p) by {
        if reports.contains(p) {
            assert(reports.to_multiset().count(p) > 0);
            assert(sorted_of(reports).to_multiset().count(p) > 0);
        }
    }
}

/// Insert `x` into the sorted vector `v`, keeping it sorted.
fn insert_sorted(v: &mut Vec<u16>, x: u16)
    requires
        sorted_by(old(v)@, port_order()),
        old(v)@.len() < usize::MAX,
    ensures
        sorted_by(final(v)@, port_order()),
        final(v)@.to_multiset() == old(v)@.to_multiset().insert(x),
        final(v)@.len() == old(v)@.len() + 1,
{
    broadcast use vstd::seq_lib::to_multiset_insert;

    let mut i: usize = 0;
    while i < v.len() && v[i] <= x
        invariant
            i <= v@.len(),
            v@ == old(v)@,
            forall|k: int| 0 <= k < i ==> #[trigger] v@[k] <= x,
        decreases v@.len() - i,
    {
        i = i + 1;
    }
    proof {
        old(v)@.insert_ensures(i as int, x);
    }
    v.insert(i, x);
    assert forall|a: int, b: int| 0 <= a < b < v@.len() implies #[trigger] port_order()(
        v@[a],
        v@[b],
    ) by {
        assert(sorted_by(old(v)@, port_order()));
        if a < i && b > i {
            assert(port_order()(old(v)@[a], old(v)@[b - 1]) || a == b - 1);
        }
        if a == i && b > i {
            // everything at or past the insertion point was greater than x
            assert(old(v)@[i as int] > x);
            assert(port_order()(old(v)@[i as int], old(v)@[b - 1]) || i == b - 1);
        }
    }
}

/// Collector post-processing: sort the reported ports in ascending order.
///
/// The result is exactly `sorted_of` of the reports, so it is fixed by the
/// multiset of reports alone: arrival order cannot leak into it.
pub fn sort_ports(reports: Vec<u16>) -> (r: Vec<u16>)
    ensures
        r@ == sorted_of(reports@),
        r@.to_multiset() == reports@.to_multiset(),
        sorted_by(r@, port_order()),
        r@.len() == reports@.len(),
{
    broadcast use vstd::seq_lib::group_to_multiset_ensures;

    let mut r: Vec<u16> = Vec::new();
    assert(reports@.take(0).to_multiset() =~= Seq::<u16>::empty().to_multiset());
    let mut i: usize = 0;
    while i < reports.len()
        invariant
            i <= reports@.len(),
            sorted_by(r@, port_order()),
            r@.to_multiset() == reports@.take(i as int).to_multiset(),
            r@.len() == i,
        decreases reports@.len() - i,
    {
        let x = reports[i];
        proof {
            broadcast use vstd::seq_lib::group_to_multiset_ensures;

            assert(reports@.take(i + 1) =~= reports@.take(i as int).push(x));
        }
        insert_sorted(&mut r, x);
        i = i + 1;
    }
    proof {
        assert(reports@.take(reports@.len() as int) =~= reports@);
        lemma_port_order_total();
        reports@.lemma_sort_by_ensures(port_order());
        lemma_sorted_unique(r@, sorted_of(reports@), port_order());
    }
    r
}

/// Law: the result is a subset of the scanned range. If every individual
/// report lies in `[from_port, to_port)`, so does every entry of the final
/// sorted result.
pub proof fn lemma_result_within_range(req: ScanRequest, reports: Seq<u16>)
    requires
        forall|k: int| 0 <= k < reports.len() ==> port_in_range(req, #[trigger] reports[k]),
    ensures
        forall|k: int|
            0 <= k < sorted_of(reports).len() ==> port_in_range(
                req,
                #[trigger] sorted_of(reports)[k],
            ),
{
    lemma_sorted_of_ensures(reports);
    assert forall|k: int| 0 <= k < sorted_of(reports).len() implies port_in_range(
        req,
        sorted_of(reports)[k],
    ) by {
        let p = sorted_of(reports)[k];
        assert(sorted_of(reports).contains(p));
        assert(reports.contains(p));
        let j = choose|j: int| 0 <= j < reports.len() && reports[j] == p;
        assert(port_in_range(req, reports[j]));
    }
}

/// Law: with each port reported at most once, the final result is strictly
/// ascending — sorted with no duplicates.
pub proof fn lemma_result_strictly_ascending(reports: Seq<u16>)
    requires
        reports.no_duplicates(),
    ensures
        strictly_ascending(sorted_of(reports)),
{
    lemma_sorted_of_ensures(reports);
    reports.lemma_multiset_has_no_duplicates();
    sorted_of(reports).lemma_multiset_has_no_duplicates_conv();
    assert forall|i: int, j: int|
        0 <= i < j < sorted_of(reports).len() implies sorted_of(reports)[i] < sorted_of(
        reports,
    )[j] by {
        assert(port_order()(sorted_of(reports)[i], sorted_of(reports)[j]));
        assert(sorted_of(reports)[i] != sorted_of(reports)[j]);
    }
}

/// Law: an empty range admits no result. With `from_port >= to_port` every
/// report sequence consistent with the range is empty, and so is the sorted
/// result.
pub proof fn lemma_empty_range_empty_result(req: ScanRequest, reports: Seq<u16>)
    requires
        req.from_port >= req.to_port,
        forall|k: int| 0 <= k < reports.len() ==> port_in_range(req, #[trigger] reports[k]),
    ensures
        reports == Seq::<u16>::empty(),
        sorted_of(reports) == Seq::<u16>::empty(),
{
    if reports.len() > 0 {
        assert(port_in_range(req, reports[0]));
    }
    assert(reports =~= Seq::<u16>::empty());
    lemma_sorted_of_ensures(reports);
    broadcast use vstd::seq_lib::group_to_multiset_ensures;

    assert(sorted_of(reports) =~= Seq::<u16>::empty());
}

/// Law (order independence): the final sorted result depends only on which
/// ports were reported, never on the order in which the reports arrived.
pub proof fn lemma_result_order_independent(r1: Seq<u16>, r2: Seq<u16>)
    requires
        r1.to_multiset() == r2.to_multiset(),
    ensures
        sorted_of(r1) == sorted_of(r2),
{
    lemma_port_order_total();
    r1.lemma_sort_by_ensures(port_order());
    r2.lemma_sort_by_ensures(port_order());
    lemma_sorted_unique(sorted_of(r1), sorted_of(r2), port_order());
}

/// Law (idempotence): two scans of the same target over the same range give
/// the same sorted result. A scan outcome is any duplicate-free report
/// sequence holding exactly the open ports of the range.
pub proof fn lemma_scan_idempotent(req: ScanRequest, open: Set<u16>, r1: Seq<u16>, r2: Seq<u16>)
    requires
        r1.no_duplicates(),
        r2.no_duplicates(),
        forall|p: u16| r1.contains(p) <==> port_in_range(req, p) && open.contains(p),
        forall|p: u16| r2.contains(p) <==> port_in_range(req, p) && open.contains(p),
    ensures
        sorted_of(r1) == sorted_of(r2),
{
    broadcast use vstd::seq_lib::group_to_multiset_ensures;

    r1.lemma_multiset_has_no_duplicates();
    r2.lemma_multiset_has_no_duplicates();
    assert forall|p: u16| r1.to_multiset().count(p) == r2.to_multiset().count(p) by {
        if r1.contains(p) {
            assert(r1.to_multiset().contains(p));
            assert(r2.to_multiset().contains(p));
        } else {
            assert(!r2.contains(p));
            assert(r1.to_multiset().count(p) == 0);
            assert(r2.to_multiset().count(p) == 0);
        }
    }
    assert(r1.to_multiset() =~= r2.to_multiset());
    lemma_result_order_independent(r1, r2);
}

} // verus!
