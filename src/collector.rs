use vstd::prelude::*;
use vstd::relations::{sorted_by, total_ordering};
use crate::irritation::{irritation_le, lemma_irritation_order, Irritation, IrritationView};

verus! {

broadcast use vstd::seq_lib::group_to_multiset_ensures;

/// The cap on the number of irritations reported.
#[derive(Clone, Copy, Debug, PartialEq, Eq, Structural)]
pub enum MaxProblems {
    Unlimited,
    Limited(u32),
}

pub open spec fn views(s: Seq<Irritation>) -> Seq<IrritationView> {
    s.map_values(|i: Irritation| i@)
}

pub open spec fn irritation_order() -> spec_fn(IrritationView, IrritationView) -> bool {
    |a: IrritationView, b: IrritationView| irritation_le(a, b)
}

/// The first `max` entries of `s`, or all of them where the cap allows.
pub open spec fn capped<T>(s: Seq<T>, max: MaxProblems) -> Seq<T> {
    match max {
        MaxProblems::Limited(n) => if (n as int) < s.len() {
            s.subrange(0, n as int)
        } else {
            s
        },
        MaxProblems::Unlimited => s,
    }
}

/// What the run reports of the irritations raised: all of them in the irritation
/// order, cut down to the cap.
pub open spec fn report_of(raised: Seq<IrritationView>, max: MaxProblems) -> Seq<IrritationView> {
    capped(raised.sort_by(irritation_order()), max)
}

/// The irritation order is a total order.
pub proof fn lemma_irritation_total_order()
    ensures
        total_ordering(irritation_order()),
{
    let ord = irritation_order();
    assert forall|x: IrritationView| #[trigger] ord(x, x) by {
        lemma_irritation_order(x, x, x);
    }
    assert forall|x: IrritationView, y: IrritationView| #[trigger] ord(x, y) && #[trigger] ord(
        y,
        x,
    ) implies x == y by {
        lemma_irritation_order(x, y, x);
    }
    assert forall|x: IrritationView, y: IrritationView, z: IrritationView| #[trigger] ord(x, y)
        && #[trigger] ord(y, z) implies ord(x, z) by {
        lemma_irritation_order(x, y, z);
    }
    assert forall|x: IrritationView, y: IrritationView| #[trigger] ord(x, y) || #[trigger] ord(
        y,
        x,
    ) by {
        lemma_irritation_order(x, y, x);
    }
}

/// Under a total order, a sequence is fixed by its elements once it is sorted.
pub proof fn lemma_sorted_unique<T>(a: Seq<T>, b: Seq<T>, leq: spec_fn(T, T) -> bool)
    requires
        total_ordering(leq),
        sorted_by(a, leq),
        sorted_by(b, leq),
        a.to_multiset() == b.to_multiset(),
    ensures
        a == b,
    decreases a.len(),
{
    assert(a.len() == a.to_multiset().len());
    assert(b.len() == b.to_multiset().len());
    if a.len() == 0 {
        assert(a =~= b);
    } else {
        assert(a.contains(a[0]) ==> a.to_multiset().count(a[0]) > 0);
        assert(a.contains(a[0]));
        assert(b.contains(a[0]));
        let k = choose|k: int| 0 <= k < b.len() && b[k] == a[0];
        if k > 0 {
            assert(leq(b[0], b[k]));
        }
        assert(b.contains(b[0]));
        assert(b.to_multiset().count(b[0]) > 0);
        assert(a.to_multiset().count(b[0]) > 0);
        assert(a.contains(b[0]));
        let m = choose|m: int| 0 <= m < a.len() && a[m] == b[0];
        if m > 0 {
            assert(leq(a[0], a[m]));
        }
        assert(leq(a[0], a[0]));
        assert(leq(b[0], b[0]));
        assert(a[0] == b[0]);
        let a1 = a.remove(0);
        let b1 = b.remove(0);
        assert(a1.to_multiset() == a.to_multiset().remove(a[0]));
        assert(b1.to_multiset() == b.to_multiset().remove(b[0]));
        assert forall|i: int, j: int| 0 <= i < j < a1.len() implies #[trigger] leq(a1[i], a1[j]) by {
            assert(leq(a[i + 1], a[j + 1]));
        }
        assert forall|i: int, j: int| 0 <= i < j < b1.len() implies #[trigger] leq(b1[i], b1[j]) by {
            assert(leq(b[i + 1], b[j + 1]));
        }
        lemma_sorted_unique(a1, b1, leq);
        assert(a =~= b) by {
            assert forall|i: int| 0 <= i < a.len() implies a[i] == b[i] by {
                if i > 0 {
                    assert(a[i] == a1[i - 1]);
                    assert(b[i] == b1[i - 1]);
                }
            }
        }
    }
}

/// The report does not depend on the order in which irritations were raised: two
/// runs that raise the same irritations, in any order, report the same sequence.
pub proof fn lemma_report_deterministic(
    a: Seq<IrritationView>,
    b: Seq<IrritationView>,
    max: MaxProblems,
)
    requires
        a.to_multiset() == b.to_multiset(),
    ensures
        report_of(a, max) == report_of(b, max),
{
    lemma_irritation_total_order();
    a.lemma_sort_by_ensures(irritation_order());
    b.lemma_sort_by_ensures(irritation_order());
    lemma_sorted_unique(a.sort_by(irritation_order()), b.sort_by(irritation_order()), irritation_order());
}

/// With a cap of `n` below the number of irritations raised, exactly `n` are reported,
/// and they are the `n` smallest: none that was dropped orders before one that was kept.
pub proof fn lemma_cap_keeps_smallest(raised: Seq<IrritationView>, n: u32)
    requires
        (n as int) < raised.len(),
    ensures
        ({
            let kept = report_of(raised, MaxProblems::Limited(n));
            let sorted = raised.sort_by(irritation_order());
            let dropped = sorted.subrange(n as int, raised.len() as int);
            &&& kept.len() == n
            &&& (kept + dropped).to_multiset() == raised.to_multiset()
            &&& forall|i: int, j: int|
                0 <= i < kept.len() && 0 <= j < dropped.len() ==> irritation_le(
                    #[trigger] kept[i],
                    #[trigger] dropped[j],
                )
        }),
{
    lemma_irritation_total_order();
    raised.lemma_sort_by_ensures(irritation_order());
    let sorted = raised.sort_by(irritation_order());
    let kept = report_of(raised, MaxProblems::Limited(n));
    let dropped = sorted.subrange(n as int, raised.len() as int);
    assert(sorted.len() == sorted.to_multiset().len());
    assert(kept + dropped =~= sorted);
    assert forall|i: int, j: int| 0 <= i < kept.len() && 0 <= j < dropped.len() implies irritation_le(
        #[trigger] kept[i],
        #[trigger] dropped[j],
    ) by {
        assert(irritation_order()(sorted[i], sorted[n + j]));
    }
}

/// Sorts irritations into the irritation order.
pub fn sort_irritations(irritations: Vec<Irritation>) -> (r: Vec<Irritation>)
    ensures
        sorted_by(views(r@), irritation_order()),
        views(r@).to_multiset() == views(irritations@).to_multiset(),
{
    broadcast use vstd::multiset::group_multiset_axioms;

    let ghost all = views(irritations@);
    let mut rest = irritations;
    let mut out: Vec<Irritation> = Vec::new();
    proof {
        lemma_irritation_total_order();
        assert(views(out@) =~= Seq::<IrritationView>::empty());
        assert(views(out@).to_multiset().add(views(rest@).to_multiset()) =~= all.to_multiset());
    }
    while rest.len() > 0
        invariant
            total_ordering(irritation_order()),
            views(out@).to_multiset().add(views(rest@).to_multiset()) == all.to_multiset(),
            sorted_by(views(out@), irritation_order()),
            forall|i: int, j: int|
                0 <= i < out.len() && 0 <= j < rest.len() ==> irritation_le(
                    #[trigger] out@[i]@,
                    #[trigger] rest@[j]@,
                ),
        decreases rest.len(),
    {
        let mut m: usize = 0;
        let mut k: usize = 1;
        proof {
            lemma_irritation_order(rest@[0]@, rest@[0]@, rest@[0]@);
        }
        while k < rest.len()
            invariant
                total_ordering(irritation_order()),
                m < rest.len(),
                1 <= k <= rest.len(),
                forall|j: int| 0 <= j < k ==> irritation_le(rest@[m as int]@, #[trigger] rest@[j]@),
            decreases rest.len() - k,
        {
            if rest[k].compare(&rest[m]) < 0 {
                proof {
                    lemma_irritation_order(rest@[k as int]@, rest@[m as int]@, rest@[k as int]@);
                    assert forall|j: int| 0 <= j < k + 1 implies irritation_le(
                        rest@[k as int]@,
                        #[trigger] rest@[j]@,
                    ) by {
                        lemma_irritation_order(rest@[k as int]@, rest@[m as int]@, rest@[j]@);
                        lemma_irritation_order(rest@[j]@, rest@[j]@, rest@[j]@);
                    }
                }
                m = k;
            } else {
                proof {
                    lemma_irritation_order(rest@[m as int]@, rest@[k as int]@, rest@[m as int]@);
                }
            }
            k = k + 1;
        }
        let ghost out0 = out@;
        let ghost rest0 = rest@;
        let x = rest.remove(m);
        proof {
            assert(views(rest@) =~= views(rest0).remove(m as int));
            assert(views(rest0)[m as int] == x@);
        }
        out.push(x);
        proof {
            assert(views(out@) =~= views(out0).push(x@));
            assert(views(out@).to_multiset() == views(out0).to_multiset().insert(x@));
            assert(views(rest@).to_multiset() == views(rest0).to_multiset().remove(x@));
            assert(views(out@).to_multiset().add(views(rest@).to_multiset()) =~= all.to_multiset());
            assert forall|i: int, j: int| 0 <= i < j < views(out@).len() implies #[trigger] irritation_order()(
                views(out@)[i],
                views(out@)[j],
            ) by {
                if j < out0.len() {
                    assert(irritation_order()(views(out0)[i], views(out0)[j]));
                } else {
                    assert(irritation_le(out0[i]@, rest0[m as int]@));
                }
            }
            assert forall|i: int, j: int| 0 <= i < out.len() && 0 <= j < rest.len() implies irritation_le(
                #[trigger] out@[i]@,
                #[trigger] rest@[j]@,
            ) by {
                let jj = if j < m { j } else { j + 1 };
                assert(rest@[j] == rest0[jj]);
                if i < out0.len() {
                    assert(irritation_le(out0[i]@, rest0[jj]@));
                } else {
                    assert(irritation_le(rest0[m as int]@, rest0[jj]@));
                }
            }
        }
    }
    proof {
        assert(views(rest@) =~= Seq::<IrritationView>::empty());
        assert(views(out@).to_multiset().add(views(rest@).to_multiset()) =~= views(out@).to_multiset());
    }
    out
}

/// Orders the irritations raised in a run and applies the cap: the report holds the
/// smallest irritations, in order, whatever order they were raised in.
pub fn collect(irritations: Vec<Irritation>, max_problems: MaxProblems) -> (r: Vec<Irritation>)
    ensures
        views(r@) == report_of(views(irritations@), max_problems),
{
    let ghost raised = views(irritations@);
    let mut sorted = sort_irritations(irritations);
    proof {
        lemma_irritation_total_order();
        raised.lemma_sort_by_ensures(irritation_order());
        lemma_sorted_unique(views(sorted@), raised.sort_by(irritation_order()), irritation_order());
    }
    if let MaxProblems::Limited(max) = max_problems {
        let max = max as usize;
        if max < sorted.len() {
            let ghost before = sorted@;
            sorted.truncate(max);
            assert(views(sorted@) =~= views(before).subrange(0, max as int));
        }
    }
    sorted
}

} // verus!
