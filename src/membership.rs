use crate::geometry::Rectangle;
use crate::notice::Notice;
use crate::output::{outputs_wf, Output};
use vstd::prelude::*;

verus! {

/// What one output does to the list of outputs a window appears on.
pub open spec fn membership_step(cur: Seq<u64>, o: Output, ext: Rectangle) -> Seq<u64> {
    let now = o.extents_spec().overlaps_spec(&ext);
    let was = cur.contains(o.id);
    if now && !was {
        cur.push(o.id)
    } else if !now && was {
        cur.filter(|x: u64| x != o.id)
    } else {
        cur
    }
}

/// The notice one output gives rise to, if any.
pub open spec fn membership_notice(cur: Seq<u64>, o: Output, ext: Rectangle, window: u64) -> Seq<
    Notice,
> {
    let now = o.extents_spec().overlaps_spec(&ext);
    let was = cur.contains(o.id);
    if now && !was {
        seq![Notice::EnteredOutput { window, output: o.id }]
    } else if !now && was {
        seq![Notice::LeftOutput { window, output: o.id }]
    } else {
        Seq::empty()
    }
}

/// The outputs a window with extents `ext` appears on once the live
/// outputs `outs` have been checked in order, starting from `prev`.
pub open spec fn membership_after(outs: Seq<Output>, prev: Seq<u64>, ext: Rectangle) -> Seq<u64>
    decreases outs.len(),
{
    if outs.len() == 0 {
        prev
    } else {
        membership_step(membership_after(outs.drop_last(), prev, ext), outs.last(), ext)
    }
}

/// The enter and leave notices of that check, in order.
pub open spec fn membership_notices(
    outs: Seq<Output>,
    prev: Seq<u64>,
    ext: Rectangle,
    window: u64,
) -> Seq<Notice>
    decreases outs.len(),
{
    if outs.len() == 0 {
        Seq::empty()
    } else {
        membership_notices(outs.drop_last(), prev, ext, window) + membership_notice(
            membership_after(outs.drop_last(), prev, ext),
            outs.last(),
            ext,
            window,
        )
    }
}

/// After the check, a window appears on exactly the live outputs it
/// overlaps, and keeps whatever else it had.
pub proof fn lemma_membership_after(outs: Seq<Output>, prev: Seq<u64>, ext: Rectangle)
    requires
        outputs_wf(outs),
    ensures
        forall|i: int|
            0 <= i < outs.len() ==> (membership_after(outs, prev, ext).contains(
                #[trigger] outs[i].id,
            ) <==> outs[i].extents_spec().overlaps_spec(&ext)),
        forall|x: u64|
            (forall|i: int| 0 <= i < outs.len() ==> #[trigger] outs[i].id != x) ==> (
            membership_after(outs, prev, ext).contains(x) <==> prev.contains(x)),
    decreases outs.len(),
{
    if outs.len() > 0 {
        let init = outs.drop_last();
        assert(outputs_wf(init)) by {
            assert forall|i: int| 0 <= i < init.len() implies (#[trigger] init[i]).wf() by {
                assert(init[i] == outs[i]);
            }
        }
        lemma_membership_after(init, prev, ext);
        let cur = membership_after(init, prev, ext);
        let o = outs.last();
        let fl = cur.filter(|x: u64| x != o.id);
        assert forall|x: u64| #[trigger] fl.contains(x) <==> (cur.contains(x) && x != o.id) by {
            if fl.contains(x) {
                broadcast use vstd::seq_lib::group_filter_ensures;
                cur.lemma_filter_contains_rev(|x: u64| x != o.id, x);
                let k = choose|k: int| 0 <= k < fl.len() && fl[k] == x;
                assert(fl[k] != o.id);
            }
            if cur.contains(x) && x != o.id {
                let k = choose|k: int| 0 <= k < cur.len() && cur[k] == x;
                cur.lemma_filter_contains(|x: u64| x != o.id, k);
            }
        }
        let ps = cur.push(o.id);
        assert forall|x: u64| #[trigger] ps.contains(x) <==> (cur.contains(x) || x == o.id) by {
            if ps.contains(x) {
                let k = choose|k: int| 0 <= k < ps.len() && ps[k] == x;
                if k < cur.len() {
                    assert(cur[k] == x);
                }
            }
            if cur.contains(x) {
                let k = choose|k: int| 0 <= k < cur.len() && cur[k] == x;
                assert(ps[k] == x);
            }
            if x == o.id {
                assert(ps[cur.len() as int] == x);
            }
        }
        assert(membership_after(outs, prev, ext) == membership_step(cur, o, ext));
        assert forall|i: int| 0 <= i < outs.len() implies (membership_after(outs, prev, ext).contains(
            #[trigger] outs[i].id,
        ) <==> outs[i].extents_spec().overlaps_spec(&ext)) by {
            if i < outs.len() - 1 {
                assert(outs[i] == init[i]);
                assert(outs[i].id != o.id);
            }
        }
        assert forall|x: u64|
            (forall|i: int| 0 <= i < outs.len() ==> #[trigger] outs[i].id != x) implies (
        membership_after(outs, prev, ext).contains(x) <==> prev.contains(x)) by {
            assert forall|i: int| 0 <= i < init.len() implies #[trigger] init[i].id != x by {
                assert(init[i] == outs[i]);
            }
            assert(outs[outs.len() - 1].id != x);
        }
    }
}

} // verus!
