//! Properties of the output size ladder.

use vstd::prelude::*;

use crate::capture::{
    COOLDOWN_MS, LadderV, Load, MIN_WIDTH, OVER_STREAK, ladder_from, ladder_shape, ladder_sizes_spec,
    lemma_ladder_from, observe_step,
};
use crate::convert::even_down;

verus! {

/// An adaptive ladder starts at the (even) base width and its widths
/// strictly decrease, every step after the first being at least
/// `MIN_WIDTH` wide; when no step fits, the ladder is the base size alone.
pub proof fn law_ladder_shrinks_from_the_base(sw: usize, sh: usize, base: (usize, usize))
    requires
        base.0 * sh <= usize::MAX,
    ensures
        ladder_from(sw as int, sh as int, even_down(base.0 as int)).len() > 0 ==> {
            &&& ladder_shape(ladder_sizes_spec(sw as int, sh as int, base))
            &&& ladder_sizes_spec(sw as int, sh as int, base)[0].0 == even_down(base.0 as int)
        },
        ladder_from(sw as int, sh as int, even_down(base.0 as int)).len() == 0 ==> ladder_sizes_spec(
            sw as int,
            sh as int,
            base,
        ) == seq![base],
{
    let w = even_down(base.0 as int);
    assert(w * sh <= base.0 * sh) by (nonlinear_arith)
        requires
            0 <= w <= base.0,
            sh >= 0,
    ;
    lemma_ladder_from(sw as int, sh as int, w);
}

/// A ladder of one size (a pinned scale) never changes.
pub proof fn law_pinned_ladder_never_changes(l: LadderV, load: Load, now: u64)
    requires
        l.sizes.len() == 1,
    ensures
        observe_step(l, load, now) == (l, Option::<(usize, usize)>::None),
{
}

/// The controller stays on the ladder: its position remains one of the
/// sizes, and a reported change is the size at the new position.
pub proof fn law_observe_stays_on_the_ladder(l: LadderV, load: Load, now: u64)
    requires
        l.idx < l.sizes.len(),
    ensures
        observe_step(l, load, now).0.idx < l.sizes.len(),
        observe_step(l, load, now).0.sizes == l.sizes,
        observe_step(l, load, now).1 matches Some(sz) ==> sz == l.sizes[observe_step(l, load, now).0.idx as int],
        observe_step(l, load, now).1 matches Some(_) ==> observe_step(l, load, now).0.idx == l.idx + 1
            || observe_step(l, load, now).0.idx + 1 == l.idx,
{
}

/// After a change, nothing changes again while the measurement settles.
pub proof fn law_settles_after_a_change(l: LadderV, load: Load, now: u64, later_load: Load, later: u64)
    requires
        observe_step(l, load, now).1 is Some,
        later < now + COOLDOWN_MS,
    ensures
        observe_step(observe_step(l, load, now).0, later_load, later) == (
            observe_step(l, load, now).0,
            Option::<(usize, usize)>::None,
        ),
{
}

/// The ladder after the same load report at times `t[0]`, `t[1]`, ...
pub open spec fn observe_all(l: LadderV, load: Load, t: Seq<u64>) -> (LadderV, Seq<Option<(usize, usize)>>)
    decreases t.len(),
{
    if t.len() == 0 {
        (l, seq![])
    } else {
        let (l1, r1) = observe_all(l, load, t.drop_last());
        let (l2, r2) = observe_step(l1, load, t.last());
        (l2, r1.push(r2))
    }
}

/// Settled and not at the smallest size, a streak of `OVER_STREAK`
/// over-budget reports steps one size down exactly at the last report;
/// fewer reports change no size.
pub proof fn law_steps_down_after_an_over_streak(l: LadderV, t: Seq<u64>)
    requires
        l.sizes.len() > 1,
        l.idx + 1 < l.sizes.len(),
        l.over == 0,
        t.len() == OVER_STREAK,
        forall|i: int| 0 <= i < t.len() ==> #[trigger] t[i] >= l.changed_at + COOLDOWN_MS,
    ensures
        observe_all(l, Load::Over, t).1 == seq![
            Option::<(usize, usize)>::None,
            None,
            None,
            Some(l.sizes[l.idx + 1 as int]),
        ],
        observe_all(l, Load::Over, t).0.idx == l.idx + 1,
{
    let t0 = t.drop_last().drop_last().drop_last().drop_last();
    let t1 = t.drop_last().drop_last().drop_last();
    let t2 = t.drop_last().drop_last();
    let t3 = t.drop_last();
    assert(t0 =~= Seq::<u64>::empty());
    assert(t1.drop_last() =~= t0 && t1.last() == t[0]);
    assert(t2.drop_last() =~= t1 && t2.last() == t[1]);
    assert(t3.drop_last() =~= t2 && t3.last() == t[2]);
    assert(t.drop_last() =~= t3 && t.last() == t[3]);
    assert(t[0] >= l.changed_at + COOLDOWN_MS);
    assert(t[1] >= l.changed_at + COOLDOWN_MS);
    assert(t[2] >= l.changed_at + COOLDOWN_MS);
    assert(t[3] >= l.changed_at + COOLDOWN_MS);
    assert(observe_all(l, Load::Over, t0) == (l, Seq::<Option<(usize, usize)>>::empty()));
    let (l1, r1) = observe_all(l, Load::Over, t1);
    assert(l1.over == 1 && l1.changed_at == l.changed_at && l1.idx == l.idx && l1.sizes == l.sizes);
    assert(r1 =~= seq![Option::<(usize, usize)>::None]);
    let (l2, r2) = observe_all(l, Load::Over, t2);
    assert(l2.over == 2 && l2.changed_at == l.changed_at && l2.idx == l.idx && l2.sizes == l.sizes);
    assert(r2 =~= seq![Option::<(usize, usize)>::None, None]);
    let (l3, r3) = observe_all(l, Load::Over, t3);
    assert(l3.over == 3 && l3.changed_at == l.changed_at && l3.idx == l.idx && l3.sizes == l.sizes);
    assert(r3 =~= seq![Option::<(usize, usize)>::None, None, None]);
    assert(observe_all(l, Load::Over, t).1 =~= seq![
        Option::<(usize, usize)>::None,
        None,
        None,
        Some(l.sizes[l.idx + 1 as int]),
    ]);
}

/// A report that is not over budget, once settled, breaks the over-budget
/// streak: afterwards the streak is zero, whether or not the size changed.
pub proof fn law_calm_report_breaks_the_over_streak(l: LadderV, load: Load, now: u64)
    requires
        load != Load::Over,
        l.sizes.len() > 1,
        now >= l.changed_at + COOLDOWN_MS,
    ensures
        observe_step(l, load, now).0.over == 0,
{
}

/// The over-budget streak grows by at most one per report, and only an
/// over-budget report makes it grow or keeps it from being reset (unless
/// the ladder is settling or has one size, when nothing changes at all).
pub proof fn law_over_streak_counts_consecutive_reports(l: LadderV, load: Load, now: u64)
    ensures
        observe_step(l, load, now).0.over <= l.over + 1,
        load != Load::Over ==> observe_step(l, load, now).0.over == 0 || observe_step(l, load, now).0 == l,
{
}

/// A step down happens only on an over-budget report that completes a
/// streak of `OVER_STREAK` of them, and moves exactly one size down.
pub proof fn law_step_down_needs_a_full_over_streak(l: LadderV, load: Load, now: u64)
    requires
        observe_step(l, load, now).0.idx > l.idx,
    ensures
        load == Load::Over,
        l.over + 1 >= OVER_STREAK,
        observe_step(l, load, now).0.idx == l.idx + 1,
        observe_step(l, load, now).1 == Some(l.sizes[l.idx + 1 as int]),
{
}

} // verus!
