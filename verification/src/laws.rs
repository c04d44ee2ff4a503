//! Laws of the navigation history, proved over [`HistoryModel`].

use vstd::prelude::*;

use crate::ContainerId;
use crate::HistoryModel;
use crate::RelativeOffset;
use crate::RouteModel;

verus! {

/// Going back and then forward restores the stacks and the current entry
/// exactly, whenever there is a past entry to go back to. Only the
/// pending-effect flag may differ.
pub proof fn lemma_back_forward_inverse<T>(m: HistoryModel<T>)
    requires
        m.past.len() > 0,
    ensures
        m.back().forward().past == m.past,
        m.back().forward().current == m.current,
        m.back().forward().future == m.future,
{
    let b = m.back();
    assert(b.future.len() > 0);
    assert(b.future.last() == m.current);
    assert(b.past.push(b.current) =~= m.past);
    assert(b.future.drop_last() =~= m.future);
}

/// Navigation only moves entries between the stacks: one step back, one
/// step forward, and any relative move leave the total number of entries
/// unchanged.
pub proof fn lemma_navigation_preserves_total_len<T>(m: HistoryModel<T>, n: int)
    ensures
        m.back().total_len() == m.total_len(),
        m.forward().total_len() == m.total_len(),
        m.go(n).total_len() == m.total_len(),
{
    let len_f = m.future.len() as int;
    if 1 <= n <= len_f {
        assert(m.future.skip(len_f - n + 1).reverse().len() == n - 1);
        assert(m.go(n).past.len() == m.past.len() + n);
    }
    let len_p = m.past.len() as int;
    if 1 <= -n <= len_p {
        assert(m.past.skip(len_p + n + 1).reverse().len() == -n - 1);
        assert(m.go(n).future.len() == m.future.len() + (-n));
    }
}

/// Batched forward navigation: with three forward targets waiting, a move
/// of two steps lands on the middle one, the old current entry and the
/// skipped nearest target join the past in that order, and the farthest
/// target stays in the future. One batch, one transition.
pub proof fn lemma_go_batches<T>(
    m: HistoryModel<T>,
    f1: RouteModel<T>,
    f2: RouteModel<T>,
    f3: RouteModel<T>,
)
    requires
        m.future == seq![f1, f2, f3],
    ensures
        m.go(2).current == f2,
        m.go(2).future == seq![f1],
        m.go(2).past == m.past + seq![m.current, f3],
        m.go(2).scroll_pending,
{
    assert(m.future.len() == 3);
    assert(m.go(2).future =~= seq![f1]);
    assert(m.future.skip(2).reverse() =~= seq![f3]);
    assert(m.go(2).past =~= m.past + seq![m.current, f3]);
}

/// Asking to move further than either stack reaches, or zero steps,
/// leaves every entry where it was: only the pending flag is touched.
pub proof fn lemma_go_out_of_range<T>(m: HistoryModel<T>, n: int)
    requires
        n > 0 ==> n > m.future.len(),
        n < 0 ==> -n > m.past.len(),
    ensures
        m.go(n).past == m.past,
        m.go(n).current == m.current,
        m.go(n).future == m.future,
        m.go(n).scroll_pending,
{
}

/// The pending effect is a queue of depth one: while the flag is set, the
/// first drain yields the current scroll target and clears the flag, and
/// a second drain yields nothing and changes nothing at all.
pub proof fn lemma_drain_depth_one<T>(m: HistoryModel<T>)
    requires
        m.scroll_pending,
    ensures
        m.drain_result() == m.current.scroll_target,
        !m.drained().scroll_pending,
        m.drained().drain_result() == None::<(ContainerId, RelativeOffset)>,
        m.drained().drained() == m.drained(),
{
    assert(m.drained().drained() =~= m.drained());
}

} // verus!
