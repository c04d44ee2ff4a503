//! A browser-style navigation history for single-page GUI applications.
//!
//! A [`Router`] owns a back stack, a forward stack, and exactly one current
//! [`Route`]. Navigation operations rearrange the stacks; whenever the
//! current view changes position, a one-shot pending flag records that the
//! presentation layer owes the current route a scroll restoration, which it
//! collects through [`Router::drain_pending_effect`].
//!
//! The contracts speak over [`HistoryModel`], the mathematical image of a
//! router: two sequences of route models, one current route model, and the
//! pending flag.
//!
//! Two behaviours differ on purpose from conventional browser history and
//! are part of the contract. [`Router::push_state`] keeps the forward
//! stack instead of discarding it, so a pushed page can still be left via
//! [`Router::forward`]. And [`Router::back`], [`Router::forward`] and
//! [`Router::go`] set the pending flag even when they hit the boundary of
//! the history and move nothing.

use vstd::prelude::*;

pub mod history_trait;
pub mod laws;
pub mod state;

use crate::state::State;

verus! {

/// Identifier of a scrollable container. The router never interprets it:
/// it is stored with a route and handed back when scroll restoration is
/// due, and only the presentation layer gives it meaning.
#[derive(Debug, Clone, Copy, PartialEq, Eq, Hash, Structural)]
pub struct ContainerId {
    pub id: u64,
}

impl ContainerId {
    pub fn new(id: u64) -> (r: ContainerId)
        ensures
            r == (ContainerId { id }),
    {
        ContainerId { id }
    }
}

/// The unit of the fixed-point scroll offsets: an axis value of
/// `OFFSET_UNIT` means the container is scrolled all the way to the end.
pub const OFFSET_UNIT: u32 = 1000000;

/// A relative scroll position. Each axis ranges over `0 ..= OFFSET_UNIT`,
/// a fixed-point stand-in for the unit interval from start to end.
#[derive(Debug, Clone, Copy, PartialEq, Eq, Structural)]
pub struct RelativeOffset {
    pub x: u32,
    pub y: u32,
}

impl RelativeOffset {
    pub fn new(x: u32, y: u32) -> (r: RelativeOffset)
        ensures
            r == (RelativeOffset { x, y }),
    {
        RelativeOffset { x, y }
    }

    /// The offset at the start of a container on both axes.
    pub fn start() -> (r: RelativeOffset)
        ensures
            r == (RelativeOffset { x: 0, y: 0 }),
    {
        RelativeOffset { x: 0, y: 0 }
    }

    /// The offset at the end of a container on both axes.
    pub fn end() -> (r: RelativeOffset)
        ensures
            r == (RelativeOffset { x: OFFSET_UNIT, y: OFFSET_UNIT }),
    {
        RelativeOffset { x: OFFSET_UNIT, y: OFFSET_UNIT }
    }
}

/// The mathematical image of a [`Route`]: the page identifier, the title
/// as a sequence of characters, the auxiliary state, and the optional
/// scroll-restoration target.
#[verifier::ext_equal]
pub struct RouteModel<T> {
    pub page: T,
    pub title: Seq<char>,
    pub data: State,
    pub scroll_target: Option<(ContainerId, RelativeOffset)>,
}

/// One navigable unit of history: a page identifier, the title shown while
/// the page is current, optional page state, and an optional scroll target.
#[derive(Debug)]
pub struct Route<T> {
    data: State,
    title: String,
    page: T,
    scrollable: Option<(ContainerId, RelativeOffset)>,
}

impl<T> View for Route<T> {
    type V = RouteModel<T>;

    closed spec fn view(&self) -> RouteModel<T> {
        RouteModel {
            page: self.page,
            title: self.title@,
            data: self.data,
            scroll_target: self.scrollable,
        }
    }
}

impl<T> Route<T> {
    /// A route for `page` titled `title`, with no state and no scroll target.
    pub fn new(page: T, title: String) -> (r: Self)
        ensures
            r@ == (RouteModel {
                page: page,
                title: title@,
                data: State::Empty,
                scroll_target: None,
            }),
    {
        Route { data: State::Empty, title, page, scrollable: None }
    }

    /// The same route carrying `state` as its page data.
    pub fn set_state(self, state: State) -> (r: Self)
        ensures
            r@ == (RouteModel { data: state, ..self@ }),
    {
        Route { data: state, ..self }
    }

    /// The same route asking for scroll restoration of container `id` at
    /// `offset`.
    pub fn set_scrollable(self, id: ContainerId, offset: RelativeOffset) -> (r: Self)
        ensures
            r@ == (RouteModel { scroll_target: Some((id, offset)), ..self@ }),
    {
        Route { scrollable: Some((id, offset)), ..self }
    }
}

/// The views of a sequence of routes, in order.
pub open spec fn route_views<T>(routes: Seq<Route<T>>) -> Seq<RouteModel<T>> {
    routes.map_values(|r: Route<T>| r@)
}

/// The mathematical image of a [`Router`]: the back stack oldest first,
/// the current route, the forward stack whose last element is the next
/// forward target, and the pending-effect flag.
#[verifier::ext_equal]
pub struct HistoryModel<T> {
    pub past: Seq<RouteModel<T>>,
    pub current: RouteModel<T>,
    pub future: Seq<RouteModel<T>>,
    pub scroll_pending: bool,
}

impl<T> HistoryModel<T> {
    /// How many entries the history holds in all.
    pub open spec fn total_len(self) -> nat {
        self.past.len() + self.future.len() + 1
    }

    /// The same history with the pending-effect flag set to `pending`.
    pub open spec fn with_pending(self, pending: bool) -> Self {
        HistoryModel { scroll_pending: pending, ..self }
    }

    /// One step back: the last past entry becomes current and the old
    /// current becomes the next forward target. Without a past this moves
    /// nothing; the pending flag is set either way.
    pub open spec fn back(self) -> Self {
        if self.past.len() > 0 {
            HistoryModel {
                past: self.past.drop_last(),
                current: self.past.last(),
                future: self.future.push(self.current),
                scroll_pending: true,
            }
        } else {
            self.with_pending(true)
        }
    }

    /// One step forward: the next forward target becomes current and the
    /// old current joins the past. Without a future this moves nothing;
    /// the pending flag is set either way.
    pub open spec fn forward(self) -> Self {
        if self.future.len() > 0 {
            HistoryModel {
                past: self.past.push(self.current),
                current: self.future.last(),
                future: self.future.drop_last(),
                scroll_pending: true,
            }
        } else {
            self.with_pending(true)
        }
    }

    /// The stacks after a batched forward move of `n` steps: the old
    /// current and the skipped-over targets join the past, and the `n`-th
    /// forward target becomes current. A move of zero steps or past the
    /// end of the future is a no-op. The pending flag is untouched here;
    /// [`Self::go`] sets it.
    pub open spec fn forward_by(self, n: int) -> Self {
        let len = self.future.len() as int;
        if 1 <= n && n <= len {
            HistoryModel {
                past: self.past.push(self.current) + self.future.skip(len - n + 1).reverse(),
                current: self.future[len - n],
                future: self.future.take(len - n),
                ..self
            }
        } else {
            self
        }
    }

    /// The stacks after a batched backward move of `n` steps, symmetric to
    /// [`Self::forward_by`].
    pub open spec fn back_by(self, n: int) -> Self {
        let len = self.past.len() as int;
        if 1 <= n && n <= len {
            HistoryModel {
                past: self.past.take(len - n),
                current: self.past[len - n],
                future: self.future.push(self.current) + self.past.skip(len - n + 1).reverse(),
                ..self
            }
        } else {
            self
        }
    }

    /// Relative navigation by a signed number of steps: forward for
    /// positive `n`, backward for negative `n`. Out-of-range moves and
    /// `n == 0` leave the stacks alone; the pending flag is set in every
    /// case.
    pub open spec fn go(self, n: int) -> Self {
        if n > 0 {
            self.forward_by(n).with_pending(true)
        } else if n < 0 {
            self.back_by(-n).with_pending(true)
        } else {
            self.with_pending(true)
        }
    }

    /// A new entry becomes current and the old current joins the past;
    /// the future is kept as it is and the pending flag is set.
    pub open spec fn pushed(self, r: RouteModel<T>) -> Self {
        HistoryModel {
            past: self.past.push(self.current),
            current: r,
            future: self.future,
            scroll_pending: true,
        }
    }

    /// The current entry is replaced in place; stacks and flag are kept.
    pub open spec fn replaced(self, r: RouteModel<T>) -> Self {
        HistoryModel { current: r, ..self }
    }

    /// The current entry's scroll offset is brought up to date: if it has
    /// a scroll target, the offset component becomes `offset`; otherwise
    /// nothing changes.
    pub open spec fn scrolled(self, offset: RelativeOffset) -> Self {
        HistoryModel {
            current: RouteModel {
                scroll_target: match self.current.scroll_target {
                    Some((id, _)) => Some((id, offset)),
                    None => None,
                },
                ..self.current
            },
            ..self
        }
    }

    /// What one drain call returns: the current scroll target if an
    /// effect is pending, nothing otherwise.
    pub open spec fn drain_result(self) -> Option<(ContainerId, RelativeOffset)> {
        if self.scroll_pending {
            self.current.scroll_target
        } else {
            None
        }
    }

    /// The history after a drain call: the pending flag is cleared and
    /// nothing else moves.
    pub open spec fn drained(self) -> Self {
        self.with_pending(false)
    }
}

/// The navigation history: a back stack, the current route, a forward
/// stack, and the one-shot pending-effect flag.
#[derive(Debug)]
pub struct Router<T> {
    history: Vec<Route<T>>,
    current: Route<T>,
    future: Vec<Route<T>>,
    update: bool,
}

impl<T> View for Router<T> {
    type V = HistoryModel<T>;

    closed spec fn view(&self) -> HistoryModel<T> {
        HistoryModel {
            past: route_views(self.history@),
            current: self.current@,
            future: route_views(self.future@),
            scroll_pending: self.update,
        }
    }
}

impl<T> Router<T> {
    /// A history holding only `route`, with empty stacks and no pending
    /// effect.
    pub fn new(route: Route<T>) -> (r: Self)
        ensures
            r@.past == Seq::<RouteModel<T>>::empty(),
            r@.current == route@,
            r@.future == Seq::<RouteModel<T>>::empty(),
            !r@.scroll_pending,
    {
        let r = Router { history: Vec::new(), current: route, future: Vec::new(), update: false };
        proof {
            assert(r@.past =~= Seq::<RouteModel<T>>::empty());
            assert(r@.future =~= Seq::<RouteModel<T>>::empty());
        }
        r
    }

    /// How many entries the history holds: both stacks plus the current
    /// entry.
    pub fn length(&self) -> (r: usize)
        requires
            self@.total_len() <= usize::MAX,
        ensures
            r == self@.total_len(),
    {
        proof {
            assert(self@.past.len() == self.history@.len());
            assert(self@.future.len() == self.future@.len());
        }
        self.history.len() + self.future.len() + 1
    }

    /// The title of the current entry.
    pub fn title(&self) -> (r: String)
        ensures
            r@ == self@.current.title,
    {
        self.current.title.clone()
    }

    /// The page identifier of the current entry.
    pub fn page(&self) -> (r: &T)
        ensures
            *r == self@.current.page,
    {
        &self.current.page
    }

    /// The auxiliary state of the current entry.
    pub fn state(&self) -> (r: &State)
        ensures
            *r == self@.current.data,
    {
        &self.current.data
    }

    /// Brings the stored scroll offset of the current entry up to date
    /// with a live scroll event. This is bookkeeping, not navigation: it
    /// does not set the pending flag.
    pub fn set_scroll(&mut self, off_set: RelativeOffset)
        ensures
            final(self)@ == old(self)@.scrolled(off_set),
    {
        if let Some(scroll) = &mut self.current.scrollable {
            scroll.1 = off_set;
        }
        proof {
            assert(self@ =~= old(self)@.scrolled(off_set));
        }
    }

    /// Navigates one step back, if there is one, and sets the pending
    /// flag either way.
    pub fn back(&mut self)
        ensures
            final(self)@ == old(self)@.back(),
    {
        if self.history.len() > 0 {
            let restored = self.history.pop().unwrap();
            let mut leaving = restored;
            core::mem::swap(&mut self.current, &mut leaving);
            self.future.push(leaving);
        }
        self.update = true;
        proof {
            assert(self@ =~= old(self)@.back());
        }
    }

    /// Navigates one step forward, if there is one, and sets the pending
    /// flag either way.
    pub fn forward(&mut self)
        ensures
            final(self)@ == old(self)@.forward(),
    {
        if self.future.len() > 0 {
            let restored = self.future.pop().unwrap();
            let mut leaving = restored;
            core::mem::swap(&mut self.current, &mut leaving);
            self.history.push(leaving);
        }
        self.update = true;
        proof {
            assert(self@ =~= old(self)@.forward());
        }
    }

    /// Moves forward `number` steps as one batch: a no-op unless
    /// `1 <= number <= future len`. The pending flag is left alone;
    /// [`Self::go`] sets it once for the whole batch.
    fn go_forward(&mut self, number: usize)
        ensures
            final(self)@ == old(self)@.forward_by(number as int),
    {
        let ghost m = self@;
        let len = self.future.len();
        let ghost glen = len as int;
        proof {
            assert(m.future.len() == glen);
        }
        if number != 0 && number <= len {
            let mut i: usize = 0;
            while i < number
                invariant
                    1 <= number <= glen,
                    0 <= i <= number,
                    m.future.len() == glen,
                    self.update == m.scroll_pending,
                    self.current@ == (if i == 0 {
                        m.current
                    } else {
                        m.future[glen - i]
                    }),
                    route_views(self.future@) == m.future.take(glen - i),
                    route_views(self.history@) == (if i == 0 {
                        m.past
                    } else {
                        m.past.push(m.current) + m.future.skip(glen - i + 1).reverse()
                    }),
                decreases number - i,
            {
                proof {
                    assert(route_views(self.future@).len() == self.future@.len());
                    assert(m.future.take(glen - i).len() == glen - i);
                    assert(self.future@.len() == glen - i);
                }
                let stepped = self.future.pop().unwrap();
                let ghost before_views = route_views(self.history@);
                let mut leaving = stepped;
                core::mem::swap(&mut self.current, &mut leaving);
                self.history.push(leaving);
                proof {
                    assert(stepped@ == m.future.take(glen - i).last());
                    assert(stepped@ == m.future[glen - (i + 1)]);
                    assert(route_views(self.future@) =~= m.future.take(glen - (i + 1)));
                    let pushed_on = if i == 0 {
                        m.current
                    } else {
                        m.future[glen - i]
                    };
                    assert(route_views(self.history@) =~= before_views.push(pushed_on));
                    assert(route_views(self.history@) =~= m.past.push(m.current) + m.future.skip(
                        glen - (i + 1) + 1,
                    ).reverse());
                }
                i = i + 1;
            }
            proof {
                assert(self@ =~= m.forward_by(number as int));
            }
        }
    }

    /// Moves backward `number` steps as one batch, symmetric to
    /// [`Self::go_forward`].
    fn go_back(&mut self, number: usize)
        ensures
            final(self)@ == old(self)@.back_by(number as int),
    {
        let ghost m = self@;
        let len = self.history.len();
        let ghost glen = len as int;
        proof {
            assert(m.past.len() == glen);
        }
        if number != 0 && number <= len {
            let mut i: usize = 0;
            while i < number
                invariant
                    1 <= number <= glen,
                    0 <= i <= number,
                    m.past.len() == glen,
                    self.update == m.scroll_pending,
                    self.current@ == (if i == 0 {
                        m.current
                    } else {
                        m.past[glen - i]
                    }),
                    route_views(self.history@) == m.past.take(glen - i),
                    route_views(self.future@) == (if i == 0 {
                        m.future
                    } else {
                        m.future.push(m.current) + m.past.skip(glen - i + 1).reverse()
                    }),
                decreases number - i,
            {
                proof {
                    assert(route_views(self.history@).len() == self.history@.len());
                    assert(m.past.take(glen - i).len() == glen - i);
                    assert(self.history@.len() == glen - i);
                }
                let stepped = self.history.pop().unwrap();
                let ghost before_views = route_views(self.future@);
                let mut leaving = stepped;
                core::mem::swap(&mut self.current, &mut leaving);
                self.future.push(leaving);
                proof {
                    assert(stepped@ == m.past.take(glen - i).last());
                    assert(stepped@ == m.past[glen - (i + 1)]);
                    assert(route_views(self.history@) =~= m.past.take(glen - (i + 1)));
                    let pushed_on = if i == 0 {
                        m.current
                    } else {
                        m.past[glen - i]
                    };
                    assert(route_views(self.future@) =~= before_views.push(pushed_on));
                    assert(route_views(self.future@) =~= m.future.push(m.current) + m.past.skip(
                        glen - (i + 1) + 1,
                    ).reverse());
                }
                i = i + 1;
            }
            proof {
                assert(self@ =~= m.back_by(number as int));
            }
        }
    }

    /// Relative navigation: forward by `n` steps when `n` is positive,
    /// backward by `-n` steps when negative. A request past either end of
    /// the history, or of zero steps, moves nothing. The whole batch is
    /// one transition: the pending flag is set exactly once, and it is set
    /// even when nothing moved.
    pub fn go(&mut self, n: i32)
        ensures
            final(self)@ == old(self)@.go(n as int),
    {
        if n > 0 {
            self.go_forward(n as usize);
        } else if n < 0 {
            if n == i32::MIN {
                self.go_back(2147483648);
            } else {
                self.go_back((-n) as usize);
            }
        }
        self.update = true;
        proof {
            assert(self@ =~= old(self)@.go(n as int));
        }
    }

    /// A new route becomes current; the route it displaces joins the
    /// past. The forward stack is deliberately kept, see the crate
    /// documentation, and the pending flag is set.
    pub fn push_state(&mut self, route: Route<T>)
        ensures
            final(self)@ == old(self)@.pushed(route@),
    {
        let mut leaving = route;
        core::mem::swap(&mut self.current, &mut leaving);
        self.history.push(leaving);
        self.update = true;
        proof {
            assert(self@ =~= old(self)@.pushed(route@));
        }
    }

    /// Silently substitutes the current route without touching the
    /// stacks or the pending flag.
    pub fn replace_state(&mut self, route: Route<T>)
        ensures
            final(self)@ == old(self)@.replaced(route@),
    {
        self.current = route;
        proof {
            assert(self@ =~= old(self)@.replaced(route@));
        }
    }

    /// The current entry's scroll target, if it has one. A pure read:
    /// the pending flag stays as it is.
    pub fn take_scroll_command(&self) -> (r: Option<(ContainerId, RelativeOffset)>)
        ensures
            r == self@.current.scroll_target,
    {
        self.current.scrollable
    }

    /// Consumes the pending effect: if a navigation set the flag, clears
    /// it and returns the current scroll target; otherwise returns
    /// nothing and changes nothing. At most one call per navigation
    /// yields a command.
    pub fn drain_pending_effect(&mut self) -> (r: Option<(ContainerId, RelativeOffset)>)
        ensures
            r == old(self)@.drain_result(),
            final(self)@ == old(self)@.drained(),
    {
        let r = if self.update {
            self.update = false;
            self.take_scroll_command()
        } else {
            None
        };
        proof {
            assert(self@ =~= old(self)@.drained());
        }
        r
    }
}

} // verus!
