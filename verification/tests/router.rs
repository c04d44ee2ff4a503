use iced_router::ContainerId;
use iced_router::RelativeOffset;
use iced_router::Route;
use iced_router::Router;
use iced_router::OFFSET_UNIT;
use iced_router::state::State;

fn route(page: &str, title: &str) -> Route<String> {
    Route::new(page.to_string(), title.to_string())
}

#[test]
fn new_router_holds_only_the_initial_route() {
    let r = Router::new(route("home", "Home"));
    assert_eq!(r.length(), 1);
    assert_eq!(r.page().as_str(), "home");
    assert_eq!(r.title(), "Home");
    assert!(matches!(r.state(), State::Empty));
    assert_eq!(r.take_scroll_command(), None);
}

#[test]
fn new_router_has_no_pending_effect() {
    let mut r = Router::new(
        route("home", "Home").set_scrollable(ContainerId::new(1), RelativeOffset::start()),
    );
    assert_eq!(r.drain_pending_effect(), None);
}

#[test]
fn push_then_back_scenario() {
    // A -> push B -> push C -> back: current is B, past [A], future [C].
    let mut r = Router::new(route("a", "A"));
    r.push_state(route("b", "B"));
    r.push_state(route("c", "C"));
    r.back();
    assert_eq!(r.page().as_str(), "b");
    assert_eq!(r.title(), "B");
    assert_eq!(r.length(), 3);
    // The past holds exactly [A]: one more back lands on A, and a further
    // back is a no-op at the boundary.
    r.back();
    assert_eq!(r.page().as_str(), "a");
    assert_eq!(r.length(), 3);
    r.back();
    assert_eq!(r.page().as_str(), "a");
    assert_eq!(r.length(), 3);
}

#[test]
fn forward_after_back_scenario() {
    // From current B, past [A], future [C]: forward lands on C with
    // past [A, B] and an empty future.
    let mut r = Router::new(route("a", "A"));
    r.push_state(route("b", "B"));
    r.push_state(route("c", "C"));
    r.back();
    r.forward();
    assert_eq!(r.page().as_str(), "c");
    assert_eq!(r.length(), 3);
    // The future is empty: forward is now a no-op.
    r.forward();
    assert_eq!(r.page().as_str(), "c");
    // The past holds [A, B], in that order.
    r.back();
    assert_eq!(r.page().as_str(), "b");
    r.back();
    assert_eq!(r.page().as_str(), "a");
}

#[test]
fn back_then_forward_restores_the_state() {
    let mut r = Router::new(route("a", "A"));
    r.push_state(route("b", "B"));
    r.back();
    r.forward();
    assert_eq!(r.page().as_str(), "b");
    assert_eq!(r.title(), "B");
    assert_eq!(r.length(), 2);
}

#[test]
fn push_keeps_the_forward_stack() {
    let mut r = Router::new(route("a", "A"));
    r.push_state(route("b", "B"));
    r.back();
    // Current A, future [B]. A push does not discard the forward stack.
    r.push_state(route("c", "C"));
    assert_eq!(r.page().as_str(), "c");
    assert_eq!(r.length(), 3);
    r.forward();
    assert_eq!(r.page().as_str(), "b");
}

#[test]
fn go_moves_forward_in_one_batch() {
    // Build current A with future [D, C, B]: the next reachable target
    // is B, then C, then D.
    let mut r = Router::new(route("a", "A"));
    r.push_state(route("b", "B"));
    r.push_state(route("c", "C"));
    r.push_state(route("d", "D"));
    r.go(-3);
    assert_eq!(r.page().as_str(), "a");
    assert_eq!(r.length(), 4);
    // Two steps forward in one batch: past the skipped B onto C.
    r.go(2);
    assert_eq!(r.page().as_str(), "c");
    assert_eq!(r.length(), 4);
    // The future kept only D.
    r.forward();
    assert_eq!(r.page().as_str(), "d");
    r.forward();
    assert_eq!(r.page().as_str(), "d");
}

#[test]
fn go_appends_skipped_targets_to_the_past_in_order() {
    let mut r = Router::new(route("a", "A"));
    r.push_state(route("b", "B"));
    r.push_state(route("c", "C"));
    r.push_state(route("d", "D"));
    r.go(-3);
    r.go(2);
    // The past is now [A, B]: the old current, then the skipped target.
    r.back();
    assert_eq!(r.page().as_str(), "b");
    r.back();
    assert_eq!(r.page().as_str(), "a");
    r.back();
    assert_eq!(r.page().as_str(), "a");
}

#[test]
fn go_backward_moves_in_one_batch() {
    let mut r = Router::new(route("a", "A"));
    r.push_state(route("b", "B"));
    r.push_state(route("c", "C"));
    r.go(-2);
    assert_eq!(r.page().as_str(), "a");
    assert_eq!(r.length(), 3);
    // The future gained [C, B]: B is the next forward target.
    r.forward();
    assert_eq!(r.page().as_str(), "b");
    r.forward();
    assert_eq!(r.page().as_str(), "c");
}

#[test]
fn go_past_the_boundary_is_a_no_op() {
    let mut r = Router::new(route("a", "A"));
    r.push_state(route("b", "B"));
    r.back();
    // future [B], past []: both directions out of range.
    r.go(2);
    assert_eq!(r.page().as_str(), "a");
    assert_eq!(r.length(), 2);
    r.go(-1);
    assert_eq!(r.page().as_str(), "a");
    assert_eq!(r.length(), 2);
    // In range still works.
    r.go(1);
    assert_eq!(r.page().as_str(), "b");
}

#[test]
fn go_zero_moves_nothing_but_sets_the_pending_flag() {
    let target = ContainerId::new(9);
    let mut r = Router::new(
        route("a", "A").set_scrollable(target, RelativeOffset::end()),
    );
    assert_eq!(r.drain_pending_effect(), None);
    r.go(0);
    assert_eq!(r.page().as_str(), "a");
    assert_eq!(r.length(), 1);
    assert_eq!(
        r.drain_pending_effect(),
        Some((target, RelativeOffset::end()))
    );
}

#[test]
fn out_of_range_go_still_sets_the_pending_flag() {
    let target = ContainerId::new(3);
    let mut r = Router::new(
        route("a", "A").set_scrollable(target, RelativeOffset::start()),
    );
    assert_eq!(r.drain_pending_effect(), None);
    r.go(7);
    assert_eq!(
        r.drain_pending_effect(),
        Some((target, RelativeOffset::start()))
    );
}

#[test]
fn drain_yields_exactly_once_per_navigation() {
    let target = ContainerId::new(4);
    let mut r = Router::new(route("a", "A"));
    r.push_state(
        route("d", "D").set_scrollable(target, RelativeOffset::end()),
    );
    // The push set the flag: the first drain returns the command,
    // the second returns nothing.
    assert_eq!(
        r.drain_pending_effect(),
        Some((target, RelativeOffset::end()))
    );
    assert_eq!(r.drain_pending_effect(), None);
}

#[test]
fn drain_after_push_without_target_is_empty() {
    let mut r = Router::new(route("a", "A"));
    r.push_state(route("b", "B"));
    assert_eq!(r.drain_pending_effect(), None);
    assert_eq!(r.drain_pending_effect(), None);
}

#[test]
fn take_scroll_command_does_not_consume_the_effect() {
    let target = ContainerId::new(5);
    let mut r = Router::new(route("a", "A"));
    r.push_state(route("b", "B").set_scrollable(target, RelativeOffset::start()));
    assert_eq!(r.take_scroll_command(), Some((target, RelativeOffset::start())));
    assert_eq!(r.take_scroll_command(), Some((target, RelativeOffset::start())));
    // The pending effect is still there to be drained.
    assert_eq!(
        r.drain_pending_effect(),
        Some((target, RelativeOffset::start()))
    );
}

#[test]
fn replace_state_substitutes_silently() {
    let mut r = Router::new(route("a", "A"));
    r.push_state(route("b", "B"));
    assert!(r.drain_pending_effect().is_none());
    r.replace_state(route("b2", "B2"));
    assert_eq!(r.page().as_str(), "b2");
    assert_eq!(r.title(), "B2");
    assert_eq!(r.length(), 2);
    // No navigation happened: nothing is pending.
    assert_eq!(r.drain_pending_effect(), None);
    // The past is untouched.
    r.back();
    assert_eq!(r.page().as_str(), "a");
}

#[test]
fn set_scroll_updates_only_the_offset() {
    let target = ContainerId::new(6);
    let mut r = Router::new(
        route("a", "A").set_scrollable(target, RelativeOffset::start()),
    );
    r.set_scroll(RelativeOffset::new(250000, 500000));
    assert_eq!(
        r.take_scroll_command(),
        Some((target, RelativeOffset::new(250000, 500000)))
    );
    // A live scroll update is not a navigation: nothing is pending.
    assert_eq!(r.drain_pending_effect(), None);
}

#[test]
fn set_scroll_without_target_is_a_no_op() {
    let mut r = Router::new(route("a", "A"));
    r.set_scroll(RelativeOffset::end());
    assert_eq!(r.take_scroll_command(), None);
}

#[test]
fn set_state_carries_page_data() {
    let r = Router::new(route("search", "Search").set_state(State::Text("q".to_string())));
    assert_eq!(*r.state(), State::Text("q".to_string()));
    let r2 = Router::new(route("counter", "Counter").set_state(State::Number(41)));
    assert_eq!(*r2.state(), State::Number(41));
}

#[test]
fn length_counts_both_stacks_and_the_current_entry() {
    let mut r = Router::new(route("a", "A"));
    assert_eq!(r.length(), 1);
    r.push_state(route("b", "B"));
    assert_eq!(r.length(), 2);
    r.push_state(route("c", "C"));
    assert_eq!(r.length(), 3);
    r.back();
    assert_eq!(r.length(), 3);
    r.back();
    assert_eq!(r.length(), 3);
    r.forward();
    assert_eq!(r.length(), 3);
    r.go(1);
    assert_eq!(r.length(), 3);
    r.go(-2);
    assert_eq!(r.length(), 3);
}

#[test]
fn offsets_span_the_unit_interval() {
    assert_eq!(RelativeOffset::start(), RelativeOffset::new(0, 0));
    assert_eq!(RelativeOffset::end(), RelativeOffset::new(OFFSET_UNIT, OFFSET_UNIT));
    assert_eq!(ContainerId::new(12), ContainerId::new(12));
    assert_ne!(ContainerId::new(12), ContainerId::new(13));
}

#[test]
fn routes_over_numeric_pages_work_alike() {
    let mut r: Router<u32> = Router::new(Route::new(1, "One".to_string()));
    r.push_state(Route::new(2, "Two".to_string()));
    assert_eq!(*r.page(), 2);
    r.back();
    assert_eq!(*r.page(), 1);
}
