use knukki::{
    wait_before_frame, PixelPosition, PointerAction, PointerButton, PointerEvent, PointerTracker,
    FRAME_MILLIS,
};

fn at(x: i32, y: i32) -> PixelPosition {
    PixelPosition { x, y }
}

fn moved(x: i32, y: i32) -> PointerEvent {
    PointerEvent::Moved { position: at(x, y), width: 800, height: 600 }
}

#[test]
fn first_move_after_coming_in_is_an_entry() {
    let mut tracker = PointerTracker::new();
    assert_eq!(PointerAction::Nothing, tracker.handle(PointerEvent::Entered));
    assert!(tracker.awaits_entry);
    assert_eq!(PointerAction::Enter { position: at(10, 20) }, tracker.handle(moved(10, 20)));
    assert_eq!(Some(at(10, 20)), tracker.position);
    assert!(!tracker.awaits_entry);
}

#[test]
fn move_without_coming_in_is_only_remembered() {
    let mut tracker = PointerTracker::new();
    assert_eq!(PointerAction::Nothing, tracker.handle(moved(10, 20)));
    assert_eq!(Some(at(10, 20)), tracker.position);
    assert_eq!(
        PointerAction::Move { from: at(10, 20), to: at(11, 20) },
        tracker.handle(moved(11, 20))
    );
}

#[test]
fn move_to_the_same_position_is_not_reported() {
    let mut tracker = PointerTracker::new();
    tracker.handle(moved(10, 20));
    assert_eq!(PointerAction::Nothing, tracker.handle(moved(10, 20)));
    assert_eq!(Some(at(10, 20)), tracker.position);
}

#[test]
fn move_outside_the_window_changes_nothing() {
    let mut tracker = PointerTracker::new();
    tracker.handle(PointerEvent::Entered);
    for (x, y) in [(-1, 5), (5, -1), (800, 5), (5, 600), (i32::MAX, i32::MAX)] {
        assert_eq!(PointerAction::Nothing, tracker.handle(moved(x, y)));
        assert_eq!(None, tracker.position);
        assert!(tracker.awaits_entry);
    }
    assert_eq!(PointerAction::Enter { position: at(799, 599) }, tracker.handle(moved(799, 599)));
    assert_eq!(PointerAction::Nothing, tracker.handle(moved(800, 599)));
    assert_eq!(Some(at(799, 599)), tracker.position);
    assert_eq!(
        PointerAction::Move { from: at(799, 599), to: at(0, 0) },
        tracker.handle(moved(0, 0))
    );
}

#[test]
fn leaving_reports_where_the_pointer_was() {
    let mut tracker = PointerTracker::new();
    assert_eq!(PointerAction::Nothing, tracker.handle(PointerEvent::Left));
    tracker.handle(moved(3, 4));
    assert_eq!(PointerAction::Leave { position: at(3, 4) }, tracker.handle(PointerEvent::Left));
    assert_eq!(None, tracker.position);
    assert_eq!(PointerAction::Nothing, tracker.handle(PointerEvent::Left));
}

#[test]
fn awaited_entry_survives_moves_of_a_pointer_already_seen() {
    let mut tracker = PointerTracker::new();
    tracker.handle(moved(3, 4));
    tracker.handle(PointerEvent::Entered);
    assert_eq!(PointerAction::Move { from: at(3, 4), to: at(5, 6) }, tracker.handle(moved(5, 6)));
    assert!(tracker.awaits_entry);
    tracker.handle(PointerEvent::Left);
    assert_eq!(PointerAction::Enter { position: at(7, 8) }, tracker.handle(moved(7, 8)));
    assert!(!tracker.awaits_entry);
}

#[test]
fn release_is_a_click_where_the_pointer_was_seen() {
    let mut tracker = PointerTracker::new();
    let release = PointerEvent::Released { button: PointerButton::Right };
    assert_eq!(PointerAction::Nothing, tracker.handle(release));
    tracker.handle(moved(30, 40));
    assert_eq!(PointerAction::Click { position: at(30, 40), button: 1 }, tracker.handle(release));
    assert_eq!(Some(at(30, 40)), tracker.position);
}

#[test]
fn buttons_have_their_numbers() {
    assert_eq!(0, PointerButton::Left.get_number());
    assert_eq!(1, PointerButton::Right.get_number());
    assert_eq!(2, PointerButton::Middle.get_number());
    assert_eq!(7, PointerButton::Other(7).get_number());
    assert_eq!(0, PointerButton::Other(0).get_number());
}

#[test]
fn frame_wait_is_the_rest_of_the_frame_time() {
    assert_eq!(16, FRAME_MILLIS);
    assert_eq!(Some(16), wait_before_frame(0));
    assert_eq!(Some(11), wait_before_frame(5));
    assert_eq!(Some(1), wait_before_frame(15));
    assert_eq!(None, wait_before_frame(16));
    assert_eq!(None, wait_before_frame(17));
    assert_eq!(None, wait_before_frame(u128::MAX));
}
