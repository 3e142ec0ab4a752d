use photoframe::scene::RenderResult;
use photoframe::slideshow::{SlideshowState, Transition};

#[test]
fn first_photo_shows_at_once_and_later_ones_transition_in() {
    let mut show = SlideshowState::new(1000);
    assert_eq!(show.render_step(0, 500), RenderResult::Idle);
    show.queue_photo(1, 0, 500);
    assert_eq!(show.current, Some(1));
    assert_eq!(show.next_transition_at, Some(1000));
    assert_eq!(show.take_display_report(), Some(1));
    assert_eq!(show.take_display_report(), None);

    show.queue_photo(2, 10, 500);
    assert_eq!(show.transition, Some(Transition { start: 10, duration: 500, next: 2 }));
    assert_eq!(show.next_transition_at, None);
    show.queue_photo(3, 20, 700);
    assert_eq!(show.pending, vec![3]);

    assert_eq!(show.render_step(200, 700), RenderResult::NeedsRedraw);
    assert_eq!(show.current, Some(1));
    assert!(show.transition.is_some());

    assert_eq!(show.render_step(510, 700), RenderResult::NeedsRedraw);
    assert_eq!(show.current, Some(2));
    assert_eq!(show.transition, None);
    assert_eq!(show.next_transition_at, Some(1510));
    assert_eq!(show.take_display_report(), Some(2));
    assert!(!show.needs_redraw);

    // Photo 3 waits for the dwell; the scene keeps drawing until then.
    assert_eq!(show.render_step(900, 700), RenderResult::NeedsRedraw);
    assert!(!show.transition_due(900));
    assert!(show.transition_due(1510));
    assert_eq!(show.render_step(1510, 700), RenderResult::NeedsRedraw);
    assert_eq!(show.transition, Some(Transition { start: 1510, duration: 700, next: 3 }));
    assert!(show.pending.is_empty());
    assert_eq!(show.render_step(2210, 700), RenderResult::Idle);
    assert_eq!(show.current, Some(3));
    assert_eq!(show.take_display_report(), Some(3));
}

#[test]
fn transition_ends_at_nearly_its_full_length() {
    let mut show = SlideshowState::new(0);
    show.queue_photo(1, 0, 10_000);
    show.queue_photo(2, 0, 10_000);
    show.render_step(9_998, 10_000);
    assert!(show.transition.is_some());
    show.render_step(9_999, 10_000);
    assert_eq!(show.current, Some(2));
}
