use tirinha::{Slideshow, SlideshowAction, SlideshowEvent};

#[test]
fn opens_on_the_first_image() {
    let show = Slideshow::new(3);
    assert_eq!(show.index(), 0);
    assert!(!show.is_closed());
    assert_eq!(
        show.initial_action(),
        SlideshowAction::Render { index: 0 }
    );
}

#[test]
fn right_advances_until_the_last_image_then_stays() {
    let mut show = Slideshow::new(3);
    assert_eq!(
        show.handle_event(SlideshowEvent::Right),
        SlideshowAction::Render { index: 1 }
    );
    assert_eq!(
        show.handle_event(SlideshowEvent::Right),
        SlideshowAction::Render { index: 2 }
    );
    assert_eq!(show.handle_event(SlideshowEvent::Right), SlideshowAction::Stay);
    assert_eq!(show.index(), 2);
    assert_eq!(show.handle_event(SlideshowEvent::Right), SlideshowAction::Stay);
    assert_eq!(show.index(), 2);
}

#[test]
fn left_goes_back_until_the_first_image_then_stays() {
    let mut show = Slideshow::new(2);
    show.handle_event(SlideshowEvent::Right);
    assert_eq!(
        show.handle_event(SlideshowEvent::Left),
        SlideshowAction::Render { index: 0 }
    );
    assert_eq!(show.handle_event(SlideshowEvent::Left), SlideshowAction::Stay);
    assert_eq!(show.index(), 0);
}

#[test]
fn a_single_image_never_moves() {
    let mut show = Slideshow::new(1);
    assert_eq!(show.handle_event(SlideshowEvent::Right), SlideshowAction::Stay);
    assert_eq!(show.handle_event(SlideshowEvent::Left), SlideshowAction::Stay);
    assert_eq!(show.index(), 0);
}

#[test]
fn exposure_redraws_the_current_image_without_moving() {
    let mut show = Slideshow::new(3);
    show.handle_event(SlideshowEvent::Right);
    assert_eq!(
        show.handle_event(SlideshowEvent::Exposed),
        SlideshowAction::Render { index: 1 }
    );
    assert_eq!(show.index(), 1);
}

#[test]
fn other_events_do_nothing() {
    let mut show = Slideshow::new(3);
    assert_eq!(show.handle_event(SlideshowEvent::Other), SlideshowAction::Stay);
    assert_eq!(show.index(), 0);
    assert!(!show.is_closed());
}

#[test]
fn quit_closes_from_the_first_image() {
    let mut show = Slideshow::new(3);
    assert_eq!(show.handle_event(SlideshowEvent::Quit), SlideshowAction::Exit);
    assert!(show.is_closed());
}

#[test]
fn quit_closes_from_a_later_image_too() {
    let mut show = Slideshow::new(3);
    show.handle_event(SlideshowEvent::Right);
    show.handle_event(SlideshowEvent::Right);
    assert_eq!(show.handle_event(SlideshowEvent::Quit), SlideshowAction::Exit);
    assert!(show.is_closed());
    assert_eq!(show.index(), 2);
}

#[test]
fn replay_without_quit_ends_open_where_the_events_lead() {
    let events = vec![
        SlideshowEvent::Right,
        SlideshowEvent::Right,
        SlideshowEvent::Left,
        SlideshowEvent::Other,
        SlideshowEvent::Exposed,
    ];
    let show = Slideshow::replay(4, &events);
    assert!(!show.is_closed());
    assert_eq!(show.index(), 1);
}

#[test]
fn replay_clamps_at_both_ends() {
    let events = vec![
        SlideshowEvent::Right,
        SlideshowEvent::Right,
        SlideshowEvent::Right,
        SlideshowEvent::Right,
        SlideshowEvent::Left,
        SlideshowEvent::Left,
        SlideshowEvent::Left,
        SlideshowEvent::Left,
        SlideshowEvent::Left,
    ];
    let show = Slideshow::replay(3, &events);
    assert!(!show.is_closed());
    assert_eq!(show.index(), 0);
}

#[test]
fn replay_stops_closed_at_a_quit() {
    let events = vec![
        SlideshowEvent::Right,
        SlideshowEvent::Quit,
        SlideshowEvent::Right,
    ];
    let show = Slideshow::replay(3, &events);
    assert!(show.is_closed());
    assert_eq!(show.index(), 1);
}
