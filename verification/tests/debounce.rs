use livereload_core::debounce::Debouncer;
use livereload_core::debounce::DEBOUNCE_WINDOW_MS;

#[test]
fn first_event_always_fires() {
    let mut d = Debouncer::new(100);
    assert!(d.on_event(7));
}

#[test]
fn two_events_within_window_coalesce_into_one_notification() {
    let mut d = Debouncer::new(100);
    assert!(d.on_event(10));
    assert!(!d.on_event(50));
}

#[test]
fn two_events_outside_window_fire_two_notifications() {
    let mut d = Debouncer::new(100);
    assert!(d.on_event(10));
    assert!(d.on_event(110));
}

#[test]
fn event_just_inside_window_is_absorbed() {
    let mut d = Debouncer::new(100);
    assert!(d.on_event(10));
    assert!(!d.on_event(109));
}

#[test]
fn absorbed_event_does_not_extend_the_window() {
    let mut d = Debouncer::new(100);
    assert!(d.on_event(10));
    assert!(!d.on_event(90));
    assert!(d.on_event(110));
}

#[test]
fn burst_of_saves_yields_a_single_notification() {
    let mut d = Debouncer::new(DEBOUNCE_WINDOW_MS);
    let mut fired = 0;
    for t in [1000u64, 1001, 1003, 1010, 1050] {
        if d.on_event(t) {
            fired += 1;
        }
    }
    assert_eq!(fired, 1);
}
