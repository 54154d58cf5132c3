use jumppad::debounce::Debounce;

/// One hundred milliseconds, in nanoseconds.
const WINDOW: u64 = 100_000_000;
/// Some arbitrary starting instant.
const START: u64 = 5_000_000_000;

fn beyond_window() -> u64 {
    WINDOW + 1_000_000
}

#[test]
fn first_poke_is_a_leading_edge() {
    let mut debounce = Debounce::new(WINDOW);
    assert!(debounce.poke(START));
}

#[test]
fn a_poke_inside_the_window_extends_the_burst() {
    let mut debounce = Debounce::new(WINDOW);
    let start = START;
    debounce.poke(start);
    assert!(!debounce.poke(start + WINDOW / 2));
    assert!(!debounce.fire_if_settled(start + beyond_window()));
}

#[test]
fn a_poke_past_the_window_starts_a_new_burst() {
    let mut debounce = Debounce::new(WINDOW);
    let start = START;
    debounce.poke(start);
    assert!(debounce.poke(start + beyond_window()));
}

#[test]
fn fire_if_settled_reports_true_exactly_once() {
    let mut debounce = Debounce::new(WINDOW);
    let start = START;
    debounce.poke(start);
    assert!(!debounce.fire_if_settled(start + WINDOW / 2));
    assert!(debounce.fire_if_settled(start + beyond_window()));
    assert!(!debounce.fire_if_settled(start + beyond_window() * 2));
}

#[test]
fn fire_if_settled_without_a_burst_is_false() {
    let mut debounce = Debounce::new(WINDOW);
    assert!(!debounce.fire_if_settled(START));
}

#[test]
fn reset_makes_the_next_poke_a_leading_edge() {
    let mut debounce = Debounce::new(WINDOW);
    let start = START;
    debounce.poke(start);
    debounce.reset();
    assert!(!debounce.pending());
    assert!(debounce.poke(start + WINDOW / 2));
}

#[test]
fn pending_tracks_the_burst_lifecycle() {
    let mut debounce = Debounce::new(WINDOW);
    let start = START;
    assert!(!debounce.pending());
    debounce.poke(start);
    assert!(debounce.pending());
    debounce.fire_if_settled(start + beyond_window());
    assert!(!debounce.pending());
}

#[test]
fn a_clock_that_goes_backwards_counts_as_no_time_passing() {
    let mut debounce = Debounce::new(WINDOW);
    debounce.poke(START);
    assert!(!debounce.poke(START - 10 * WINDOW));
    assert!(!debounce.fire_if_settled(START - 20 * WINDOW));
    assert!(debounce.pending());
}

#[test]
fn a_poke_exactly_at_the_window_still_extends_the_burst() {
    let mut debounce = Debounce::new(WINDOW);
    debounce.poke(START);
    assert!(!debounce.poke(START + WINDOW));
    assert!(!debounce.fire_if_settled(START + 2 * WINDOW));
    assert!(debounce.fire_if_settled(START + 2 * WINDOW + 1));
}
