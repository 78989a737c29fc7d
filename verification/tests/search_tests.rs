use core::cmp::Ordering;
use flatbuffers::search::{search_step, SearchStep};

#[test]
fn step_on_equal_is_found() {
    assert!(matches!(search_step(0, 4, 2, Ordering::Equal), SearchStep::Found));
}

#[test]
fn step_on_less_goes_right() {
    assert!(matches!(search_step(0, 4, 2, Ordering::Less), SearchStep::Narrowed(3, 4)));
}

#[test]
fn step_on_greater_goes_left() {
    assert!(matches!(search_step(1, 4, 2, Ordering::Greater), SearchStep::Narrowed(1, 1)));
}

#[test]
fn step_on_greater_at_first_element_is_missing() {
    assert!(matches!(search_step(0, 0, 0, Ordering::Greater), SearchStep::Missing));
}
