use std::sync::atomic::Ordering;

use tn_file_upload::health::{serving_status, AppState, ServingStatus};

#[test]
fn healthy_flag_means_serving() {
    assert_eq!(serving_status(true), ServingStatus::Serving);
    assert_eq!(serving_status(false), ServingStatus::NotServing);
}

#[test]
fn new_state_starts_healthy() {
    let state = AppState::new();
    assert!(state.healthy.load(Ordering::Relaxed));
    let state = AppState::default();
    assert_eq!(serving_status(state.healthy.load(Ordering::Relaxed)), ServingStatus::Serving);
}
