use stream_controller::remote_admit::RemoteAdmitController;

#[test]
fn range_beyond_advertised_limit_fails_atomically() {
    // Advertised limit 3: a range ending at ordinal 3 would open 4 streams;
    // it fails and admits nothing.
    let mut c = RemoteAdmitController::new(3);
    assert!(c.admit_up_to(3).is_err());
    assert_eq!(c.open_stream_count(), 0);
    assert_eq!(c.highest_admitted(), None);
    assert_eq!(c.current_limit(), 3);
}

#[test]
fn zero_limit_admits_nothing() {
    let mut c = RemoteAdmitController::new(0);
    assert!(c.admit_up_to(0).is_err());
    assert_eq!(c.open_stream_count(), 0);
    assert_eq!(c.current_limit(), 0);
}

#[test]
fn close_slides_the_window_by_one() {
    // Advertised limit 1: ordinal 0 is admitted, its closure raises the
    // limit to 2, and the next ordinal is then admissible.
    let mut c = RemoteAdmitController::new(1);
    assert!(c.admit_up_to(0).is_ok());
    assert_eq!(c.open_stream_count(), 1);
    assert!(c.admit_up_to(1).is_err());
    assert_eq!(c.on_close(0), Ok(2));
    assert_eq!(c.open_stream_count(), 0);
    assert!(c.admit_up_to(1).is_ok());
    assert_eq!(c.open_stream_count(), 1);
}

#[test]
fn admitting_a_high_ordinal_opens_the_whole_range() {
    let mut c = RemoteAdmitController::new(5);
    assert!(c.admit_up_to(2).is_ok());
    assert_eq!(c.open_stream_count(), 3);
    assert_eq!(c.highest_admitted(), Some(2));
    // only the not-yet-admitted ordinals are counted
    assert!(c.admit_up_to(4).is_ok());
    assert_eq!(c.open_stream_count(), 5);
}

#[test]
fn redelivered_range_is_a_noop_success() {
    let mut c = RemoteAdmitController::new(4);
    assert!(c.admit_up_to(2).is_ok());
    assert_eq!(c.open_stream_count(), 3);
    assert!(c.admit_up_to(2).is_ok());
    assert!(c.admit_up_to(1).is_ok());
    assert_eq!(c.open_stream_count(), 3);
    assert_eq!(c.current_limit(), 4);
}

#[test]
fn each_close_extends_the_limit_by_exactly_one() {
    let mut c = RemoteAdmitController::new(3);
    assert!(c.admit_up_to(2).is_ok());
    assert_eq!(c.current_limit(), 3);
    assert_eq!(c.on_close(1), Ok(4));
    assert_eq!(c.on_close(0), Ok(5));
    assert_eq!(c.on_close(2), Ok(6));
    assert_eq!(c.open_stream_count(), 0);
}

#[test]
fn closing_an_unadmitted_or_closed_ordinal_is_a_usage_error() {
    let mut c = RemoteAdmitController::new(2);
    assert!(c.on_close(0).is_err());
    assert!(c.admit_up_to(0).is_ok());
    assert!(c.on_close(0).is_ok());
    assert!(c.on_close(0).is_err());
    assert_eq!(c.current_limit(), 3);
}

#[test]
fn failed_admission_after_closures_stays_atomic() {
    let mut c = RemoteAdmitController::new(2);
    assert!(c.admit_up_to(1).is_ok());
    assert_eq!(c.on_close(0), Ok(3));
    // ordinal 3 would need a limit of 4; nothing changes on the failure
    assert!(c.admit_up_to(3).is_err());
    assert_eq!(c.open_stream_count(), 1);
    assert_eq!(c.highest_admitted(), Some(1));
    assert_eq!(c.current_limit(), 3);
    // the window still admits up to ordinal 2
    assert!(c.admit_up_to(2).is_ok());
    assert_eq!(c.open_stream_count(), 2);
}
