use stream_controller::controller::{AppStreamLimits, Controller, InitialStreamLimits};
use stream_controller::stream_id::StreamId;
use stream_controller::types::{
    EndpointRole, OpenOutcome, RelativeInitiator, StreamDirection,
};

fn controller() -> Controller {
    Controller::new(
        EndpointRole::Server,
        // peer-granted limits for local opens
        InitialStreamLimits { max_streams_bidi: 2, max_streams_uni: 1 },
        // self-advertised limits for remote opens
        InitialStreamLimits { max_streams_bidi: 3, max_streams_uni: 1 },
        // application ceilings for local opens
        AppStreamLimits { max_local_bidi: 5, max_local_uni: 5 },
    )
}

fn local_bidi(n: u64) -> StreamId {
    StreamId::nth(EndpointRole::Server, StreamDirection::Bidirectional, n).unwrap()
}

fn remote_bidi(n: u64) -> StreamId {
    StreamId::nth(EndpointRole::Client, StreamDirection::Bidirectional, n).unwrap()
}

fn remote_uni(n: u64) -> StreamId {
    StreamId::nth(EndpointRole::Client, StreamDirection::Unidirectional, n).unwrap()
}

#[test]
fn classify_routes_by_role_and_direction() {
    let c = controller();
    let class = c.classify(local_bidi(0));
    assert_eq!(class.initiator, RelativeInitiator::Local);
    assert_eq!(class.direction, StreamDirection::Bidirectional);
    let class = c.classify(remote_uni(0));
    assert_eq!(class.initiator, RelativeInitiator::Remote);
    assert_eq!(class.direction, StreamDirection::Unidirectional);
}

#[test]
fn local_open_suspends_at_peer_limit_and_resumes_on_update() {
    // peer-granted 2 capped by app ceiling 5: ordinals 0 and 1 admitted,
    // ordinal 2 suspended until the peer grants 3
    let mut c = controller();
    assert_eq!(c.open_local(local_bidi(0), 10), OpenOutcome::Admitted);
    assert_eq!(c.open_local(local_bidi(1), 11), OpenOutcome::Admitted);
    assert_eq!(c.open_local(local_bidi(2), 12), OpenOutcome::Suspended);
    assert_eq!(c.local_open_count(StreamDirection::Bidirectional), 2);
    let resumed = c.on_peer_limit_update(StreamDirection::Bidirectional, 3).unwrap();
    assert_eq!(resumed, vec![12]);
    assert_eq!(c.open_local(local_bidi(2), 12), OpenOutcome::Admitted);
    assert_eq!(c.local_open_count(StreamDirection::Bidirectional), 3);
}

#[test]
fn remote_admission_checks_the_advertised_limit() {
    let mut c = controller();
    // advertised remote-bidi limit 3: a range up to ordinal 3 (4 streams)
    // violates it and admits nothing
    assert!(c.open_remote(remote_bidi(0), remote_bidi(3)).is_err());
    assert_eq!(c.remote_open_count(StreamDirection::Bidirectional), 0);
    assert!(c.open_remote(remote_bidi(0), remote_bidi(2)).is_ok());
    assert_eq!(c.remote_open_count(StreamDirection::Bidirectional), 3);
}

#[test]
fn closing_a_remote_stream_returns_the_raised_limit() {
    let mut c = controller();
    assert!(c.open_remote(remote_uni(0), remote_uni(0)).is_ok());
    assert_eq!(c.remote_open_count(StreamDirection::Unidirectional), 1);
    assert_eq!(c.close(remote_uni(0)), Ok(Some(2)));
    assert_eq!(c.remote_open_count(StreamDirection::Unidirectional), 0);
    assert_eq!(c.advertised_remote_limit(StreamDirection::Unidirectional), 2);
    assert!(c.open_remote(remote_uni(1), remote_uni(1)).is_ok());
}

#[test]
fn closing_a_local_stream_returns_no_limit_signal() {
    let mut c = controller();
    assert_eq!(c.open_local(local_bidi(0), 1), OpenOutcome::Admitted);
    assert_eq!(c.close(local_bidi(0)), Ok(None));
    assert_eq!(c.local_open_count(StreamDirection::Bidirectional), 0);
    // the peer-granted limit is untouched by a local close
    assert_eq!(c.effective_local_limit(StreamDirection::Bidirectional), 2);
}

#[test]
fn close_of_unopened_stream_is_reported() {
    let mut c = controller();
    assert!(c.close(local_bidi(0)).is_err());
    assert!(c.close(remote_bidi(0)).is_err());
}

#[test]
fn limit_decrease_is_reported_and_ignored() {
    let mut c = controller();
    assert!(c.on_peer_limit_update(StreamDirection::Bidirectional, 1).is_err());
    assert_eq!(c.effective_local_limit(StreamDirection::Bidirectional), 2);
}

#[test]
fn directions_are_independent() {
    let mut c = controller();
    // the unidirectional peer grant is 1
    assert_eq!(c.open_local(local_uni_id(0), 20), OpenOutcome::Admitted);
    assert_eq!(c.open_local(local_uni_id(1), 21), OpenOutcome::Suspended);
    // opening bidirectional streams is unaffected
    assert_eq!(c.open_local(local_bidi(0), 22), OpenOutcome::Admitted);
    assert_eq!(c.local_open_count(StreamDirection::Unidirectional), 1);
    assert_eq!(c.local_open_count(StreamDirection::Bidirectional), 1);
    // a unidirectional limit update does not resume bidirectional attempts
    assert_eq!(c.open_local(local_bidi(1), 23), OpenOutcome::Admitted);
    assert_eq!(c.open_local(local_bidi(2), 24), OpenOutcome::Suspended);
    let resumed = c.on_peer_limit_update(StreamDirection::Unidirectional, 2).unwrap();
    assert_eq!(resumed, vec![21]);
}

#[test]
fn cancel_open_withdraws_a_suspended_attempt() {
    let mut c = controller();
    assert_eq!(c.open_local(local_bidi(0), 1), OpenOutcome::Admitted);
    assert_eq!(c.open_local(local_bidi(1), 2), OpenOutcome::Admitted);
    assert_eq!(c.open_local(local_bidi(2), 3), OpenOutcome::Suspended);
    assert_eq!(c.cancel_open(local_bidi(2)), Some(3));
    let resumed = c.on_peer_limit_update(StreamDirection::Bidirectional, 5).unwrap();
    assert!(resumed.is_empty());
}

fn local_uni_id(n: u64) -> StreamId {
    StreamId::nth(EndpointRole::Server, StreamDirection::Unidirectional, n).unwrap()
}
