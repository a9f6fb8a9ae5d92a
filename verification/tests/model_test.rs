//! Model test: drives the controller and an independent oracle through the
//! same operation sequence and checks after every step that limits and open
//! counts agree.

use std::collections::HashSet;

use stream_controller::controller::{AppStreamLimits, Controller, InitialStreamLimits};
use stream_controller::stream_id::StreamId;
use stream_controller::types::{EndpointRole, OpenOutcome, StreamDirection};

const LOCAL_ROLE: EndpointRole = EndpointRole::Server;
const REMOTE_ROLE: EndpointRole = EndpointRole::Client;

struct Oracle {
    // self-advertised limits for remote opens; grow by one per remote close
    advertised_bidi: u64,
    advertised_uni: u64,
    // peer-granted limits for local opens, capped by the app ceilings
    peer_bidi: u64,
    peer_uni: u64,
    app_bidi: u64,
    app_uni: u64,
    max_opened: [Option<u64>; 4],
    open_sets: [HashSet<u64>; 4],
}

#[derive(Clone, Copy, PartialEq)]
enum Class {
    LocalBidi,
    LocalUni,
    RemoteBidi,
    RemoteUni,
}

impl Class {
    fn index(self) -> usize {
        match self {
            Class::LocalBidi => 0,
            Class::LocalUni => 1,
            Class::RemoteBidi => 2,
            Class::RemoteUni => 3,
        }
    }

    fn direction(self) -> StreamDirection {
        match self {
            Class::LocalBidi | Class::RemoteBidi => StreamDirection::Bidirectional,
            Class::LocalUni | Class::RemoteUni => StreamDirection::Unidirectional,
        }
    }

    fn initiator(self) -> EndpointRole {
        match self {
            Class::LocalBidi | Class::LocalUni => LOCAL_ROLE,
            Class::RemoteBidi | Class::RemoteUni => REMOTE_ROLE,
        }
    }
}

impl Oracle {
    fn limit(&self, class: Class) -> u64 {
        match class {
            Class::LocalBidi => self.peer_bidi.min(self.app_bidi),
            Class::LocalUni => self.peer_uni.min(self.app_uni),
            Class::RemoteBidi => self.advertised_bidi,
            Class::RemoteUni => self.advertised_uni,
        }
    }

    fn can_open(&self, class: Class, nth: u64) -> bool {
        nth + 1 <= self.limit(class)
    }

    fn can_close(&self, class: Class, nth: u64) -> bool {
        self.open_sets[class.index()].contains(&nth)
    }

    // The contiguous ordinals a request up to `nth` would newly open; `None`
    // when `nth` was already opened (a higher open implies the lower ones).
    fn open_range(&self, class: Class, nth: u64) -> Option<std::ops::RangeInclusive<u64>> {
        match self.max_opened[class.index()] {
            Some(max) if max >= nth => None,
            Some(max) => Some(max + 1..=nth),
            None => Some(0..=nth),
        }
    }

    fn on_open(&mut self, class: Class, nth: u64) {
        self.max_opened[class.index()] = Some(nth);
        self.open_sets[class.index()].insert(nth);
    }

    fn on_close(&mut self, class: Class, nth: u64) {
        assert!(self.open_sets[class.index()].remove(&nth));
        match class {
            Class::RemoteBidi => self.advertised_bidi += 1,
            Class::RemoteUni => self.advertised_uni += 1,
            _ => {}
        }
    }
}

struct Model {
    oracle: Oracle,
    subject: Controller,
}

impl Model {
    fn new() -> Model {
        let oracle = Oracle {
            advertised_bidi: 3,
            advertised_uni: 1,
            peer_bidi: 2,
            peer_uni: 1,
            app_bidi: 5,
            app_uni: 5,
            max_opened: [None; 4],
            open_sets: [HashSet::new(), HashSet::new(), HashSet::new(), HashSet::new()],
        };
        let subject = Controller::new(
            LOCAL_ROLE,
            InitialStreamLimits {
                max_streams_bidi: oracle.peer_bidi,
                max_streams_uni: oracle.peer_uni,
            },
            InitialStreamLimits {
                max_streams_bidi: oracle.advertised_bidi,
                max_streams_uni: oracle.advertised_uni,
            },
            AppStreamLimits { max_local_bidi: oracle.app_bidi, max_local_uni: oracle.app_uni },
        );
        Model { oracle, subject }
    }

    fn open_local(&mut self, class: Class, nth: u64) {
        let range = match self.oracle.open_range(class, nth) {
            Some(range) => range,
            None => return,
        };
        for i in range {
            let id = StreamId::nth(class.initiator(), class.direction(), i).unwrap();
            let res = self.subject.open_local(id, i);
            if self.oracle.can_open(class, i) {
                assert_eq!(res, OpenOutcome::Admitted);
                self.oracle.on_open(class, i);
            } else {
                assert_eq!(res, OpenOutcome::Suspended);
            }
        }
    }

    fn open_remote(&mut self, class: Class, nth: u64) {
        let range = match self.oracle.open_range(class, nth) {
            Some(range) => range,
            None => return,
        };
        let start = StreamId::nth(class.initiator(), class.direction(), *range.start()).unwrap();
        let end = StreamId::nth(class.initiator(), class.direction(), *range.end()).unwrap();
        let res = self.subject.open_remote(start, end);
        if self.oracle.can_open(class, nth) {
            assert!(res.is_ok());
            for i in range {
                self.oracle.on_open(class, i);
            }
        } else {
            assert!(res.is_err());
        }
    }

    fn close(&mut self, class: Class, nth: u64) {
        if !self.oracle.can_close(class, nth) {
            return;
        }
        self.oracle.on_close(class, nth);
        let id = StreamId::nth(class.initiator(), class.direction(), nth).unwrap();
        let res = self.subject.close(id).unwrap();
        match class {
            Class::RemoteBidi | Class::RemoteUni => {
                assert_eq!(res, Some(self.oracle.limit(class)));
            }
            _ => assert_eq!(res, None),
        }
    }

    fn apply(&mut self, operation: (Class, bool, u64)) {
        let (class, is_open, nth) = operation;
        match (class, is_open) {
            (Class::LocalBidi | Class::LocalUni, true) => self.open_local(class, nth),
            (Class::RemoteBidi | Class::RemoteUni, true) => self.open_remote(class, nth),
            (_, false) => self.close(class, nth),
        }
    }

    /// Check that the subject and oracle match.
    fn invariants(&self) {
        assert_eq!(
            self.subject.advertised_remote_limit(StreamDirection::Bidirectional),
            self.oracle.limit(Class::RemoteBidi)
        );
        assert_eq!(
            self.subject.advertised_remote_limit(StreamDirection::Unidirectional),
            self.oracle.limit(Class::RemoteUni)
        );
        assert_eq!(
            self.subject.local_open_count(StreamDirection::Bidirectional),
            self.oracle.open_sets[Class::LocalBidi.index()].len() as u64
        );
        assert_eq!(
            self.subject.local_open_count(StreamDirection::Unidirectional),
            self.oracle.open_sets[Class::LocalUni.index()].len() as u64
        );
        assert_eq!(
            self.subject.remote_open_count(StreamDirection::Bidirectional),
            self.oracle.open_sets[Class::RemoteBidi.index()].len() as u64
        );
        assert_eq!(
            self.subject.remote_open_count(StreamDirection::Unidirectional),
            self.oracle.open_sets[Class::RemoteUni.index()].len() as u64
        );
    }
}

#[test]
fn model_test() {
    let operations: [(Class, bool, u64); 18] = [
        // (class, is_open, ordinal); a close with is_open == false
        (Class::LocalBidi, true, 1),
        (Class::LocalBidi, true, 3),
        (Class::LocalBidi, false, 0),
        (Class::LocalBidi, false, 0),
        (Class::RemoteBidi, true, 3),
        (Class::RemoteBidi, true, 2),
        (Class::RemoteBidi, false, 1),
        (Class::RemoteBidi, true, 3),
        (Class::RemoteUni, true, 0),
        (Class::RemoteUni, true, 1),
        (Class::RemoteUni, false, 0),
        (Class::RemoteUni, true, 1),
        (Class::LocalUni, true, 0),
        (Class::LocalUni, true, 1),
        (Class::LocalUni, false, 0),
        (Class::LocalUni, true, 1),
        (Class::RemoteBidi, false, 5),
        (Class::LocalBidi, true, 2),
    ];
    let mut model = Model::new();
    for operation in operations {
        model.apply(operation);
        model.invariants();
    }
}
