//! The aggregate stream concurrency controller of one connection.
//!
//! Composes one local-open gate and one remote-admit gate per direction,
//! seeded with the negotiated initial limits, and routes every operation to
//! the sub-controller owning the stream's class.

use vstd::prelude::*;

use crate::local_open::LocalOpenController;
use crate::remote_admit::RemoteAdmitController;
use crate::stream_id::StreamId;
use crate::types::{
    CloseOfUnopenedStream, EndpointRole, LimitDecreaseRejected, LimitViolation, OpenOutcome,
    RelativeInitiator, StreamClass, StreamDirection, VARINT_MAX,
};

verus! {

/// Initial per-direction stream-count limits, as negotiated in the
/// handshake's transport parameters: one pair advertised by each endpoint.
#[derive(Clone, Copy, Debug, PartialEq, Eq, Structural)]
pub struct InitialStreamLimits {
    pub max_streams_bidi: u64,
    pub max_streams_uni: u64,
}

/// Application-configured ceilings on locally-initiated opens, one per
/// direction; they cap the peer-granted limits for the life of the
/// connection.
#[derive(Clone, Copy, Debug, PartialEq, Eq, Structural)]
pub struct AppStreamLimits {
    pub max_local_bidi: u64,
    pub max_local_uni: u64,
}

/// Stream concurrency controller of one connection: the four per-class
/// sub-controllers and the local endpoint's role.
pub struct Controller {
    pub local_role: EndpointRole,
    pub local_bidi: LocalOpenController,
    pub local_uni: LocalOpenController,
    pub remote_bidi: RemoteAdmitController,
    pub remote_uni: RemoteAdmitController,
}

impl Controller {
    /// The local-open gate owning the given direction.
    pub open spec fn local_sub(self, direction: StreamDirection) -> LocalOpenController {
        match direction {
            StreamDirection::Bidirectional => self.local_bidi,
            StreamDirection::Unidirectional => self.local_uni,
        }
    }

    /// The remote-admit gate owning the given direction.
    pub open spec fn remote_sub(self, direction: StreamDirection) -> RemoteAdmitController {
        match direction {
            StreamDirection::Bidirectional => self.remote_bidi,
            StreamDirection::Unidirectional => self.remote_uni,
        }
    }

    /// Internal invariant: every sub-controller is well-formed.
    pub open spec fn wf(self) -> bool {
        &&& self.local_bidi.wf()
        &&& self.local_uni.wf()
        &&& self.remote_bidi.wf()
        &&& self.remote_uni.wf()
    }

    /// A controller for a fresh connection.  `peer_initial` carries the
    /// limits the peer granted for local opens, `local_initial` the limits
    /// this endpoint advertises for remote opens, `app` the application
    /// ceilings on local opens.  Inconsistent ceilings are unrepresentable
    /// in these types, so construction cannot fail.
    pub fn new(
        local_role: EndpointRole,
        peer_initial: InitialStreamLimits,
        local_initial: InitialStreamLimits,
        app: AppStreamLimits,
    ) -> (r: Controller)
        requires
            peer_initial.max_streams_bidi <= VARINT_MAX,
            peer_initial.max_streams_uni <= VARINT_MAX,
            local_initial.max_streams_bidi <= VARINT_MAX,
            local_initial.max_streams_uni <= VARINT_MAX,
            app.max_local_bidi <= VARINT_MAX,
            app.max_local_uni <= VARINT_MAX,
        ensures
            r.wf(),
            r.local_role == local_role,
            r.local_bidi.peer_granted == peer_initial.max_streams_bidi,
            r.local_bidi.app_ceiling == app.max_local_bidi,
            r.local_uni.peer_granted == peer_initial.max_streams_uni,
            r.local_uni.app_ceiling == app.max_local_uni,
            r.remote_bidi.advertised == local_initial.max_streams_bidi,
            r.remote_uni.advertised == local_initial.max_streams_uni,
            r.local_bidi.highest is None && r.local_bidi.open_count() == 0,
            r.local_uni.highest is None && r.local_uni.open_count() == 0,
            r.remote_bidi.highest is None && r.remote_bidi.open_count() == 0,
            r.remote_uni.highest is None && r.remote_uni.open_count() == 0,
            r.local_bidi.pending@.len() == 0,
            r.local_uni.pending@.len() == 0,
    {
        Controller {
            local_role,
            local_bidi: LocalOpenController::new(peer_initial.max_streams_bidi, app.max_local_bidi),
            local_uni: LocalOpenController::new(peer_initial.max_streams_uni, app.max_local_uni),
            remote_bidi: RemoteAdmitController::new(local_initial.max_streams_bidi),
            remote_uni: RemoteAdmitController::new(local_initial.max_streams_uni),
        }
    }

    /// The class of `id` relative to this connection's local role.
    pub fn classify(&self, id: StreamId) -> (r: StreamClass)
        ensures
            r == id.spec_classify(self.local_role),
    {
        id.classify(self.local_role)
    }

    /// Attempts to open the locally-initiated stream `id`.  An ordinal
    /// within the effective limit of its class is admitted; an already
    /// admitted ordinal is a no-op success; otherwise the attempt is
    /// suspended and `handle` registered for resumption by a later limit
    /// increase.
    pub fn open_local(&mut self, id: StreamId, handle: u64) -> (r: OpenOutcome)
        requires
            old(self).wf(),
            id.wf(),
            id.spec_classify(old(self).local_role).initiator == RelativeInitiator::Local,
        ensures
            final(self).wf(),
            final(self).local_role == old(self).local_role,
            final(self).remote_bidi == old(self).remote_bidi,
            final(self).remote_uni == old(self).remote_uni,
            id.spec_direction() is Bidirectional ==> final(self).local_uni == old(self).local_uni,
            id.spec_direction() is Unidirectional ==> final(self).local_bidi == old(
                self,
            ).local_bidi,
            LocalOpenController::attempt_post(
                old(self).local_sub(id.spec_direction()),
                final(self).local_sub(id.spec_direction()),
                id.spec_ordinal(),
                handle,
                r,
            ),
    {
        let n = id.ordinal();
        match id.direction() {
            StreamDirection::Bidirectional => self.local_bidi.attempt_open(n, handle),
            StreamDirection::Unidirectional => self.local_uni.attempt_open(n, handle),
        }
    }

    /// Admits the contiguous range of remotely-initiated streams from
    /// `start` to `end`: observing `end` implicitly opens every lower
    /// ordinal of its class not yet seen, as one unit.  Fails with
    /// `LimitViolation`, admitting nothing, if the range ends beyond the
    /// advertised limit.
    pub fn open_remote(&mut self, start: StreamId, end: StreamId) -> (r: Result<
        (),
        LimitViolation,
    >)
        requires
            old(self).wf(),
            start.wf(),
            end.wf(),
            start.spec_classify(old(self).local_role).initiator == RelativeInitiator::Remote,
            start.spec_direction() == end.spec_direction(),
            start.spec_initiator_role() == end.spec_initiator_role(),
            start.spec_ordinal() <= end.spec_ordinal(),
        ensures
            final(self).wf(),
            final(self).local_role == old(self).local_role,
            final(self).local_bidi == old(self).local_bidi,
            final(self).local_uni == old(self).local_uni,
            end.spec_direction() is Bidirectional ==> final(self).remote_uni == old(
                self,
            ).remote_uni,
            end.spec_direction() is Unidirectional ==> final(self).remote_bidi == old(
                self,
            ).remote_bidi,
            RemoteAdmitController::admit_post(
                old(self).remote_sub(end.spec_direction()),
                final(self).remote_sub(end.spec_direction()),
                end.spec_ordinal(),
                r,
            ),
    {
        let n = end.ordinal();
        match end.direction() {
            StreamDirection::Bidirectional => self.remote_bidi.admit_up_to(n),
            StreamDirection::Unidirectional => self.remote_uni.admit_up_to(n),
        }
    }

    /// Closes the open stream `id`, whatever its class.  For a
    /// remote-initiated class the closure raises that class's advertised
    /// limit by one and returns `Some` of the new value, to be signalled to
    /// the peer; for a local-initiated class no limit changes and `None` is
    /// returned.  Closing a stream that is not open is a usage error and
    /// changes nothing.
    pub fn close(&mut self, id: StreamId) -> (r: Result<Option<u64>, CloseOfUnopenedStream>)
        requires
            old(self).wf(),
            id.wf(),
        ensures
            final(self).wf(),
            final(self).local_role == old(self).local_role,
            ({
                let class = id.spec_classify(old(self).local_role);
                let dir = id.spec_direction();
                let n = id.spec_ordinal();
                if class.initiator is Local {
                    &&& final(self).remote_bidi == old(self).remote_bidi
                    &&& final(self).remote_uni == old(self).remote_uni
                    &&& dir is Bidirectional ==> final(self).local_uni == old(self).local_uni
                    &&& dir is Unidirectional ==> final(self).local_bidi == old(self).local_bidi
                    &&& r is Ok ==> r->Ok_0 is None && LocalOpenController::close_post(
                        old(self).local_sub(dir),
                        final(self).local_sub(dir),
                        n,
                        Ok(()),
                    )
                    &&& r is Err ==> LocalOpenController::close_post(
                        old(self).local_sub(dir),
                        final(self).local_sub(dir),
                        n,
                        Err(CloseOfUnopenedStream),
                    )
                } else {
                    &&& final(self).local_bidi == old(self).local_bidi
                    &&& final(self).local_uni == old(self).local_uni
                    &&& dir is Bidirectional ==> final(self).remote_uni == old(self).remote_uni
                    &&& dir is Unidirectional ==> final(self).remote_bidi == old(self).remote_bidi
                    &&& r is Ok ==> r->Ok_0 is Some && RemoteAdmitController::close_post(
                        old(self).remote_sub(dir),
                        final(self).remote_sub(dir),
                        n,
                        Ok(r->Ok_0->0),
                    )
                    &&& r is Err ==> RemoteAdmitController::close_post(
                        old(self).remote_sub(dir),
                        final(self).remote_sub(dir),
                        n,
                        Err(CloseOfUnopenedStream),
                    )
                }
            }),
    {
        let class = self.classify(id);
        let n = id.ordinal();
        match (class.initiator, class.direction) {
            (RelativeInitiator::Local, StreamDirection::Bidirectional) => {
                match self.local_bidi.on_close(n) {
                    Ok(_) => Ok(None),
                    Err(e) => Err(e),
                }
            },
            (RelativeInitiator::Local, StreamDirection::Unidirectional) => {
                match self.local_uni.on_close(n) {
                    Ok(_) => Ok(None),
                    Err(e) => Err(e),
                }
            },
            (RelativeInitiator::Remote, StreamDirection::Bidirectional) => {
                match self.remote_bidi.on_close(n) {
                    Ok(new_limit) => Ok(Some(new_limit)),
                    Err(e) => Err(e),
                }
            },
            (RelativeInitiator::Remote, StreamDirection::Unidirectional) => {
                match self.remote_uni.on_close(n) {
                    Ok(new_limit) => Ok(Some(new_limit)),
                    Err(e) => Err(e),
                }
            },
        }
    }

    /// Applies a peer limit update for locally-initiated streams of
    /// `direction`.  A decrease is rejected unapplied; an increase resumes
    /// every suspended attempt it makes admissible, returning their handles
    /// in ascending ordinal order.
    pub fn on_peer_limit_update(&mut self, direction: StreamDirection, new_limit: u64) -> (r:
        Result<Vec<u64>, LimitDecreaseRejected>)
        requires
            old(self).wf(),
            new_limit <= VARINT_MAX,
        ensures
            final(self).wf(),
            final(self).local_role == old(self).local_role,
            final(self).remote_bidi == old(self).remote_bidi,
            final(self).remote_uni == old(self).remote_uni,
            direction is Bidirectional ==> final(self).local_uni == old(self).local_uni,
            direction is Unidirectional ==> final(self).local_bidi == old(self).local_bidi,
            LocalOpenController::limit_increase_post(
                old(self).local_sub(direction),
                final(self).local_sub(direction),
                new_limit,
                r,
            ),
    {
        match direction {
            StreamDirection::Bidirectional => self.local_bidi.on_limit_increased(new_limit),
            StreamDirection::Unidirectional => self.local_uni.on_limit_increased(new_limit),
        }
    }

    /// Withdraws the suspended attempt on the locally-initiated stream `id`,
    /// if one is registered, returning its handle; the registration is
    /// removed so no stale wake can occur.
    pub fn cancel_open(&mut self, id: StreamId) -> (r: Option<u64>)
        requires
            old(self).wf(),
            id.wf(),
            id.spec_classify(old(self).local_role).initiator == RelativeInitiator::Local,
        ensures
            final(self).wf(),
            final(self).local_role == old(self).local_role,
            final(self).remote_bidi == old(self).remote_bidi,
            final(self).remote_uni == old(self).remote_uni,
            id.spec_direction() is Bidirectional ==> final(self).local_uni == old(self).local_uni,
            id.spec_direction() is Unidirectional ==> final(self).local_bidi == old(
                self,
            ).local_bidi,
            r is None ==> !old(self).local_sub(id.spec_direction()).is_suspended(
                id.spec_ordinal(),
            ) && final(self).local_sub(id.spec_direction()) == old(self).local_sub(
                id.spec_direction(),
            ),
            r is Some ==> final(self).local_sub(id.spec_direction()).pending@.len() == old(
                self,
            ).local_sub(id.spec_direction()).pending@.len() - 1 && !final(self).local_sub(
                id.spec_direction(),
            ).is_suspended(id.spec_ordinal()),
    {
        let n = id.ordinal();
        let r = match id.direction() {
            StreamDirection::Bidirectional => self.local_bidi.cancel_attempt(n),
            StreamDirection::Unidirectional => self.local_uni.cancel_attempt(n),
        };
        proof {
            let dir = id.spec_direction();
            if r is Some {
                let sub = self.local_sub(dir);
                if crate::local_open::contains_ordinal(sub.pending@, n) {
                    let w = choose|w: int|
                        0 <= w < sub.pending@.len() && sub.pending@[w].ordinal == n;
                    assert(old(self).local_sub(dir).pending@.contains(sub.pending@[w]));
                }
            }
        }
        r
    }

    /// Number of open locally-initiated streams of `direction`.
    pub fn local_open_count(&self, direction: StreamDirection) -> (r: u64)
        requires
            self.wf(),
        ensures
            r == self.local_sub(direction).open_count(),
    {
        match direction {
            StreamDirection::Bidirectional => self.local_bidi.open_stream_count(),
            StreamDirection::Unidirectional => self.local_uni.open_stream_count(),
        }
    }

    /// Number of open remotely-initiated streams of `direction`.
    pub fn remote_open_count(&self, direction: StreamDirection) -> (r: u64)
        requires
            self.wf(),
        ensures
            r == self.remote_sub(direction).open_count(),
    {
        match direction {
            StreamDirection::Bidirectional => self.remote_bidi.open_stream_count(),
            StreamDirection::Unidirectional => self.remote_uni.open_stream_count(),
        }
    }

    /// The cap currently applied to local opens of `direction`; the value a
    /// "blocked at limit" signal to the peer should carry.
    pub fn effective_local_limit(&self, direction: StreamDirection) -> (r: u64)
        ensures
            r == self.local_sub(direction).effective_limit(),
    {
        match direction {
            StreamDirection::Bidirectional => self.local_bidi.effective_limit_value(),
            StreamDirection::Unidirectional => self.local_uni.effective_limit_value(),
        }
    }

    /// The limit currently advertised to the peer for remote opens of
    /// `direction`; the value a duplicate or retransmitted limit-update
    /// frame should carry.
    pub fn advertised_remote_limit(&self, direction: StreamDirection) -> (r: u64)
        ensures
            r == self.remote_sub(direction).advertised,
    {
        match direction {
            StreamDirection::Bidirectional => self.remote_bidi.current_limit(),
            StreamDirection::Unidirectional => self.remote_uni.current_limit(),
        }
    }
}

/// Law: in a well-formed controller every class respects its limit — local
/// classes the effective limit (and so both the peer-granted limit and the
/// application ceiling), remote classes the advertised limit (and so the
/// initially advertised window).
pub proof fn lemma_controller_counts_bounded(c: Controller, direction: StreamDirection)
    requires
        c.wf(),
    ensures
        c.local_sub(direction).open_count() <= c.local_sub(direction).effective_limit(),
        c.local_sub(direction).open_count() <= c.local_sub(direction).peer_granted,
        c.local_sub(direction).open_count() <= c.local_sub(direction).app_ceiling,
        c.remote_sub(direction).open_count() <= c.remote_sub(direction).advertised,
        c.remote_sub(direction).open_count() <= c.remote_sub(direction).initial_limit,
{
    crate::local_open::lemma_open_count_within_limits(c.local_sub(direction));
    crate::remote_admit::lemma_remote_open_count_bounded(c.remote_sub(direction));
}

} // verus!
