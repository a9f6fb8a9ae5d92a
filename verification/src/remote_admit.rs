//! Admission of peer-initiated streams of one direction.
//!
//! The local endpoint advertises how many streams of this class the peer may
//! hold open at once.  Observing a stream with ordinal `n` implicitly opens
//! every lower ordinal of the class not yet seen, so admission works on the
//! contiguous range from the high-water mark to the observed ordinal, as one
//! unit: either the whole range is admitted or, on a limit violation,
//! nothing is.  Closing an admitted stream frees exactly one slot of the
//! sliding window: the advertised limit grows by one and the new value is
//! returned, to be signalled to the peer.

use vstd::prelude::*;

use crate::ordering::{
    lemma_ascending_len_bounded, lemma_remove_unique_element, strictly_ascending,
};
use crate::types::{CloseOfUnopenedStream, LimitViolation, MAX_ORDINAL, VARINT_MAX};

verus! {

/// The ordinals `lo`, `lo + 1`, ..., `hi - 1`, in ascending order.
pub open spec fn ordinal_range(lo: int, hi: int) -> Seq<u64> {
    Seq::new(if hi >= lo { (hi - lo) as nat } else { 0 }, |i: int| (lo + i) as u64)
}

/// Admission gate for peer-initiated streams of one stream direction.
pub struct RemoteAdmitController {
    /// The limit advertised at handshake time; fixed, kept to relate the
    /// current limit to the closures that extended it.
    pub initial_limit: u64,
    /// The limit currently advertised to the peer: the initial limit plus
    /// one for every admitted stream closed since.  Grows only.
    pub advertised: u64,
    /// Highest ordinal admitted so far, if any; never decreases.  Every
    /// ordinal at or below it has been admitted.
    pub highest: Option<u64>,
    /// Ordinals currently open (admitted and not yet closed), strictly
    /// ascending.
    pub open_ordinals: Vec<u64>,
}

impl RemoteAdmitController {
    /// How many ordinals of this class have been admitted: one past the
    /// highest admitted ordinal.
    pub open spec fn admitted_count(self) -> int {
        match self.highest {
            Some(h) => h + 1,
            None => 0,
        }
    }

    /// Whether ordinal `n` has been admitted (it may have been closed since).
    pub open spec fn is_admitted(self, n: u64) -> bool {
        self.highest is Some && n <= self.highest->0
    }

    /// Whether ordinal `n` is currently open.
    pub open spec fn is_open(self, n: u64) -> bool {
        self.open_ordinals@.contains(n)
    }

    /// Number of currently open streams of this class.
    pub open spec fn open_count(self) -> int {
        self.open_ordinals@.len() as int
    }

    /// Internal invariant, established by the constructor and preserved by
    /// every operation.  The sliding-window rule is the accounting equation:
    /// the advertised limit equals the initial limit plus the number of
    /// admitted streams closed again since.
    pub open spec fn wf(self) -> bool {
        &&& self.initial_limit <= VARINT_MAX
        &&& self.highest is Some ==> self.highest->0 <= MAX_ORDINAL
        &&& self.admitted_count() <= self.advertised
        &&& self.advertised == self.initial_limit + self.admitted_count() - self.open_ordinals@.len()
        &&& strictly_ascending(self.open_ordinals@)
        &&& forall|i: int|
            0 <= i < self.open_ordinals@.len() ==> (#[trigger] self.open_ordinals@[i]) + 1
                <= self.admitted_count()
    }

    /// A fresh gate advertising `initial_limit`: nothing admitted, nothing
    /// open.
    pub fn new(initial_limit: u64) -> (r: RemoteAdmitController)
        requires
            initial_limit <= VARINT_MAX,
        ensures
            r.wf(),
            r.initial_limit == initial_limit,
            r.advertised == initial_limit,
            r.highest is None,
            r.open_count() == 0,
    {
        RemoteAdmitController {
            initial_limit,
            advertised: initial_limit,
            highest: None,
            open_ordinals: Vec::new(),
        }
    }

    /// Whether admission up to ordinal `end` goes through on this state:
    /// either the range is already admitted, or one past `end` fits the
    /// advertised limit.
    pub open spec fn admit_succeeds(self, end: u64) -> bool {
        self.is_admitted(end) || end + 1 <= self.advertised
    }

    /// What `admit_up_to` does: a range at or below the high-water mark is a
    /// no-op success; a range past the advertised limit fails and admits
    /// nothing; otherwise every not-yet-admitted ordinal up to `end` is
    /// opened, in ascending order, and the high-water mark moves to `end`.
    /// The advertised limit never changes.
    pub open spec fn admit_post(pre: RemoteAdmitController, post: RemoteAdmitController, end: u64, r: Result<(), LimitViolation>) -> bool {
        &&& post.initial_limit == pre.initial_limit
        &&& post.advertised == pre.advertised
        &&& if pre.is_admitted(end) {
            &&& r is Ok
            &&& post == pre
        } else if end + 1 > pre.advertised {
            &&& r is Err
            &&& post == pre
        } else {
            &&& r is Ok
            &&& post.highest == Some(end)
            &&& post.open_ordinals@ == pre.open_ordinals@ + ordinal_range(
                pre.admitted_count(),
                end + 1,
            )
            &&& post.open_count() == pre.open_count() + (end + 1 - pre.admitted_count())
        }
    }

    /// Admits every not-yet-admitted stream of this class up to ordinal
    /// `end`, as one unit.  A range already admitted is a no-op success
    /// (idempotent re-delivery); a range beyond the advertised limit fails
    /// with `LimitViolation` and admits nothing.
    pub fn admit_up_to(&mut self, end: u64) -> (r: Result<(), LimitViolation>)
        requires
            old(self).wf(),
            end <= MAX_ORDINAL,
        ensures
            final(self).wf(),
            RemoteAdmitController::admit_post(*old(self), *final(self), end, r),
    {
        let already = match self.highest {
            Some(h) => end <= h,
            None => false,
        };
        if already {
            return Ok(());
        }
        if end >= self.advertised {
            return Err(LimitViolation);
        }
        let ghost pre = *self;
        let mut next: u64 = match self.highest {
            Some(h) => h + 1,
            None => 0,
        };
        proof {
            assert(self.open_ordinals@ =~= pre.open_ordinals@ + ordinal_range(
                pre.admitted_count(),
                next as int,
            ));
        }
        while next <= end
            invariant
                pre.admitted_count() <= next <= end + 1,
                end <= MAX_ORDINAL,
                self.initial_limit == pre.initial_limit,
                self.advertised == pre.advertised,
                self.highest == pre.highest,
                self.open_ordinals@ == pre.open_ordinals@ + ordinal_range(
                    pre.admitted_count(),
                    next as int,
                ),
            decreases end + 1 - next,
        {
            self.open_ordinals.push(next);
            proof {
                assert(self.open_ordinals@ =~= pre.open_ordinals@ + ordinal_range(
                    pre.admitted_count(),
                    next + 1,
                ));
            }
            next += 1;
        }
        self.highest = Some(end);
        proof {
            let adm = pre.admitted_count();
            assert forall|i: int, j: int|
                0 <= i < j < self.open_ordinals@.len() implies self.open_ordinals@[i]
                < self.open_ordinals@[j] by {
                let plen = pre.open_ordinals@.len() as int;
                if i < plen {
                    assert(self.open_ordinals@[i] == pre.open_ordinals@[i]);
                    assert(pre.open_ordinals@[i] + 1 <= adm);
                }
                if j >= plen {
                    assert(self.open_ordinals@[j] == (adm + (j - plen)) as u64);
                }
            }
        }
        Ok(())
    }

    /// What `on_close` does: closing an open ordinal removes exactly it from
    /// the open set and raises the advertised limit by exactly one, the new
    /// value being returned for the limit-update signal to the peer.
    /// Closing an ordinal that is not open changes nothing and reports the
    /// usage error.
    pub open spec fn close_post(pre: RemoteAdmitController, post: RemoteAdmitController, n: u64, r: Result<u64, CloseOfUnopenedStream>) -> bool {
        match r {
            Result::Ok(new_limit) => {
                &&& pre.is_open(n)
                &&& post.initial_limit == pre.initial_limit
                &&& post.highest == pre.highest
                &&& post.advertised == pre.advertised + 1
                &&& new_limit == post.advertised
                &&& post.open_count() == pre.open_count() - 1
                &&& forall|x: u64| #![auto] post.is_open(x) <==> pre.is_open(x) && x != n
            },
            Result::Err(_) => {
                &&& !pre.is_open(n)
                &&& post == pre
            },
        }
    }

    /// Closes the open stream with ordinal `n`.  The closure frees one slot
    /// of the sliding window: the advertised limit grows by exactly one and
    /// the new value is returned so the collaborator can signal it to the
    /// peer.  Closing an ordinal that is not open is a usage error and
    /// leaves the state untouched.
    pub fn on_close(&mut self, n: u64) -> (r: Result<u64, CloseOfUnopenedStream>)
        requires
            old(self).wf(),
        ensures
            final(self).wf(),
            RemoteAdmitController::close_post(*old(self), *final(self), n, r),
    {
        let ghost pre = *self;
        let len = self.open_ordinals.len();
        let mut i: usize = 0;
        while i < len && self.open_ordinals[i] != n
            invariant
                i <= len,
                len == self.open_ordinals@.len(),
                *self == pre,
                forall|j: int| 0 <= j < i ==> pre.open_ordinals@[j] != n,
            decreases len - i,
        {
            i += 1;
        }
        if i == len {
            return Err(CloseOfUnopenedStream);
        }
        self.open_ordinals.remove(i);
        proof {
            assert(pre.open_ordinals@[i as int] == n);
            assert(pre.advertised == pre.initial_limit + pre.admitted_count()
                - pre.open_ordinals@.len());
            assert(pre.admitted_count() <= MAX_ORDINAL + 1);
            assert(pre.advertised < u64::MAX);
            assert forall|x: u64| #![auto] self.is_open(x) <==> pre.is_open(x) && x != n by {
                lemma_remove_unique_element(pre.open_ordinals@, i as int, x);
            }
        }
        self.advertised = self.advertised + 1;
        Ok(self.advertised)
    }

    /// The limit currently advertised to the peer; the value a duplicate or
    /// retransmitted limit-update frame should carry.
    pub fn current_limit(&self) -> (r: u64)
        ensures
            r == self.advertised,
    {
        self.advertised
    }

    /// Number of currently open streams of this class.
    pub fn open_stream_count(&self) -> (r: u64)
        requires
            self.wf(),
        ensures
            r == self.open_count(),
    {
        self.open_ordinals.len() as u64
    }

    /// The highest ordinal admitted so far, if any.
    pub fn highest_admitted(&self) -> (r: Option<u64>)
        ensures
            r == self.highest,
    {
        self.highest
    }
}

/// Law: the number of open streams of a remote class never exceeds the
/// advertised limit, and never exceeds the initially advertised limit — the
/// sliding window never over-commits.
pub proof fn lemma_remote_open_count_bounded(c: RemoteAdmitController)
    requires
        c.wf(),
    ensures
        c.open_count() <= c.advertised,
        c.open_count() <= c.initial_limit,
{
    if c.open_ordinals@.len() > 0 {
        assert(c.open_ordinals@[0] + 1 <= c.admitted_count());
        assert(c.admitted_count() >= 1);
        lemma_ascending_len_bounded(c.open_ordinals@, (c.admitted_count() - 1) as u64);
    }
}

/// Law: a closure extends the window past the old boundary.  An admission
/// ending exactly at the old advertised limit fails before the closure and
/// succeeds right after it.
pub proof fn lemma_close_opens_boundary(
    pre: RemoteAdmitController,
    post: RemoteAdmitController,
    n: u64,
    new_limit: u64,
)
    requires
        pre.wf(),
        RemoteAdmitController::close_post(pre, post, n, Ok(new_limit)),
        pre.advertised <= MAX_ORDINAL,
    ensures
        !pre.admit_succeeds(pre.advertised),
        post.admit_succeeds(pre.advertised),
{
}

/// Law: the high-water mark of admitted ordinals never decreases, and the
/// advertised limit never shrinks — not on an admission, not on a close.
pub proof fn lemma_window_never_shrinks(pre: RemoteAdmitController, post: RemoteAdmitController)
    requires
        (exists|end: u64, r: Result<(), LimitViolation>|
            RemoteAdmitController::admit_post(pre, post, end, r)) || (exists|
            n: u64,
            r: Result<u64, CloseOfUnopenedStream>,
        | RemoteAdmitController::close_post(pre, post, n, r)),
    ensures
        post.admitted_count() >= pre.admitted_count(),
        post.advertised >= pre.advertised,
{
}

/// Law: re-delivering an admitted range is a no-op success: after an
/// admission up to `end`, a second admission up to `end` returns success and
/// changes nothing.
pub proof fn lemma_readmit_is_noop(
    pre: RemoteAdmitController,
    mid: RemoteAdmitController,
    post: RemoteAdmitController,
    end: u64,
    r: Result<(), LimitViolation>,
)
    requires
        RemoteAdmitController::admit_post(pre, mid, end, Ok(())),
        RemoteAdmitController::admit_post(mid, post, end, r),
    ensures
        r is Ok,
        post == mid,
{
    assert(mid.is_admitted(end));
}

} // verus!
