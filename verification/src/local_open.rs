//! Gate for locally-initiated stream opens of one direction.
//!
//! A local open of ordinal `n` is admitted when `n + 1` does not exceed the
//! effective limit: the smaller of the limit granted by the peer and the
//! application-configured ceiling.  An attempt beyond the effective limit is
//! suspended: its resumption handle is registered, keyed by ordinal, and
//! handed back by the next limit increase that makes the ordinal admissible,
//! in ascending ordinal order, each registration at most once.

use vstd::prelude::*;

use crate::ordering::{lemma_ascending_len_bounded, lemma_remove_unique_element, strictly_ascending};
use crate::types::{LimitDecreaseRejected, CloseOfUnopenedStream, OpenOutcome, MAX_ORDINAL, VARINT_MAX};

verus! {

/// One suspended open attempt: the ordinal it waits to open and the
/// resumption handle to hand back when the ordinal becomes admissible.
#[derive(Clone, Copy, Debug, PartialEq, Eq, Structural)]
pub struct PendingOpen {
    pub ordinal: u64,
    pub handle: u64,
}

/// Registration tables are kept in strictly ascending ordinal order.
pub open spec fn pending_sorted(s: Seq<PendingOpen>) -> bool {
    forall|i: int, j: int| 0 <= i < j < s.len() ==> s[i].ordinal < s[j].ordinal
}

/// Whether some entry of the table waits on the given ordinal.
pub open spec fn contains_ordinal(s: Seq<PendingOpen>, n: u64) -> bool {
    exists|i: int| 0 <= i < s.len() && s[i].ordinal == n
}

/// The registration table `post` is `pre` with the attempt `(n, handle)`
/// registered: the new entry is present, every entry on another ordinal is
/// kept, nothing else appears, and no ordinal is registered twice.
pub open spec fn registered(pre: Seq<PendingOpen>, post: Seq<PendingOpen>, n: u64, handle: u64) -> bool {
    &&& post.contains(PendingOpen { ordinal: n, handle })
    &&& forall|i: int| 0 <= i < pre.len() && pre[i].ordinal != n ==> post.contains(#[trigger] pre[i])
    &&& forall|i: int| 0 <= i < post.len() && post[i].ordinal != n ==> pre.contains(#[trigger] post[i])
    &&& post.len() == if contains_ordinal(pre, n) {
        pre.len() as int
    } else {
        pre.len() + 1int
    }
}

/// How many leading table entries wait on an ordinal below `limit`; in a
/// sorted table these are exactly the entries resumable once `limit` is the
/// effective limit.
pub open spec fn resumable_count(s: Seq<PendingOpen>, limit: u64) -> int
    decreases s.len(),
{
    if s.len() == 0 {
        0int
    } else if s[0].ordinal < limit {
        1 + resumable_count(s.drop_first(), limit)
    } else {
        0int
    }
}

/// Gate for locally-initiated opens of one stream direction.
pub struct LocalOpenController {
    /// Count of streams of this class the peer currently allows open; grows
    /// only, by peer limit updates.
    pub peer_granted: u64,
    /// Application-configured ceiling on the same count; fixed for the life
    /// of the connection.
    pub app_ceiling: u64,
    /// Highest ordinal admitted so far, if any; never decreases.
    pub highest: Option<u64>,
    /// Ordinals currently open (admitted and not yet closed), strictly
    /// ascending.
    pub open_ordinals: Vec<u64>,
    /// Suspended attempts, strictly ascending by ordinal, all of them beyond
    /// the effective limit.
    pub pending: Vec<PendingOpen>,
}

impl LocalOpenController {
    /// The cap actually applied to opens: the smaller of the peer-granted
    /// limit and the application ceiling.
    pub open spec fn effective_limit(self) -> u64 {
        if self.peer_granted <= self.app_ceiling {
            self.peer_granted
        } else {
            self.app_ceiling
        }
    }

    /// How many ordinals of this class have been admitted: one past the
    /// highest admitted ordinal.
    pub open spec fn admitted_count(self) -> int {
        match self.highest {
            Some(h) => h + 1,
            None => 0,
        }
    }

    /// Whether ordinal `n` has been admitted (it may have been closed since).
    pub open spec fn is_admitted(self, n: u64) -> bool {
        self.highest is Some && n <= self.highest->0
    }

    /// Whether ordinal `n` is currently open.
    pub open spec fn is_open(self, n: u64) -> bool {
        self.open_ordinals@.contains(n)
    }

    /// Number of currently open streams of this class.
    pub open spec fn open_count(self) -> int {
        self.open_ordinals@.len() as int
    }

    /// Whether an attempt on ordinal `n` is suspended.
    pub open spec fn is_suspended(self, n: u64) -> bool {
        contains_ordinal(self.pending@, n)
    }

    /// Internal invariant, established by the constructor and preserved by
    /// every operation.
    pub open spec fn wf(self) -> bool {
        &&& self.peer_granted <= VARINT_MAX
        &&& self.app_ceiling <= VARINT_MAX
        &&& self.highest is Some ==> self.highest->0 <= MAX_ORDINAL && self.highest->0
            < self.effective_limit()
        &&& strictly_ascending(self.open_ordinals@)
        &&& forall|i: int|
            0 <= i < self.open_ordinals@.len() ==> (#[trigger] self.open_ordinals@[i]) + 1
                <= self.admitted_count()
        &&& self.open_ordinals@.len() <= self.effective_limit()
        &&& pending_sorted(self.pending@)
        &&& forall|i: int|
            0 <= i < self.pending@.len() ==> (#[trigger] self.pending@[i]).ordinal <= MAX_ORDINAL
                && self.pending@[i].ordinal >= self.effective_limit()
    }

    /// A fresh gate, seeded with the peer-granted initial limit and the
    /// application ceiling: nothing admitted, nothing open, nothing pending.
    pub fn new(peer_granted: u64, app_ceiling: u64) -> (r: LocalOpenController)
        requires
            peer_granted <= VARINT_MAX,
            app_ceiling <= VARINT_MAX,
        ensures
            r.wf(),
            r.peer_granted == peer_granted,
            r.app_ceiling == app_ceiling,
            r.highest is None,
            r.open_count() == 0,
            r.pending@ == Seq::<PendingOpen>::empty(),
    {
        LocalOpenController {
            peer_granted,
            app_ceiling,
            highest: None,
            open_ordinals: Vec::new(),
            pending: Vec::new(),
        }
    }

    /// What `attempt_open` does: an admitted ordinal is re-admitted without
    /// change; an admissible one is recorded as highest and opened; any other
    /// is suspended, with its handle registered under its ordinal.  Limits
    /// never change.
    pub open spec fn attempt_post(pre: LocalOpenController, post: LocalOpenController, n: u64, handle: u64, r: OpenOutcome) -> bool {
        &&& post.peer_granted == pre.peer_granted
        &&& post.app_ceiling == pre.app_ceiling
        &&& if pre.is_admitted(n) {
            &&& r == OpenOutcome::Admitted
            &&& post == pre
        } else if n + 1 <= pre.effective_limit() {
            &&& r == OpenOutcome::Admitted
            &&& post.highest == Some(n)
            &&& post.open_ordinals@ == pre.open_ordinals@.push(n)
            &&& post.pending == pre.pending
        } else {
            &&& r == OpenOutcome::Suspended
            &&& post.highest == pre.highest
            &&& post.open_ordinals == pre.open_ordinals
            &&& registered(pre.pending@, post.pending@, n, handle)
        }
    }

    /// Attempts to open ordinal `n`.  A previously admitted ordinal is a
    /// no-op success; an ordinal within the effective limit is admitted; any
    /// other attempt is suspended and `handle` registered for resumption.
    /// Re-calling with the same ordinal and handle does not double-register.
    pub fn attempt_open(&mut self, n: u64, handle: u64) -> (r: OpenOutcome)
        requires
            old(self).wf(),
            n <= MAX_ORDINAL,
        ensures
            final(self).wf(),
            LocalOpenController::attempt_post(*old(self), *final(self), n, handle, r),
    {
        let already = match self.highest {
            Some(h) => n <= h,
            None => false,
        };
        if already {
            return OpenOutcome::Admitted;
        }
        let eff = if self.peer_granted <= self.app_ceiling {
            self.peer_granted
        } else {
            self.app_ceiling
        };
        if n < eff {
            let ghost pre = *self;
            proof {
                if pre.highest is Some {
                    lemma_ascending_len_bounded(pre.open_ordinals@, pre.highest->0);
                }
            }
            self.highest = Some(n);
            self.open_ordinals.push(n);
            proof {
                assert forall|j: int| 0 <= j < pre.open_ordinals@.len() implies #[trigger] pre
                    .open_ordinals@[j] < n by {
                    assert(pre.open_ordinals@[j] + 1 <= pre.admitted_count());
                }
                if pre.highest is None && pre.open_ordinals@.len() > 0 {
                    assert(pre.open_ordinals@[0] + 1 <= pre.admitted_count());
                }
                if pre.highest is Some {
                    assert(pre.open_ordinals@.len() <= pre.highest->0 + 1);
                }
            }
            return OpenOutcome::Admitted;
        }
        // Suspended: register (n, handle), keeping the table sorted and
        // replacing any earlier registration of the same ordinal.
        let ghost pre = *self;
        let mut updated: Vec<PendingOpen> = Vec::new();
        let len = self.pending.len();
        let mut i: usize = 0;
        while i < len && self.pending[i].ordinal < n
            invariant
                i <= len,
                len == self.pending@.len(),
                *self == pre,
                updated@ == pre.pending@.subrange(0, i as int),
                forall|j: int| 0 <= j < i ==> (#[trigger] pre.pending@[j]).ordinal < n,
            decreases len - i,
        {
            let entry = self.pending[i];
            updated.push(entry);
            proof {
                assert(updated@ =~= pre.pending@.subrange(0, i as int + 1));
            }
            i += 1;
        }
        let ghost a = i as int;
        updated.push(PendingOpen { ordinal: n, handle });
        if i < len && self.pending[i].ordinal == n {
            i += 1;
        }
        let ghost b = i as int;
        while i < len
            invariant
                b <= i <= len,
                0 <= a <= b,
                len == self.pending@.len(),
                *self == pre,
                updated@ == pre.pending@.subrange(0, a) + seq![
                    (PendingOpen { ordinal: n, handle }),
                ] + pre.pending@.subrange(b, i as int),
            decreases len - i,
        {
            let entry = self.pending[i];
            updated.push(entry);
            proof {
                assert(updated@ =~= pre.pending@.subrange(0, a) + seq![
                    (PendingOpen { ordinal: n, handle }),
                ] + pre.pending@.subrange(b, i as int + 1));
            }
            i += 1;
        }
        self.pending = updated;
        proof {
            lemma_register_shape(pre.pending@, self.pending@, n, handle, a, b);
        }
        OpenOutcome::Suspended
    }
}

impl LocalOpenController {
    /// What `on_limit_increased` does: a decrease is rejected and nothing
    /// changes; an increase is applied to the peer-granted limit and the
    /// leading run of now-admissible registrations is removed, their handles
    /// returned in ascending ordinal order.
    pub open spec fn limit_increase_post(pre: LocalOpenController, post: LocalOpenController, new_limit: u64, r: Result<Vec<u64>, LimitDecreaseRejected>) -> bool {
        match r {
            Result::Err(_) => {
                &&& new_limit < pre.peer_granted
                &&& post == pre
            },
            Result::Ok(resumed) => {
                &&& new_limit >= pre.peer_granted
                &&& post.peer_granted == new_limit
                &&& post.app_ceiling == pre.app_ceiling
                &&& post.highest == pre.highest
                &&& post.open_ordinals == pre.open_ordinals
                &&& {
                    let k = resumable_count(pre.pending@, post.effective_limit());
                    &&& resumed@ =~= pre.pending@.take(k).map_values(
                        |p: PendingOpen| p.handle,
                    )
                    &&& post.pending@ =~= pre.pending@.skip(k)
                }
            },
        }
    }

    /// Applies a peer limit update.  A value below the current peer-granted
    /// limit is rejected unapplied; otherwise the limit is raised and every
    /// suspended attempt whose ordinal is now admissible is resumed: its
    /// handle is returned, in ascending ordinal order, and its registration
    /// removed, so each is woken at most once.
    pub fn on_limit_increased(&mut self, new_limit: u64) -> (r: Result<
        Vec<u64>,
        LimitDecreaseRejected,
    >)
        requires
            old(self).wf(),
            new_limit <= VARINT_MAX,
        ensures
            final(self).wf(),
            LocalOpenController::limit_increase_post(*old(self), *final(self), new_limit, r),
    {
        if new_limit < self.peer_granted {
            return Err(LimitDecreaseRejected);
        }
        let ghost pre = *self;
        self.peer_granted = new_limit;
        let eff = if self.peer_granted <= self.app_ceiling {
            self.peer_granted
        } else {
            self.app_ceiling
        };
        let len = self.pending.len();
        let mut k: usize = 0;
        while k < len && self.pending[k].ordinal < eff
            invariant
                k <= len,
                len == self.pending@.len(),
                self.pending == pre.pending,
                forall|j: int| 0 <= j < k ==> (#[trigger] self.pending@[j]).ordinal < eff,
            decreases len - k,
        {
            k += 1;
        }
        proof {
            lemma_resumable_count_is_prefix(pre.pending@, eff, k as int);
        }
        let mut resumed: Vec<u64> = Vec::new();
        let mut i: usize = 0;
        while i < k
            invariant
                i <= k <= len,
                len == self.pending@.len(),
                self.pending == pre.pending,
                resumed@.len() == i,
                forall|j: int| 0 <= j < i ==> resumed@[j] == (#[trigger] self.pending@[j]).handle,
            decreases k - i,
        {
            let h = self.pending[i].handle;
            resumed.push(h);
            i += 1;
        }
        let tail = self.pending.split_off(k);
        self.pending = tail;
        proof {
            assert(resumed@ =~= pre.pending@.take(k as int).map_values(
                |p: PendingOpen| p.handle,
            ));
            assert(self.pending@ =~= pre.pending@.skip(k as int));
            assert forall|j: int| 0 <= j < self.pending@.len() implies (#[trigger] self
                .pending@[j]).ordinal >= self.effective_limit() && self.pending@[j].ordinal
                <= MAX_ORDINAL by {
                assert(self.pending@[j] == pre.pending@[k + j]);
                if k + j > k && k < pre.pending@.len() {
                    assert(pre.pending@[k as int].ordinal < pre.pending@[k + j].ordinal);
                }
            }
            assert forall|x: int, y: int| 0 <= x < y < self.pending@.len() implies self
                .pending@[x].ordinal < self.pending@[y].ordinal by {
                assert(self.pending@[x] == pre.pending@[k + x]);
                assert(self.pending@[y] == pre.pending@[k + y]);
            }
        }
        Ok(resumed)
    }

    /// What `on_close` does: closing an open ordinal removes exactly it from
    /// the open set; the limits — in particular the peer-granted limit — the
    /// high-water mark and the registrations never change.  Closing an
    /// ordinal that is not open changes nothing and reports the usage error.
    pub open spec fn close_post(pre: LocalOpenController, post: LocalOpenController, n: u64, r: Result<(), CloseOfUnopenedStream>) -> bool {
        match r {
            Result::Ok(_) => {
                &&& pre.is_open(n)
                &&& post.peer_granted == pre.peer_granted
                &&& post.app_ceiling == pre.app_ceiling
                &&& post.highest == pre.highest
                &&& post.pending == pre.pending
                &&& post.open_count() == pre.open_count() - 1
                &&& forall|x: u64| #![auto] post.is_open(x) <==> pre.is_open(x) && x != n
            },
            Result::Err(_) => {
                &&& !pre.is_open(n)
                &&& post == pre
            },
        }
    }

    /// Closes the open stream with ordinal `n`, freeing its slot in the open
    /// count.  The peer-granted limit does not change: only the peer may
    /// raise it.  Closing an ordinal that is not open is a usage error and
    /// leaves the state untouched.
    pub fn on_close(&mut self, n: u64) -> (r: Result<(), CloseOfUnopenedStream>)
        requires
            old(self).wf(),
        ensures
            final(self).wf(),
            LocalOpenController::close_post(*old(self), *final(self), n, r),
    {
        let ghost pre = *self;
        let len = self.open_ordinals.len();
        let mut i: usize = 0;
        while i < len && self.open_ordinals[i] != n
            invariant
                i <= len,
                len == self.open_ordinals@.len(),
                *self == pre,
                forall|j: int| 0 <= j < i ==> pre.open_ordinals@[j] != n,
            decreases len - i,
        {
            i += 1;
        }
        if i == len {
            return Err(CloseOfUnopenedStream);
        }
        self.open_ordinals.remove(i);
        proof {
            assert(pre.open_ordinals@[i as int] == n);
            assert forall|x: u64| #![auto] self.is_open(x) <==> pre.is_open(x) && x != n by {
                lemma_remove_unique_element(pre.open_ordinals@, i as int, x);
            }
        }
        Ok(())
    }

    /// Withdraws the suspended attempt on ordinal `n`, if one is registered,
    /// returning its handle; the registration is removed so no stale wake
    /// can occur.  Everything else is untouched.
    pub fn cancel_attempt(&mut self, n: u64) -> (r: Option<u64>)
        requires
            old(self).wf(),
        ensures
            final(self).wf(),
            final(self).peer_granted == old(self).peer_granted,
            final(self).app_ceiling == old(self).app_ceiling,
            final(self).highest == old(self).highest,
            final(self).open_ordinals == old(self).open_ordinals,
            match r {
                Option::Some(h) => {
                    &&& old(self).pending@.contains(PendingOpen { ordinal: n, handle: h })
                    &&& final(self).pending@.len() == old(self).pending@.len() - 1
                    &&& forall|i: int|
                        0 <= i < final(self).pending@.len() ==> old(self).pending@.contains(
                            #[trigger] final(self).pending@[i],
                        ) && final(self).pending@[i].ordinal != n
                    &&& forall|i: int|
                        0 <= i < old(self).pending@.len() && (#[trigger] old(
                            self,
                        ).pending@[i]).ordinal != n ==> final(self).pending@.contains(
                            old(self).pending@[i],
                        )
                },
                Option::None => {
                    &&& !old(self).is_suspended(n)
                    &&& *final(self) == *old(self)
                },
            },
    {
        let ghost pre = *self;
        let len = self.pending.len();
        let mut i: usize = 0;
        while i < len && self.pending[i].ordinal != n
            invariant
                i <= len,
                len == self.pending@.len(),
                *self == pre,
                forall|j: int| 0 <= j < i ==> (#[trigger] pre.pending@[j]).ordinal != n,
            decreases len - i,
        {
            i += 1;
        }
        if i == len {
            return None;
        }
        let entry = self.pending[i];
        self.pending.remove(i);
        proof {
            assert(pre.pending@[i as int].ordinal == n);
            assert(pre.pending@.contains(pre.pending@[i as int]));
            assert forall|j: int| 0 <= j < self.pending@.len() implies pre.pending@.contains(
                #[trigger] self.pending@[j],
            ) && self.pending@[j].ordinal != n by {
                if j < i {
                    assert(self.pending@[j] == pre.pending@[j]);
                } else {
                    assert(self.pending@[j] == pre.pending@[j + 1]);
                    assert(pre.pending@[i as int].ordinal < pre.pending@[j + 1].ordinal);
                }
            }
            assert forall|j: int|
                0 <= j < pre.pending@.len() && (#[trigger] pre.pending@[j]).ordinal
                    != n implies self.pending@.contains(pre.pending@[j]) by {
                if j < i {
                    assert(self.pending@[j] == pre.pending@[j]);
                } else {
                    assert(j > i);
                    assert(self.pending@[j - 1] == pre.pending@[j]);
                }
            }
            assert forall|x: int, y: int| 0 <= x < y < self.pending@.len() implies self
                .pending@[x].ordinal < self.pending@[y].ordinal by {
                assert(self.pending@[x] == if x < i {
                    pre.pending@[x]
                } else {
                    pre.pending@[x + 1]
                });
                assert(self.pending@[y] == if y < i {
                    pre.pending@[y]
                } else {
                    pre.pending@[y + 1]
                });
            }
            assert forall|j: int| 0 <= j < self.pending@.len() implies (#[trigger] self
                .pending@[j]).ordinal <= MAX_ORDINAL && self.pending@[j].ordinal
                >= self.effective_limit() by {
                assert(self.pending@[j] == if j < i {
                    pre.pending@[j]
                } else {
                    pre.pending@[j + 1]
                });
            }
        }
        Some(entry.handle)
    }

    /// Number of currently open streams of this class.
    pub fn open_stream_count(&self) -> (r: u64)
        requires
            self.wf(),
        ensures
            r == self.open_count(),
    {
        self.open_ordinals.len() as u64
    }

    /// The cap currently applied to opens, for a "blocked at limit" signal
    /// to the peer.
    pub fn effective_limit_value(&self) -> (r: u64)
        ensures
            r == self.effective_limit(),
    {
        if self.peer_granted <= self.app_ceiling {
            self.peer_granted
        } else {
            self.app_ceiling
        }
    }

    /// The limit the peer currently grants for this class.
    pub fn peer_granted_limit(&self) -> (r: u64)
        ensures
            r == self.peer_granted,
    {
        self.peer_granted
    }

    /// The highest ordinal admitted so far, if any.
    pub fn highest_admitted(&self) -> (r: Option<u64>)
        ensures
            r == self.highest,
    {
        self.highest
    }
}

/// Law: the number of open streams of a local class never exceeds the
/// effective limit, the smaller of the peer-granted limit and the
/// application ceiling.
pub proof fn lemma_open_count_within_limits(c: LocalOpenController)
    requires
        c.wf(),
    ensures
        c.open_count() <= c.effective_limit(),
        c.open_count() <= c.peer_granted,
        c.open_count() <= c.app_ceiling,
{
}

/// Law: closing a local-opened stream never changes the peer-granted limit,
/// the application ceiling, or the effective limit.
pub proof fn lemma_close_keeps_limits(
    pre: LocalOpenController,
    post: LocalOpenController,
    n: u64,
)
    requires
        LocalOpenController::close_post(pre, post, n, Ok(())),
    ensures
        post.peer_granted == pre.peer_granted,
        post.app_ceiling == pre.app_ceiling,
        post.effective_limit() == pre.effective_limit(),
{
}

/// Law: raising the peer-granted limit resumes exactly the suspended
/// attempts whose ordinal lies below the new effective limit, in ascending
/// ordinal order, each exactly once; every other registration is kept.
pub proof fn lemma_limit_increase_resumes_exactly(
    pre: LocalOpenController,
    post: LocalOpenController,
    new_limit: u64,
    resumed: Vec<u64>,
)
    requires
        pre.wf(),
        LocalOpenController::limit_increase_post(pre, post, new_limit, Ok(resumed)),
    ensures
        resumed@.len() <= pre.pending@.len(),
        // an old registration is resumed if and only if its ordinal became
        // admissible, and the resumed handles keep the table's ascending
        // ordinal order
        forall|i: int|
            0 <= i < pre.pending@.len() ==> ((#[trigger] pre.pending@[i]).ordinal + 1
                <= post.effective_limit() <==> i < resumed@.len()),
        forall|i: int|
            0 <= i < resumed@.len() ==> resumed@[i] == (#[trigger] pre.pending@[i]).handle,
        // the rest of the table is kept, so each handle is handed out at
        // most once over the life of its registration
        post.pending@ == pre.pending@.skip(resumed@.len() as int),
{
    let eff = post.effective_limit();
    let k = resumable_count(pre.pending@, eff);
    lemma_resumable_count_bounds(pre.pending@, eff);
    assert(resumed@.len() == k);
    assert forall|i: int| 0 <= i < pre.pending@.len() implies ((#[trigger] pre
        .pending@[i]).ordinal + 1 <= eff <==> i < k) by {
        if i < k {
        } else if k < pre.pending@.len() && pre.pending@[i].ordinal < eff {
            if i > k {
                assert(pre.pending@[k].ordinal < pre.pending@[i].ordinal);
            }
        }
    }
    assert forall|i: int| 0 <= i < resumed@.len() implies resumed@[i] == (#[trigger] pre
        .pending@[i]).handle by {
        assert(resumed@[i] == pre.pending@.take(k).map_values(|p: PendingOpen| p.handle)[i]);
    }
}

/// Law: the high-water mark of admitted ordinals never decreases — not on an
/// open attempt, not on a close, not on a limit update.
pub proof fn lemma_admitted_never_decreases(
    pre: LocalOpenController,
    post: LocalOpenController,
)
    requires
        (exists|n: u64, handle: u64, r: OpenOutcome|
            LocalOpenController::attempt_post(pre, post, n, handle, r)) || (exists|
            n: u64,
            r: Result<(), CloseOfUnopenedStream>,
        | LocalOpenController::close_post(pre, post, n, r)) || (exists|
            new_limit: u64,
            r: Vec<u64>,
        | LocalOpenController::limit_increase_post(pre, post, new_limit, Ok(r))),
    ensures
        post.admitted_count() >= pre.admitted_count(),
{
}

/// Law: once an ordinal has been admitted, a further attempt on it is a
/// no-op success, whatever handle it carries.
pub proof fn lemma_reattempt_admitted_is_noop(
    pre: LocalOpenController,
    mid: LocalOpenController,
    post: LocalOpenController,
    n: u64,
    handle1: u64,
    handle2: u64,
    r: OpenOutcome,
)
    requires
        LocalOpenController::attempt_post(pre, mid, n, handle1, OpenOutcome::Admitted),
        LocalOpenController::attempt_post(mid, post, n, handle2, r),
    ensures
        r == OpenOutcome::Admitted,
        post == mid,
{
    assert(mid.is_admitted(n));
}

/// Law: retrying a suspended attempt with the same ordinal and handle
/// suspends again and leaves the whole state, the registration table
/// included, exactly as it was: no double registration.
pub proof fn lemma_suspend_retry_is_noop(
    pre: LocalOpenController,
    mid: LocalOpenController,
    post: LocalOpenController,
    n: u64,
    handle: u64,
    r: OpenOutcome,
)
    requires
        pre.wf(),
        mid.wf(),
        post.wf(),
        LocalOpenController::attempt_post(pre, mid, n, handle, OpenOutcome::Suspended),
        LocalOpenController::attempt_post(mid, post, n, handle, r),
    ensures
        r == OpenOutcome::Suspended,
        post.peer_granted == mid.peer_granted,
        post.app_ceiling == mid.app_ceiling,
        post.highest == mid.highest,
        post.open_ordinals == mid.open_ordinals,
        post.pending@ == mid.pending@,
{
    assert(!mid.is_admitted(n));
    assert(n + 1 > mid.effective_limit());
    // both tables are sorted and hold the same entries: the retried entry
    // and, unchanged, every entry on another ordinal
    assert forall|i: int| 0 <= i < mid.pending@.len() implies post.pending@.contains(
        #[trigger] mid.pending@[i],
    ) by {
        if mid.pending@[i].ordinal == n {
            let w = choose|w: int|
                0 <= w < mid.pending@.len() && mid.pending@[w] == (PendingOpen {
                    ordinal: n,
                    handle,
                });
            if w != i {
                assert(mid.pending@[w].ordinal == mid.pending@[i].ordinal);
                assert(false);
            }
        }
    }
    assert forall|i: int| 0 <= i < post.pending@.len() implies mid.pending@.contains(
        #[trigger] post.pending@[i],
    ) by {
        if post.pending@[i].ordinal == n {
            let w = choose|w: int|
                0 <= w < post.pending@.len() && post.pending@[w] == (PendingOpen {
                    ordinal: n,
                    handle,
                });
            if w != i {
                assert(post.pending@[w].ordinal == post.pending@[i].ordinal);
                assert(false);
            }
        }
    }
    lemma_sorted_tables_equal(mid.pending@, post.pending@);
}

/// Two sorted registration tables of equal length that hold each other's
/// entries are equal.
proof fn lemma_sorted_tables_equal(x: Seq<PendingOpen>, y: Seq<PendingOpen>)
    requires
        pending_sorted(x),
        pending_sorted(y),
        x.len() == y.len(),
        forall|i: int| 0 <= i < x.len() ==> y.contains(#[trigger] x[i]),
        forall|i: int| 0 <= i < y.len() ==> x.contains(#[trigger] y[i]),
    ensures
        x =~= y,
    decreases x.len(),
{
    if x.len() > 0 {
        let j = choose|j: int| 0 <= j < y.len() && y[j] == x[0];
        let i = choose|i: int| 0 <= i < x.len() && x[i] == y[0];
        assert(x[0].ordinal >= y[0].ordinal);
        assert(y[0].ordinal >= x[0].ordinal);
        if j != 0 {
            assert(y[j].ordinal > y[0].ordinal);
            assert(false);
        }
        assert(x[0] == y[0]);
        let xt = x.drop_first();
        let yt = y.drop_first();
        assert forall|k: int| 0 <= k < xt.len() implies yt.contains(#[trigger] xt[k]) by {
            assert(xt[k] == x[k + 1]);
            let w = choose|w: int| 0 <= w < y.len() && y[w] == x[k + 1];
            if w == 0 {
                assert(x[k + 1] == x[0]);
                assert(x[0].ordinal < x[k + 1].ordinal);
                assert(false);
            }
            assert(yt[w - 1] == x[k + 1]);
        }
        assert forall|k: int| 0 <= k < yt.len() implies xt.contains(#[trigger] yt[k]) by {
            assert(yt[k] == y[k + 1]);
            let w = choose|w: int| 0 <= w < x.len() && x[w] == y[k + 1];
            if w == 0 {
                assert(y[k + 1] == y[0]);
                assert(y[0].ordinal < y[k + 1].ordinal);
                assert(false);
            }
            assert(xt[w - 1] == y[k + 1]);
        }
        assert forall|a: int, b: int| 0 <= a < b < xt.len() implies xt[a].ordinal
            < xt[b].ordinal by {
            assert(xt[a] == x[a + 1] && xt[b] == x[b + 1]);
        }
        assert forall|a: int, b: int| 0 <= a < b < yt.len() implies yt[a].ordinal
            < yt[b].ordinal by {
            assert(yt[a] == y[a + 1] && yt[b] == y[b + 1]);
        }
        lemma_sorted_tables_equal(xt, yt);
        assert forall|k: int| 0 <= k < x.len() implies x[k] == y[k] by {
            if k > 0 {
                assert(xt[k - 1] == yt[k - 1]);
            }
        }
    }
}

/// `resumable_count` counts a leading run: it never exceeds the table's
/// length, the counted entries are admissible, and the first entry past the
/// run is not.
proof fn lemma_resumable_count_bounds(s: Seq<PendingOpen>, limit: u64)
    requires
        pending_sorted(s),
    ensures
        0 <= resumable_count(s, limit) <= s.len(),
        forall|j: int|
            0 <= j < resumable_count(s, limit) ==> (#[trigger] s[j]).ordinal < limit,
        resumable_count(s, limit) < s.len() ==> s[resumable_count(s, limit)].ordinal >= limit,
    decreases s.len(),
{
    if s.len() > 0 && s[0].ordinal < limit {
        lemma_resumable_count_bounds(s.drop_first(), limit);
        let k = resumable_count(s, limit);
        assert forall|j: int| 0 <= j < k implies (#[trigger] s[j]).ordinal < limit by {
            if j > 0 {
                assert(s.drop_first()[j - 1].ordinal < limit);
                assert(s.drop_first()[j - 1] == s[j]);
            }
        }
        if k < s.len() {
            assert(s.drop_first()[k - 1] == s[k as int]);
        }
    }
}

/// The loop that scans for the first non-admissible registration computes
/// `resumable_count`.
proof fn lemma_resumable_count_is_prefix(s: Seq<PendingOpen>, limit: u64, k: int)
    requires
        0 <= k <= s.len(),
        forall|j: int| 0 <= j < k ==> (#[trigger] s[j]).ordinal < limit,
        k < s.len() ==> s[k].ordinal >= limit,
    ensures
        resumable_count(s, limit) == k,
    decreases s.len(),
{
    if s.len() > 0 && s[0].ordinal < limit {
        lemma_resumable_count_is_prefix(s.drop_first(), limit, k - 1);
    }
}

/// A table rebuilt as sorted-prefix, new entry, sorted-suffix is the old
/// table with `(n, handle)` registered, and is itself sorted.
proof fn lemma_register_shape(
    pre: Seq<PendingOpen>,
    post: Seq<PendingOpen>,
    n: u64,
    handle: u64,
    a: int,
    b: int,
)
    requires
        pending_sorted(pre),
        0 <= a <= b <= pre.len(),
        b <= a + 1,
        post == pre.subrange(0, a) + seq![(PendingOpen { ordinal: n, handle })] + pre.subrange(
            b,
            pre.len() as int,
        ),
        forall|j: int| 0 <= j < a ==> (#[trigger] pre[j]).ordinal < n,
        a < pre.len() ==> pre[a].ordinal >= n,
        b == a + 1 ==> a < pre.len() && pre[a].ordinal == n,
        b == a && a < pre.len() ==> pre[a].ordinal != n,
    ensures
        pending_sorted(post),
        registered(pre, post, n, handle),
{
    assert(post.len() == a + 1 + (pre.len() - b));
    assert(post[a] == (PendingOpen { ordinal: n, handle }));
    assert forall|j: int| b <= j < pre.len() implies (#[trigger] pre[j]).ordinal > n by {
        if b == a + 1 {
            assert(pre[a].ordinal == n);
            assert(pre[j].ordinal > pre[a].ordinal);
        } else {
            assert(pre[a].ordinal >= n && pre[a].ordinal != n);
            if j > a {
                assert(pre[j].ordinal > pre[a].ordinal);
            }
        }
    }
    assert forall|i: int, j: int| 0 <= i < j < post.len() implies post[i].ordinal
        < post[j].ordinal by {
        if i < a {
            assert(post[i] == pre[i]);
        } else if i > a {
            assert(post[i] == pre[b + (i - a - 1)]);
        }
        if j < a {
            assert(post[j] == pre[j]);
        } else if j > a {
            assert(post[j] == pre[b + (j - a - 1)]);
        }
    }
    assert(post.contains(PendingOpen { ordinal: n, handle })) by {
        assert(post[a] == (PendingOpen { ordinal: n, handle }));
    }
    assert forall|i: int| 0 <= i < pre.len() && pre[i].ordinal != n implies post.contains(
        #[trigger] pre[i],
    ) by {
        if i < a {
            assert(post[i] == pre[i]);
        } else {
            assert(i >= b);
            assert(post[a + 1 + (i - b)] == pre[i]);
        }
    }
    assert forall|i: int| 0 <= i < post.len() && post[i].ordinal != n implies pre.contains(
        #[trigger] post[i],
    ) by {
        if i < a {
            assert(post[i] == pre[i]);
        } else if i > a {
            assert(post[i] == pre[b + (i - a - 1)]);
        }
    }
    if contains_ordinal(pre, n) {
        let w = choose|w: int| 0 <= w < pre.len() && pre[w].ordinal == n;
        assert(w >= a);
        if w > a {
            assert(pre[w].ordinal > pre[a].ordinal);
            assert(pre[a].ordinal >= n);
            assert(false);
        }
        assert(b == a + 1);
    } else {
        assert(b == a) by {
            if b == a + 1 {
                assert(pre[a].ordinal == n);
            }
        }
    }
}

} // verus!
