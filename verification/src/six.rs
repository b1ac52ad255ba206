//! Shared/intent/exclusive ("six") locks.
//!
//! A six lock is a read/write lock with a third, intermediate mode: *intent*.
//! An intent hold announces an upcoming write. It excludes other intent
//! seekers but leaves readers untouched; only the step from intent to write
//! excludes new readers. Readers that were admitted before the write are
//! never evicted. A monotonically advancing sequence number, bumped on every
//! transition into and out of the write mode, lets a caller detect after the
//! fact whether any write happened since an earlier observation and, if not,
//! re-acquire a hold optimistically through a [`RelockHandle`].
//!
//! The lock is modelled as a sequential state machine: one caller at a time
//! drives it through `&mut self`. Acquisitions that would have to wait for
//! another hold to disappear cannot make progress in that setting, so the
//! direct acquisition methods require the slot to be free, and the `try_`
//! methods report contention as an explicit `None`.

use vstd::prelude::*;

verus! {

/// Abstract state of a six lock: the number of outstanding holds in each
/// mode, and the write sequence number.
pub ghost struct LockState {
    /// Outstanding read holds.
    pub reads: nat,
    /// Outstanding intent holds. All belong to one lineage: intent is
    /// exclusive across callers, and only duplication raises it past one.
    pub intents: nat,
    /// Whether the single write slot is occupied.
    pub write_held: bool,
    /// Sequence number, advanced on entering and on leaving the write mode.
    pub seq: nat,
}

/// Well-formedness of a lock state: a write hold is always carved out of an
/// intent hold, and the sequence number is odd exactly while a write is held.
pub open spec fn state_inv(s: LockState) -> bool {
    &&& s.write_held ==> s.intents >= 1
    &&& s.write_held <==> (s.seq % 2 == 1)
}

/// The sequence number after one write transition: one more, wrapping at the
/// largest value the lock can store.
pub open spec fn seq_next(s: nat) -> nat {
    if s == u64::MAX { 0 } else { s + 1 }
}

/// A read may be admitted exactly while no write is held.
pub open spec fn read_permitted(s: LockState) -> bool {
    !s.write_held
}

/// An intent may be admitted exactly while no other intent hold exists.
pub open spec fn intent_permitted(s: LockState) -> bool {
    s.intents == 0
}

/// A write may be carved from an intent hold exactly while the write slot is
/// free; outstanding readers do not block it.
pub open spec fn write_permitted(s: LockState) -> bool {
    !s.write_held
}

/// A read upgrades to intent exactly when the intent slot is free.
pub open spec fn upgrade_permitted(s: LockState) -> bool {
    s.intents == 0
}

/// A handle taken at sequence number `h` re-acquires a read exactly when no
/// write is in progress and no write transition has happened since.
pub open spec fn relock_read_permitted(s: LockState, h: nat) -> bool {
    !s.write_held && s.seq == h
}

/// A handle taken at sequence number `h` re-acquires an intent exactly when
/// the intent slot is free and no write transition has happened since.
pub open spec fn relock_intent_permitted(s: LockState, h: nat) -> bool {
    s.intents == 0 && s.seq == h
}

/// One more read hold; nothing else moves.
pub open spec fn acquire_read(s: LockState) -> LockState {
    LockState { reads: s.reads + 1, ..s }
}

/// One read hold fewer; nothing else moves.
pub open spec fn release_read(s: LockState) -> LockState {
    LockState { reads: (s.reads - 1) as nat, ..s }
}

/// One more intent hold; nothing else moves.
pub open spec fn acquire_intent(s: LockState) -> LockState {
    LockState { intents: s.intents + 1, ..s }
}

/// One intent hold fewer; nothing else moves.
pub open spec fn release_intent(s: LockState) -> LockState {
    LockState { intents: (s.intents - 1) as nat, ..s }
}

/// The write slot fills and the sequence number advances; the read and
/// intent counters are untouched.
pub open spec fn acquire_write(s: LockState) -> LockState {
    LockState { write_held: true, seq: seq_next(s.seq), ..s }
}

/// The write slot empties and the sequence number advances again; the intent
/// hold the write was carved from stays in place.
pub open spec fn release_write(s: LockState) -> LockState {
    LockState { write_held: false, seq: seq_next(s.seq), ..s }
}

/// An intent hold is traded for a read hold in one step, with no window in
/// which the lock is unlocked.
pub open spec fn downgrade_intent(s: LockState) -> LockState {
    LockState { reads: s.reads + 1, intents: (s.intents - 1) as nat, ..s }
}

/// A read hold is traded for an intent hold in one step.
pub open spec fn upgrade_read(s: LockState) -> LockState {
    LockState { reads: (s.reads - 1) as nat, intents: s.intents + 1, ..s }
}

/// Token for one read hold. Obtained from a successful read acquisition,
/// duplicated by [`ReadGuard::duplicate`], and consumed by exactly one
/// release or upgrade.
#[must_use]
pub struct ReadGuard {
    _private: (),
}

/// Token for one intent hold of the current lineage. Duplicated by
/// [`IntentGuard::duplicate`]; consumed by exactly one release or downgrade.
#[must_use]
pub struct IntentGuard {
    _private: (),
}

/// Token for the write hold. Carved out of an intent hold, which it must not
/// outlive; consumed by exactly one release.
#[must_use]
pub struct WriteGuard {
    _private: (),
}

/// A snapshot of the sequence number, taken while a read hold was active.
/// Later, after the hold is gone, it re-acquires a hold optimistically:
/// success means no write transition happened in between, so whatever the
/// caller validated under the original hold is still good.
pub struct RelockHandle {
    seq: u64,
}

impl View for RelockHandle {
    type V = nat;

    /// The sequence number this handle observed.
    closed spec fn view(&self) -> nat {
        self.seq as nat
    }
}

/// A sleepable shared/intent/exclusive lock.
///
/// Three modes with this compatibility: any number of reads coexist with one
/// intent; a write is reachable only from an intent hold and shuts out new
/// reads and new intents, but never evicts readers admitted before it.
pub struct SixLock {
    reads: u64,
    intents: u64,
    write_held: bool,
    seq: u64,
}

impl View for SixLock {
    type V = LockState;

    closed spec fn view(&self) -> LockState {
        LockState {
            reads: self.reads as nat,
            intents: self.intents as nat,
            write_held: self.write_held,
            seq: self.seq as nat,
        }
    }
}

impl SixLock {
    /// The lock's invariant; established by [`SixLock::new`] and preserved
    /// by every operation.
    pub open spec fn inv(&self) -> bool {
        state_inv(self@)
    }

    /// A new lock: unlocked, all counters zero.
    pub fn new() -> (lock: Self)
        ensures
            lock.inv(),
            lock@ == (LockState { reads: 0, intents: 0, write_held: false, seq: 0 }),
    {
        SixLock { reads: 0, intents: 0, write_held: false, seq: 0 }
    }

    /// Outstanding read holds.
    pub fn read_count(&self) -> (n: u64)
        ensures
            n as nat == self@.reads,
    {
        self.reads
    }

    /// Outstanding intent holds.
    pub fn intent_count(&self) -> (n: u64)
        ensures
            n as nat == self@.intents,
    {
        self.intents
    }

    /// Whether the write slot is occupied.
    pub fn is_write_held(&self) -> (held: bool)
        ensures
            held == self@.write_held,
    {
        self.write_held
    }

    /// The current sequence number.
    pub fn sequence(&self) -> (s: u64)
        ensures
            s as nat == self@.seq,
    {
        self.seq
    }

    /// Obtain a read hold. New reads are admitted whenever no write is held,
    /// so the caller must not be racing a write; a caller that may contend
    /// uses [`SixLock::try_read`].
    pub fn read(&mut self) -> (guard: ReadGuard)
        requires
            old(self).inv(),
            read_permitted(old(self)@),
            old(self)@.reads < u64::MAX,
        ensures
            final(self).inv(),
            final(self)@ == acquire_read(old(self)@),
    {
        self.reads = self.reads + 1;
        ReadGuard { _private: () }
    }

    /// One non-blocking attempt at a read hold: a guard exactly when no
    /// write is held, and `None`, with the lock untouched, otherwise.
    pub fn try_read(&mut self) -> (r: Option<ReadGuard>)
        requires
            old(self).inv(),
            read_permitted(old(self)@) ==> old(self)@.reads < u64::MAX,
        ensures
            final(self).inv(),
            r is Some <==> read_permitted(old(self)@),
            r is Some ==> final(self)@ == acquire_read(old(self)@),
            r is None ==> final(self)@ == old(self)@,
    {
        if self.write_held {
            None
        } else {
            self.reads = self.reads + 1;
            Some(ReadGuard { _private: () })
        }
    }

    /// Obtain an intent hold. Intent is admitted whenever no other intent
    /// hold exists — readers never block it — so the caller must not be
    /// racing another intent seeker; a caller that may contend uses
    /// [`SixLock::try_intent`].
    pub fn intent(&mut self) -> (guard: IntentGuard)
        requires
            old(self).inv(),
            intent_permitted(old(self)@),
        ensures
            final(self).inv(),
            final(self)@ == acquire_intent(old(self)@),
    {
        self.intents = self.intents + 1;
        IntentGuard { _private: () }
    }

    /// One non-blocking attempt at an intent hold: a guard exactly when the
    /// intent slot is free, and `None`, with the lock untouched, otherwise.
    pub fn try_intent(&mut self) -> (r: Option<IntentGuard>)
        requires
            old(self).inv(),
        ensures
            final(self).inv(),
            r is Some <==> intent_permitted(old(self)@),
            r is Some ==> final(self)@ == acquire_intent(old(self)@),
            r is None ==> final(self)@ == old(self)@,
    {
        if self.intents == 0 {
            self.intents = 1;
            Some(IntentGuard { _private: () })
        } else {
            None
        }
    }

    /// Advance the sequence number by one write transition.
    fn bump_seq(&mut self)
        ensures
            final(self)@ == (LockState { seq: seq_next(old(self)@.seq), ..old(self)@ }),
    {
        self.seq = if self.seq == u64::MAX { 0 } else { self.seq + 1 };
    }
}

impl ReadGuard {
    /// Duplicate this read hold without re-running admission: one more read
    /// hold, infallibly, whose release must be matched separately.
    pub fn duplicate(&self, lock: &mut SixLock) -> (guard: ReadGuard)
        requires
            old(lock).inv(),
            old(lock)@.reads >= 1,
            old(lock)@.reads < u64::MAX,
        ensures
            final(lock).inv(),
            final(lock)@ == acquire_read(old(lock)@),
    {
        lock.reads = lock.reads + 1;
        ReadGuard { _private: () }
    }

    /// Release this read hold: the read count drops by one and nothing else
    /// moves.
    pub fn release(self, lock: &mut SixLock)
        requires
            old(lock).inv(),
            old(lock)@.reads >= 1,
        ensures
            final(lock).inv(),
            final(lock)@ == release_read(old(lock)@),
    {
        lock.reads = lock.reads - 1;
    }

    /// Try to trade this read hold for an intent hold in one step, with no
    /// window in which the hold is given up. Succeeds exactly when the
    /// intent slot is free; on failure the read hold comes back untouched.
    pub fn try_upgrade(self, lock: &mut SixLock) -> (r: Result<IntentGuard, ReadGuard>)
        requires
            old(lock).inv(),
            old(lock)@.reads >= 1,
        ensures
            final(lock).inv(),
            r is Ok <==> upgrade_permitted(old(lock)@),
            r is Ok ==> final(lock)@ == upgrade_read(old(lock)@),
            r is Err ==> final(lock)@ == old(lock)@,
    {
        if lock.intents == 0 {
            lock.reads = lock.reads - 1;
            lock.intents = 1;
            Ok(IntentGuard { _private: () })
        } else {
            Err(self)
        }
    }

    /// Snapshot the sequence number under this read hold, for a later
    /// optimistic re-acquisition.
    pub fn relock_handle(&self, lock: &SixLock) -> (h: RelockHandle)
        requires
            lock.inv(),
            lock@.reads >= 1,
        ensures
            h@ == lock@.seq,
    {
        RelockHandle { seq: lock.sequence() }
    }
}

impl IntentGuard {
    /// Duplicate this intent hold within its lineage: one more intent hold,
    /// infallibly, whose release must be matched separately. Only
    /// duplication raises the intent count past one; an independent seeker
    /// goes through [`SixLock::try_intent`] and is refused.
    pub fn duplicate(&self, lock: &mut SixLock) -> (guard: IntentGuard)
        requires
            old(lock).inv(),
            old(lock)@.intents >= 1,
            old(lock)@.intents < u64::MAX,
        ensures
            final(lock).inv(),
            final(lock)@ == acquire_intent(old(lock)@),
    {
        lock.intents = lock.intents + 1;
        IntentGuard { _private: () }
    }

    /// Release this intent hold. A hold that a write guard was carved from
    /// cannot be the one to go: the write must end first, or a duplicate of
    /// the hold must remain.
    pub fn release(self, lock: &mut SixLock)
        requires
            old(lock).inv(),
            old(lock)@.intents >= 1,
            old(lock)@.write_held ==> old(lock)@.intents >= 2,
        ensures
            final(lock).inv(),
            final(lock)@ == release_intent(old(lock)@),
    {
        lock.intents = lock.intents - 1;
    }

    /// Carve the write hold out of this intent hold. The write slot must be
    /// free; outstanding readers do not block it — they keep their holds,
    /// and only new reads are shut out. The sequence number advances.
    pub fn write(&self, lock: &mut SixLock) -> (guard: WriteGuard)
        requires
            old(lock).inv(),
            old(lock)@.intents >= 1,
            write_permitted(old(lock)@),
        ensures
            final(lock).inv(),
            final(lock)@ == acquire_write(old(lock)@),
    {
        lock.write_held = true;
        lock.bump_seq();
        WriteGuard { _private: () }
    }

    /// One non-blocking attempt at the write hold: a guard exactly when the
    /// write slot is free, and `None`, with the lock untouched, otherwise.
    pub fn try_write(&self, lock: &mut SixLock) -> (r: Option<WriteGuard>)
        requires
            old(lock).inv(),
            old(lock)@.intents >= 1,
        ensures
            final(lock).inv(),
            r is Some <==> write_permitted(old(lock)@),
            r is Some ==> final(lock)@ == acquire_write(old(lock)@),
            r is None ==> final(lock)@ == old(lock)@,
    {
        if lock.write_held {
            None
        } else {
            lock.write_held = true;
            lock.bump_seq();
            Some(WriteGuard { _private: () })
        }
    }

    /// Trade this intent hold for a read hold in one step, with no window in
    /// which the lock is unlocked. Never fails. As with release, a hold a
    /// write guard was carved from cannot be the one traded away.
    pub fn downgrade(self, lock: &mut SixLock) -> (guard: ReadGuard)
        requires
            old(lock).inv(),
            old(lock)@.intents >= 1,
            old(lock)@.reads < u64::MAX,
            old(lock)@.write_held ==> old(lock)@.intents >= 2,
        ensures
            final(lock).inv(),
            final(lock)@ == downgrade_intent(old(lock)@),
    {
        lock.intents = lock.intents - 1;
        lock.reads = lock.reads + 1;
        ReadGuard { _private: () }
    }
}

impl WriteGuard {
    /// Release the write hold: the write slot empties and the sequence
    /// number advances again; the intent hold it was carved from stays in
    /// place for the caller to keep, downgrade or release.
    pub fn release(self, lock: &mut SixLock)
        requires
            old(lock).inv(),
            old(lock)@.write_held,
        ensures
            final(lock).inv(),
            final(lock)@ == release_write(old(lock)@),
    {
        lock.write_held = false;
        lock.bump_seq();
    }
}

impl RelockHandle {
    /// Try to re-acquire a read hold on the strength of this snapshot: a
    /// guard exactly when no write is held and no write transition has
    /// happened since the snapshot, and `None`, with the lock untouched,
    /// otherwise.
    pub fn try_read(&self, lock: &mut SixLock) -> (r: Option<ReadGuard>)
        requires
            old(lock).inv(),
            relock_read_permitted(old(lock)@, self@) ==> old(lock)@.reads < u64::MAX,
        ensures
            final(lock).inv(),
            r is Some <==> relock_read_permitted(old(lock)@, self@),
            r is Some ==> final(lock)@ == acquire_read(old(lock)@),
            r is None ==> final(lock)@ == old(lock)@,
    {
        if !lock.write_held && lock.seq == self.seq {
            lock.reads = lock.reads + 1;
            Some(ReadGuard { _private: () })
        } else {
            None
        }
    }

    /// Try to re-acquire an intent hold on the strength of this snapshot: a
    /// guard exactly when the intent slot is free and no write transition
    /// has happened since the snapshot, and `None`, with the lock untouched,
    /// otherwise.
    pub fn try_intent(&self, lock: &mut SixLock) -> (r: Option<IntentGuard>)
        requires
            old(lock).inv(),
        ensures
            final(lock).inv(),
            r is Some <==> relock_intent_permitted(old(lock)@, self@),
            r is Some ==> final(lock)@ == acquire_intent(old(lock)@),
            r is None ==> final(lock)@ == old(lock)@,
    {
        if lock.intents == 0 && lock.seq == self.seq {
            lock.intents = 1;
            Some(IntentGuard { _private: () })
        } else {
            None
        }
    }
}

/// The state after `n` further read admissions (or duplications: both move
/// the state the same way).
pub open spec fn after_reads(s: LockState, n: nat) -> LockState
    decreases n,
{
    if n == 0 {
        s
    } else {
        acquire_read(after_reads(s, (n - 1) as nat))
    }
}

/// The state after `n` read releases.
pub open spec fn after_read_releases(s: LockState, n: nat) -> LockState
    decreases n,
{
    if n == 0 {
        s
    } else {
        release_read(after_read_releases(s, (n - 1) as nat))
    }
}

proof fn lemma_after_reads(s: LockState, n: nat)
    ensures
        after_reads(s, n).reads == s.reads + n,
        after_reads(s, n).intents == s.intents,
        after_reads(s, n).write_held == s.write_held,
        after_reads(s, n).seq == s.seq,
    decreases n,
{
    if n > 0 {
        lemma_after_reads(s, (n - 1) as nat);
    }
}

proof fn lemma_after_read_releases(s: LockState, n: nat)
    requires
        n <= s.reads,
    ensures
        after_read_releases(s, n).reads == s.reads - n,
        after_read_releases(s, n).intents == s.intents,
        after_read_releases(s, n).write_held == s.write_held,
        after_read_releases(s, n).seq == s.seq,
    decreases n,
{
    if n > 0 {
        lemma_after_read_releases(s, (n - 1) as nat);
    }
}

/// One or two write transitions always move the sequence number.
proof fn lemma_seq_next_changes(x: nat)
    ensures
        seq_next(x) != x,
        seq_next(seq_next(x)) != x,
{
}

/// Law: with no write held, every one of a run of read admissions is
/// permitted, and the read count is exact accounting — after `n` admissions
/// and `k` releases it stands at the prior holds plus `n` minus `k`.
pub proof fn lemma_read_admissions_balance(s: LockState, n: nat, k: nat)
    requires
        state_inv(s),
        !s.write_held,
        k <= s.reads + n,
    ensures
        forall|i: nat| i <= n ==> read_permitted(#[trigger] after_reads(s, i)),
        after_reads(s, n).reads == s.reads + n,
        state_inv(after_reads(s, n)),
        after_read_releases(after_reads(s, n), k).reads == s.reads + n - k,
        state_inv(after_read_releases(after_reads(s, n), k)),
{
    assert forall|i: nat| i <= n implies read_permitted(#[trigger] after_reads(s, i)) by {
        lemma_after_reads(s, i);
    }
    lemma_after_reads(s, n);
    lemma_after_read_releases(after_reads(s, n), k);
}

/// Law: intent is exclusive across lineages but recursive within one. While
/// any intent hold exists a fresh intent admission is refused, yet
/// duplicating the existing hold is always permitted and adds exactly one;
/// only when the last hold of the lineage is released is a new lineage
/// admitted.
pub proof fn lemma_intent_exclusive(s: LockState)
    requires
        state_inv(s),
        s.intents >= 1,
    ensures
        !intent_permitted(s),
        acquire_intent(s).intents == s.intents + 1,
        state_inv(acquire_intent(s)),
        s.intents == 1 && !s.write_held ==> intent_permitted(release_intent(s))
            && state_inv(release_intent(s)),
{
}

/// Law: a write hold shuts out new reads without evicting old ones. While
/// the write is held no read is admitted; a reader admitted earlier can
/// still release its hold; and the moment the write is released, reads are
/// admitted again.
pub proof fn lemma_write_excludes_new_reads(s: LockState)
    requires
        state_inv(s),
        s.write_held,
    ensures
        !read_permitted(s),
        s.reads >= 1 ==> release_read(s).reads == s.reads - 1 && state_inv(release_read(s)),
        read_permitted(release_write(s)),
        state_inv(release_write(s)),
{
}

/// Law: downgrade then upgrade round-trips. From a sole intent hold,
/// trading it for a read always leaves the intent slot free, so upgrading
/// that read back is permitted, and doing so restores the starting state —
/// read count included — exactly.
pub proof fn lemma_downgrade_upgrade_round_trip(s: LockState)
    requires
        state_inv(s),
        s.intents == 1,
        !s.write_held,
    ensures
        upgrade_permitted(downgrade_intent(s)),
        downgrade_intent(s).reads == s.reads + 1,
        upgrade_read(downgrade_intent(s)) == s,
{
}

/// Law: a relock handle detects writes. After the observing read hold is
/// released, relocking for read succeeds as long as the sequence number is
/// unchanged; but once a write is carved out in between — whether still
/// held or released again — the handle is refused.
pub proof fn lemma_relock_detects_writes(s: LockState, h: nat)
    requires
        state_inv(s),
        !s.write_held,
        s.reads >= 1,
        h == s.seq,
    ensures
        relock_read_permitted(release_read(s), h),
        !relock_read_permitted(acquire_write(acquire_intent(release_read(s))), h),
        !relock_read_permitted(release_write(acquire_write(acquire_intent(release_read(s)))), h),
{
    lemma_seq_next_changes(s.seq);
}

/// Law: duplication balances with release. A read hold duplicated `n` times
/// and then released `n + 1` times leaves the read count exactly one below
/// its starting point; every one of the releases finds a hold to give up,
/// so nothing is leaked and the count never runs out early.
pub proof fn lemma_duplicate_release_balance(s: LockState, n: nat)
    requires
        state_inv(s),
        s.reads >= 1,
    ensures
        after_reads(s, n).reads == s.reads + n,
        forall|k: nat|
            k < n + 1 ==> #[trigger] after_read_releases(after_reads(s, n), k).reads >= 1,
        after_read_releases(after_reads(s, n), n + 1).reads == s.reads - 1,
        state_inv(after_read_releases(after_reads(s, n), n + 1)),
{
    lemma_after_reads(s, n);
    assert forall|k: nat|
        k < n + 1 implies #[trigger] after_read_releases(after_reads(s, n), k).reads >= 1 by {
        lemma_after_read_releases(after_reads(s, n), k);
    }
    lemma_after_read_releases(after_reads(s, n), (n + 1) as nat);
}

} // verus!
