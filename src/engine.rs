//! The transfer orchestrator: one session at a time, from reset through
//! scanning and the sequential transfer loop to a terminal status.
//!
//! The engine makes the decisions; the caller performs the work. A caller
//! starts a session with `begin`, hands over the scanned or listed items with
//! `set_plan` (or `set_download_plan`), then asks `next_step` at each poll
//! point and reports each finished transfer with `complete_transfer`, or a
//! failure with `fail`. `pause`, `resume`, `cancel` and `get_progress` may be
//! called between any two of those.
use vstd::prelude::*;
use crate::paths::{is_directory_marker, spec_is_directory_marker};
use crate::progress::{
    copy_opt_string, idle_progress, lemma_total_size_prefix, lemma_total_size_step, total_size,
    EntryView, FileEntry, ProgressView, StatusView, SyncDirection, SyncError, SyncProgress,
    SyncStatus,
};
use crate::storage::{object_views, ObjectView, S3Object};

verus! {

/// What the caller is to do next at a poll point.
#[derive(Debug, Clone, Copy, PartialEq, Eq, Structural)]
pub enum Step {
    /// Transfer the planned item at this index, then report it.
    Transfer(usize),
    /// The session is paused: wait one poll interval and ask again.
    Wait,
    /// The session was cancelled; it is over.
    Cancelled,
    /// Every item was transferred; the session is completed.
    Finished,
    /// No session is transferring.
    Inactive,
}

/// Mathematical view of the engine.
pub struct EngineView {
    pub progress: ProgressView,
    /// Items of the current session, in transfer order.
    pub plan: Seq<EntryView>,
    /// Index of the next item to transfer; items before it are done.
    pub next: nat,
    pub cancel_requested: bool,
    /// A pause asked while scanning; it takes effect when the items are
    /// fixed.
    pub pause_pending: bool,
    /// Clock reading (milliseconds) at which the session started.
    pub started_at: Option<u64>,
}

/// Counters agree with the plan: `next` items are done, their sizes make
/// the transferred bytes, and the totals are those of the whole plan.
pub open spec fn inv(v: EngineView) -> bool {
    &&& v.next <= v.plan.len()
    &&& v.plan.len() <= usize::MAX
    &&& (v.pause_pending ==> v.progress.status is Scanning)
    &&& v.progress.completed_files == v.next
    &&& v.progress.total_files == v.plan.len()
    &&& v.progress.transferred_bytes == total_size(v.plan.take(v.next as int))
    &&& v.progress.total_bytes == total_size(v.plan)
    &&& v.progress.bytes_per_second == 0
    &&& v.progress.eta_seconds is None
}

pub open spec fn is_transferring(s: StatusView) -> bool {
    s is Syncing || s is Paused
}

pub open spec fn is_in_flight(s: StatusView) -> bool {
    s is Scanning || s is Syncing || s is Paused
}

pub open spec fn idle_engine() -> EngineView {
    EngineView {
        progress: idle_progress(),
        plan: Seq::empty(),
        next: 0,
        cancel_requested: false,
        pause_pending: false,
        started_at: None,
    }
}

/// A new session: counters cleared, `Scanning` in the given direction.
pub open spec fn begin_spec(dir: SyncDirection, now: u64) -> EngineView {
    EngineView {
        progress: ProgressView {
            status: StatusView::Scanning,
            direction: Some(dir),
            ..idle_progress()
        },
        plan: Seq::empty(),
        next: 0,
        cancel_requested: false,
        pause_pending: false,
        started_at: Some(now),
    }
}

/// Totals fixed from the items; `Syncing` from the first of them, or
/// `Paused` when a pause was asked while scanning.
pub open spec fn plan_spec(v: EngineView, entries: Seq<EntryView>) -> EngineView {
    EngineView {
        progress: ProgressView {
            status: if v.pause_pending {
                StatusView::Paused
            } else {
                StatusView::Syncing
            },
            total_files: entries.len() as u64,
            completed_files: 0,
            total_bytes: total_size(entries) as u64,
            transferred_bytes: 0,
            ..v.progress
        },
        plan: entries,
        next: 0,
        pause_pending: false,
        ..v
    }
}

/// The session ends with an error carrying `message`.
pub open spec fn fail_spec(v: EngineView, message: Seq<char>) -> EngineView {
    EngineView { pause_pending: false, ..with_status(v, StatusView::Error(message)) }
}

pub open spec fn with_status(v: EngineView, s: StatusView) -> EngineView {
    EngineView { progress: ProgressView { status: s, ..v.progress }, ..v }
}

pub open spec fn with_current(v: EngineView, c: Option<Seq<char>>) -> EngineView {
    EngineView { progress: ProgressView { current_file: c, ..v.progress }, ..v }
}

/// The decision at a poll point, and the state after it.
pub open spec fn step_spec(v: EngineView) -> (EngineView, Step) {
    if !is_transferring(v.progress.status) {
        (v, Step::Inactive)
    } else if v.cancel_requested {
        (with_current(with_status(v, StatusView::Cancelled), None), Step::Cancelled)
    } else if v.progress.status is Paused {
        (v, Step::Wait)
    } else if v.next < v.plan.len() {
        (with_current(v, Some(v.plan[v.next as int].path)), Step::Transfer(v.next as usize))
    } else {
        (with_current(with_status(v, StatusView::Completed), None), Step::Finished)
    }
}

/// Whether a finished transfer of item `index` can be recorded.
pub open spec fn can_complete(v: EngineView, index: int) -> bool {
    is_transferring(v.progress.status) && index == v.next && v.next < v.plan.len()
}

/// The next item is done: one more file, its size more bytes.
pub open spec fn complete_spec(v: EngineView) -> EngineView {
    EngineView {
        progress: ProgressView {
            completed_files: (v.progress.completed_files + 1) as u64,
            transferred_bytes: (v.progress.transferred_bytes + v.plan[v.next as int].size) as u64,
            ..v.progress
        },
        next: v.next + 1,
        ..v
    }
}

/// Pausing a syncing session pauses it; a pause asked while scanning is
/// kept until the items are fixed.
pub open spec fn pause_spec(v: EngineView) -> EngineView {
    if v.progress.status is Syncing {
        with_status(v, StatusView::Paused)
    } else if v.progress.status is Scanning {
        EngineView { pause_pending: true, ..v }
    } else {
        v
    }
}

/// Resuming a paused session lets it sync again; while scanning it drops a
/// pause that was asked.
pub open spec fn resume_spec(v: EngineView) -> EngineView {
    if v.progress.status is Paused {
        with_status(v, StatusView::Syncing)
    } else if v.progress.status is Scanning {
        EngineView { pause_pending: false, ..v }
    } else {
        v
    }
}

/// Whether the session is paused or a pause waits for the items.
pub open spec fn spec_is_paused(v: EngineView) -> bool {
    v.progress.status is Paused || v.pause_pending
}

/// Cancelling marks the session and clears a pause, so that the next poll
/// point ends it.
pub open spec fn cancel_spec(v: EngineView) -> EngineView {
    if is_in_flight(v.progress.status) {
        EngineView { cancel_requested: true, ..resume_spec(v) }
    } else {
        v
    }
}

/// Items of a remote listing that a download transfers: all but the
/// directory markers, in listing order.
pub open spec fn download_entries(objects: Seq<ObjectView>) -> Seq<EntryView>
    decreases objects.len(),
{
    if objects.len() == 0 {
        Seq::empty()
    } else {
        let rest = download_entries(objects.drop_last());
        let o = objects.last();
        if spec_is_directory_marker(o.key) {
            rest
        } else {
            rest.push(EntryView { path: o.key, size: o.size, is_dir: false })
        }
    }
}

/// Milliseconds since the session started, by the clock reading `now`.
pub open spec fn elapsed_ms(v: EngineView, now: u64) -> nat {
    match v.started_at {
        Some(t) => if now > t {
            (now - t) as nat
        } else {
            0
        },
        None => 0,
    }
}

pub open spec fn saturate(x: nat) -> u64 {
    if x > u64::MAX {
        u64::MAX
    } else {
        x as u64
    }
}

/// Whole bytes per second over `elapsed` milliseconds.
pub open spec fn rate_spec(transferred: nat, elapsed: nat) -> u64 {
    if elapsed == 0 {
        0
    } else {
        saturate(transferred * 1000 / elapsed)
    }
}

/// Whole seconds left at the observed rate, when that rate (in whole bytes
/// per second) is above 0 and bytes remain.
pub open spec fn eta_spec(total: nat, transferred: nat, elapsed: nat) -> Option<u64> {
    if elapsed > 0 && rate_spec(transferred, elapsed) > 0 && total > transferred {
        Some(saturate(((total - transferred) as nat * elapsed) / (transferred * 1000)))
    } else {
        None
    }
}

/// The progress record with its rate and time left derived at `now`.
pub open spec fn snapshot_spec(v: EngineView, now: u64) -> ProgressView {
    let e = elapsed_ms(v, now);
    ProgressView {
        bytes_per_second: rate_spec(v.progress.transferred_bytes as nat, e),
        eta_seconds: eta_spec(
            v.progress.total_bytes as nat,
            v.progress.transferred_bytes as nat,
            e,
        ),
        ..v.progress
    }
}

/// In every consistent state the completed files never exceed the total
/// files and the transferred bytes never exceed the total bytes, also in
/// the snapshot that a reader is given.
pub proof fn lemma_counters_within_totals(v: EngineView, now: u64)
    requires
        inv(v),
    ensures
        v.progress.completed_files <= v.progress.total_files,
        v.progress.transferred_bytes <= v.progress.total_bytes,
        snapshot_spec(v, now).completed_files <= snapshot_spec(v, now).total_files,
        snapshot_spec(v, now).transferred_bytes <= snapshot_spec(v, now).total_bytes,
{
    lemma_counters_fit(v);
}

/// Every operation of the engine leads from a consistent state to a
/// consistent one, so the counters stay within the totals for the whole
/// life of every session.
pub proof fn lemma_operations_keep_consistency(
    v: EngineView,
    dir: SyncDirection,
    now: u64,
    entries: Seq<EntryView>,
    message: Seq<char>,
)
    requires
        inv(v),
    ensures
        inv(idle_engine()),
        inv(begin_spec(dir, now)),
        total_size(entries) <= u64::MAX && entries.len() <= usize::MAX ==> inv(
            plan_spec(v, entries),
        ),
        inv(step_spec(v).0),
        can_complete(v, v.next as int) ==> inv(complete_spec(v)),
        inv(pause_spec(v)),
        inv(resume_spec(v)),
        inv(cancel_spec(v)),
        inv(fail_spec(v, message)),
{
    assert(Seq::<EntryView>::empty().take(0) =~= Seq::<EntryView>::empty());
    assert(entries.take(0) =~= Seq::<EntryView>::empty());
    if can_complete(v, v.next as int) {
        lemma_total_size_step(v.plan, v.next as int);
        lemma_total_size_prefix(v.plan, (v.next + 1) as int, v.plan.len() as int);
        assert(v.plan.take(v.plan.len() as int) =~= v.plan);
    }
}

/// Two sessions given the same items publish the same totals, whatever
/// state each started from, and no later operation of a session changes
/// them: repeating a run over an unchanged tree reports the same totals.
pub proof fn lemma_same_items_same_totals(
    v1: EngineView,
    v2: EngineView,
    d1: SyncDirection,
    d2: SyncDirection,
    t1: u64,
    t2: u64,
    entries: Seq<EntryView>,
)
    requires
        total_size(entries) <= u64::MAX,
        entries.len() <= usize::MAX,
    ensures
        plan_spec(begin_spec(d1, t1), entries).progress.total_files == plan_spec(
            begin_spec(d2, t2),
            entries,
        ).progress.total_files,
        plan_spec(begin_spec(d1, t1), entries).progress.total_bytes == plan_spec(
            begin_spec(d2, t2),
            entries,
        ).progress.total_bytes,
        plan_spec(begin_spec(d1, t1), entries).progress.total_files == entries.len(),
        plan_spec(begin_spec(d1, t1), entries).progress.total_bytes == total_size(entries),
{
}

/// No operation after the items are fixed changes the totals.
pub proof fn lemma_totals_fixed_during_session(v: EngineView, message: Seq<char>)
    requires
        inv(v),
    ensures
        step_spec(v).0.progress.total_files == v.progress.total_files,
        step_spec(v).0.progress.total_bytes == v.progress.total_bytes,
        can_complete(v, v.next as int) ==> complete_spec(v).progress.total_files
            == v.progress.total_files && complete_spec(v).progress.total_bytes
            == v.progress.total_bytes,
        pause_spec(v).progress.total_bytes == v.progress.total_bytes,
        pause_spec(v).progress.total_files == v.progress.total_files,
        resume_spec(v).progress.total_bytes == v.progress.total_bytes,
        resume_spec(v).progress.total_files == v.progress.total_files,
        cancel_spec(v).progress.total_bytes == v.progress.total_bytes,
        cancel_spec(v).progress.total_files == v.progress.total_files,
{
}

/// Pausing a syncing session freezes it: each poll point waits and changes
/// nothing, so no file is counted. Resuming restores the very state that
/// was paused, so the transfer goes on with the first item not yet done and
/// no completed item is transferred again.
pub proof fn lemma_pause_then_resume(v: EngineView)
    requires
        inv(v),
        v.progress.status is Syncing,
        !v.cancel_requested,
    ensures
        step_spec(pause_spec(v)) == (pause_spec(v), Step::Wait),
        pause_spec(v).progress.completed_files == v.progress.completed_files,
        pause_spec(v).progress.transferred_bytes == v.progress.transferred_bytes,
        pause_spec(v).next == v.next,
        resume_spec(pause_spec(v)) == v,
        v.next < v.plan.len() ==> step_spec(resume_spec(pause_spec(v))).1 == Step::Transfer(
            v.next as usize,
        ),
{
}

/// A pause asked while scanning is kept: once the items are fixed the
/// session is paused, waits at each poll point and counts nothing until it
/// is resumed.
pub proof fn lemma_pause_while_scanning(v: EngineView, entries: Seq<EntryView>)
    requires
        inv(v),
        v.progress.status is Scanning,
        !v.cancel_requested,
    ensures
        spec_is_paused(pause_spec(v)),
        plan_spec(pause_spec(v), entries).progress.status is Paused,
        step_spec(plan_spec(pause_spec(v), entries)) == (
            plan_spec(pause_spec(v), entries),
            Step::Wait,
        ),
        plan_spec(pause_spec(v), entries).progress.completed_files == 0,
{
}

/// Cancelling a paused session ends it at the very next poll point, with
/// no resume in between, and leaves the counters as they were.
pub proof fn lemma_cancel_while_paused(v: EngineView)
    requires
        inv(v),
        v.progress.status is Paused,
    ensures
        step_spec(cancel_spec(v)).1 == Step::Cancelled,
        step_spec(cancel_spec(v)).0.progress.status is Cancelled,
        step_spec(cancel_spec(v)).0.progress.completed_files == v.progress.completed_files,
        step_spec(cancel_spec(v)).0.progress.transferred_bytes == v.progress.transferred_bytes,
{
}

/// Owns the progress record and the control flags of one session at a time.
pub struct SyncEngine {
    progress: SyncProgress,
    plan: Vec<FileEntry>,
    next: usize,
    cancel_requested: bool,
    pause_pending: bool,
    started_at: Option<u64>,
}

impl View for SyncEngine {
    type V = EngineView;

    closed spec fn view(&self) -> EngineView {
        EngineView {
            progress: self.progress@,
            plan: self.plan@.map_values(|e: FileEntry| e@),
            next: self.next as nat,
            cancel_requested: self.cancel_requested,
            pause_pending: self.pause_pending,
            started_at: self.started_at,
        }
    }
}

proof fn lemma_counters_fit(v: EngineView)
    requires
        inv(v),
    ensures
        v.progress.transferred_bytes <= v.progress.total_bytes,
        v.progress.completed_files <= v.progress.total_files,
{
    lemma_total_size_prefix(v.plan, v.next as int, v.plan.len() as int);
    assert(v.plan.take(v.plan.len() as int) =~= v.plan);
}

impl SyncEngine {
    /// An idle engine: no session, every counter zero.
    pub fn new() -> (r: SyncEngine)
        ensures
            r@ == idle_engine(),
            inv(r@),
    {
        let r = SyncEngine {
            progress: SyncProgress::default(),
            plan: Vec::new(),
            next: 0,
            cancel_requested: false,
            pause_pending: false,
            started_at: None,
        };
        proof {
            assert(r@.plan =~= Seq::<EntryView>::empty());
            assert(r@.plan.take(0) =~= Seq::<EntryView>::empty());
        }
        r
    }

    /// Starts a session in direction `dir` at clock reading `now_ms`:
    /// counters and flags are reset and the status becomes `Scanning`.
    /// Refused while another session is in flight.
    pub fn begin(&mut self, dir: SyncDirection, now_ms: u64) -> (r: Result<(), SyncError>)
        requires
            inv(old(self)@),
        ensures
            inv(final(self)@),
            is_in_flight(old(self)@.progress.status) ==> r == Err::<(), SyncError>(
                SyncError::SessionActive,
            ) && final(self)@ == old(self)@,
            !is_in_flight(old(self)@.progress.status) ==> r is Ok && final(self)@ == begin_spec(
                dir,
                now_ms,
            ),
    {
        if self.progress.status.is_active() {
            return Err(SyncError::SessionActive);
        }
        self.progress = SyncProgress {
            status: SyncStatus::Scanning,
            direction: Some(dir),
            total_files: 0,
            completed_files: 0,
            total_bytes: 0,
            transferred_bytes: 0,
            current_file: None,
            bytes_per_second: 0,
            eta_seconds: None,
        };
        self.plan = Vec::new();
        self.next = 0;
        self.cancel_requested = false;
        self.pause_pending = false;
        self.started_at = Some(now_ms);
        proof {
            assert(self@.plan =~= Seq::<EntryView>::empty());
            assert(self@.plan.take(0) =~= Seq::<EntryView>::empty());
            assert(self@ == begin_spec(dir, now_ms));
        }
        Ok(())
    }

    /// Fixes the items of a scanning session, with their totals, and starts
    /// the transfer phase. When the sizes add up to more than a `u64` holds,
    /// the session fails instead and no totals are published.
    pub fn set_plan(&mut self, entries: Vec<FileEntry>) -> (r: Result<(), SyncError>)
        requires
            inv(old(self)@),
        ensures
            inv(final(self)@),
            !(old(self)@.progress.status is Scanning) ==> r == Err::<(), SyncError>(
                SyncError::NoActiveSync,
            ) && final(self)@ == old(self)@,
            old(self)@.progress.status is Scanning && total_size(entries@.map_values(
                |e: FileEntry| e@,
            )) <= u64::MAX ==> r is Ok && final(self)@ == plan_spec(
                old(self)@,
                entries@.map_values(|e: FileEntry| e@),
            ),
            old(self)@.progress.status is Scanning && total_size(entries@.map_values(
                |e: FileEntry| e@,
            )) > u64::MAX ==> r is Err && r->Err_0 is IoError && final(self)@ == fail_spec(
                old(self)@,
                r->Err_0->IoError_0@,
            ),
    {
        if !matches!(self.progress.status, SyncStatus::Scanning) {
            return Err(SyncError::NoActiveSync);
        }
        let ghost ev = entries@.map_values(|e: FileEntry| e@);
        let mut total: u64 = 0;
        let mut i: usize = 0;
        while i < entries.len()
            invariant
                i <= entries@.len(),
                ev == entries@.map_values(|e: FileEntry| e@),
                total == total_size(ev.take(i as int)),
                self@ == old(self)@,
                inv(old(self)@),
                old(self)@.progress.status is Scanning,
            decreases entries@.len() - i,
        {
            proof {
                lemma_total_size_step(ev, i as int);
            }
            let size = entries[i].size;
            if total > u64::MAX - size {
                proof {
                    lemma_total_size_prefix(ev, i + 1, ev.len() as int);
                    assert(ev.take(ev.len() as int) =~= ev);
                }
                let msg = String::from_str("total size of the items exceeds the counter range");
                self.progress.status = SyncStatus::Error(msg.clone());
                self.pause_pending = false;
                return Err(SyncError::IoError(msg));
            }
            total = total + size;
            i = i + 1;
        }
        proof {
            assert(ev.take(i as int) =~= ev);
        }
        self.progress.status = if self.pause_pending {
            SyncStatus::Paused
        } else {
            SyncStatus::Syncing
        };
        self.pause_pending = false;
        self.progress.total_files = entries.len() as u64;
        self.progress.total_bytes = total;
        self.progress.completed_files = 0;
        self.progress.transferred_bytes = 0;
        self.plan = entries;
        self.next = 0;
        proof {
            assert(self@.plan.take(0) =~= Seq::<EntryView>::empty());
            assert(self@ == plan_spec(old(self)@, ev));
        }
        Ok(())
    }

    /// Fixes the items of a download from a remote listing: directory markers
    /// are left out before the totals are computed, so that every counted
    /// item is transferred.
    pub fn set_download_plan(&mut self, objects: &Vec<S3Object>) -> (r: Result<(), SyncError>)
        requires
            inv(old(self)@),
        ensures
            inv(final(self)@),
            !(old(self)@.progress.status is Scanning) ==> r == Err::<(), SyncError>(
                SyncError::NoActiveSync,
            ) && final(self)@ == old(self)@,
            old(self)@.progress.status is Scanning && total_size(
                download_entries(object_views(objects@)),
            ) <= u64::MAX ==> r is Ok && final(self)@ == plan_spec(
                old(self)@,
                download_entries(object_views(objects@)),
            ),
            old(self)@.progress.status is Scanning && total_size(
                download_entries(object_views(objects@)),
            ) > u64::MAX ==> r is Err && final(self)@.progress.status is Error,
    {
        let entries = download_items(objects);
        self.set_plan(entries)
    }

    /// The decision at a poll point. A cancelled session ends (even while
    /// paused); a paused one waits; otherwise the next item is named as the
    /// current file and handed out, or the session completes.
    pub fn next_step(&mut self) -> (r: Step)
        requires
            inv(old(self)@),
        ensures
            inv(final(self)@),
            (final(self)@, r) == step_spec(old(self)@),
    {
        if !matches!(self.progress.status, SyncStatus::Syncing | SyncStatus::Paused) {
            return Step::Inactive;
        }
        if self.cancel_requested {
            self.progress.status = SyncStatus::Cancelled;
            self.progress.current_file = None;
            return Step::Cancelled;
        }
        if matches!(self.progress.status, SyncStatus::Paused) {
            return Step::Wait;
        }
        if self.next < self.plan.len() {
            self.progress.current_file = Some(self.plan[self.next].path.clone());
            return Step::Transfer(self.next);
        }
        self.progress.status = SyncStatus::Completed;
        self.progress.current_file = None;
        Step::Finished
    }

    /// Records that the transfer of item `index` succeeded.
    pub fn complete_transfer(&mut self, index: usize) -> (r: Result<(), SyncError>)
        requires
            inv(old(self)@),
        ensures
            inv(final(self)@),
            can_complete(old(self)@, index as int) ==> r is Ok && final(self)@ == complete_spec(
                old(self)@,
            ),
            !can_complete(old(self)@, index as int) ==> r == Err::<(), SyncError>(
                SyncError::NoActiveSync,
            ) && final(self)@ == old(self)@,
    {
        if !matches!(self.progress.status, SyncStatus::Syncing | SyncStatus::Paused) || index
            != self.next || self.next >= self.plan.len() {
            return Err(SyncError::NoActiveSync);
        }
        let ghost v = self@;
        proof {
            lemma_total_size_step(v.plan, v.next as int);
            lemma_total_size_prefix(v.plan, (v.next + 1) as int, v.plan.len() as int);
            assert(v.plan.take(v.plan.len() as int) =~= v.plan);
        }
        let size = self.plan[self.next].size;
        self.progress.completed_files = self.progress.completed_files + 1;
        self.progress.transferred_bytes = self.progress.transferred_bytes + size;
        self.next = self.next + 1;
        proof {
            assert(self@ == complete_spec(v));
        }
        Ok(())
    }

    /// Ends the session in flight with an error carrying `message`.
    pub fn fail(&mut self, message: String) -> (r: Result<(), SyncError>)
        requires
            inv(old(self)@),
        ensures
            inv(final(self)@),
            is_in_flight(old(self)@.progress.status) ==> r is Ok && final(self)@ == fail_spec(
                old(self)@,
                message@,
            ),
            !is_in_flight(old(self)@.progress.status) ==> r == Err::<(), SyncError>(
                SyncError::NoActiveSync,
            ) && final(self)@ == old(self)@,
    {
        if !self.progress.status.is_active() {
            return Err(SyncError::NoActiveSync);
        }
        self.progress.status = SyncStatus::Error(message);
        self.pause_pending = false;
        Ok(())
    }

    /// Pauses the session: a syncing one waits from the next poll point; a
    /// scanning one starts its transfers paused.
    pub fn pause(&mut self)
        requires
            inv(old(self)@),
        ensures
            inv(final(self)@),
            final(self)@ == pause_spec(old(self)@),
    {
        if matches!(self.progress.status, SyncStatus::Syncing) {
            self.progress.status = SyncStatus::Paused;
        } else if matches!(self.progress.status, SyncStatus::Scanning) {
            self.pause_pending = true;
        }
    }

    /// Resumes a paused session, or drops a pause asked while scanning.
    pub fn resume(&mut self)
        requires
            inv(old(self)@),
        ensures
            inv(final(self)@),
            final(self)@ == resume_spec(old(self)@),
    {
        if matches!(self.progress.status, SyncStatus::Paused) {
            self.progress.status = SyncStatus::Syncing;
        } else if matches!(self.progress.status, SyncStatus::Scanning) {
            self.pause_pending = false;
        }
    }

    /// Cancels the session in flight: it ends at the next poll point, and a
    /// pause is cleared so that it does not wait for a resume.
    pub fn cancel(&mut self)
        requires
            inv(old(self)@),
        ensures
            inv(final(self)@),
            final(self)@ == cancel_spec(old(self)@),
    {
        if self.progress.status.is_active() {
            self.cancel_requested = true;
            self.pause_pending = false;
            if matches!(self.progress.status, SyncStatus::Paused) {
                self.progress.status = SyncStatus::Syncing;
            }
        }
    }

    /// Whether the session is paused, or will start its transfers paused.
    pub fn is_paused(&self) -> (r: bool)
        ensures
            r == spec_is_paused(self@),
    {
        matches!(self.progress.status, SyncStatus::Paused) || self.pause_pending
    }

    /// A copy of the progress record, with the rate and the time left
    /// derived from the clock reading `now_ms`.
    pub fn get_progress(&self, now_ms: u64) -> (r: SyncProgress)
        requires
            inv(self@),
        ensures
            r@ == snapshot_spec(self@, now_ms),
    {
        let elapsed: u64 = match self.started_at {
            Some(t) => if now_ms > t {
                now_ms - t
            } else {
                0
            },
            None => 0,
        };
        let transferred = self.progress.transferred_bytes;
        let total = self.progress.total_bytes;
        let rate: u64 = if elapsed == 0 {
            0
        } else {
            let x: u128 = (transferred as u128) * 1000 / (elapsed as u128);
            if x > u64::MAX as u128 {
                u64::MAX
            } else {
                x as u64
            }
        };
        let eta: Option<u64> = if elapsed > 0 && rate > 0 && total > transferred {
            let remaining = total - transferred;
            proof {
                assert((remaining as nat) * (elapsed as nat) <= (u64::MAX as nat) * (u64::MAX as nat))
                    by (nonlinear_arith)
                    requires
                        remaining <= u64::MAX,
                        elapsed <= u64::MAX,
                ;
            }
            let x: u128 = (remaining as u128) * (elapsed as u128) / ((transferred as u128) * 1000);
            Some(
                if x > u64::MAX as u128 {
                    u64::MAX
                } else {
                    x as u64
                },
            )
        } else {
            None
        };
        SyncProgress {
            status: self.progress.status.copy(),
            direction: self.progress.direction,
            total_files: self.progress.total_files,
            completed_files: self.progress.completed_files,
            total_bytes: total,
            transferred_bytes: transferred,
            current_file: copy_opt_string(&self.progress.current_file),
            bytes_per_second: rate,
            eta_seconds: eta,
        }
    }
}

/// The items that a download of `objects` transfers: every object but the
/// directory markers, in listing order.
pub fn download_items(objects: &Vec<S3Object>) -> (r: Vec<FileEntry>)
    ensures
        r@.map_values(|e: FileEntry| e@) == download_entries(object_views(objects@)),
{
    let ghost ov = object_views(objects@);
    let mut r: Vec<FileEntry> = Vec::new();
    let mut i: usize = 0;
    proof {
        assert(r@.map_values(|e: FileEntry| e@) =~= Seq::<EntryView>::empty());
    }
    while i < objects.len()
        invariant
            i <= objects@.len(),
            ov == object_views(objects@),
            r@.map_values(|e: FileEntry| e@) == download_entries(ov.take(i as int)),
        decreases objects@.len() - i,
    {
        let o = &objects[i];
        proof {
            assert(ov.take(i + 1).drop_last() =~= ov.take(i as int));
        }
        if !is_directory_marker(o.key.as_str()) {
            let ghost before = r@;
            r.push(FileEntry { path: o.key.clone(), size: o.size, is_dir: false });
            proof {
                assert(r@.map_values(|e: FileEntry| e@) =~= before.map_values(|e: FileEntry| e@).push(
                    EntryView { path: o.key@, size: o.size, is_dir: false },
                ));
            }
        }
        i = i + 1;
    }
    proof {
        assert(ov.take(i as int) =~= ov);
    }
    r
}

} // verus!
