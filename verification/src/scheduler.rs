//! Ingestion scheduler: the long-lived loop that wakes when something was
//! uploaded, looks at every pending upload, and has each one processed.
//!
//! A wake is not a message about one upload. Any number of uploads before a
//! scan cause one scan, and a scan looks at all pending uploads of all users.
//! For each, the staged file must still be there; a record without its file is
//! passed over and kept. A record with its file is processed, and then
//! deleted whether processing worked or not. The loop ends only when the wake
//! signal is closed.
//!
//! [`Scheduler`] holds where the loop stands. It says what has to be done
//! next ([`Scheduler::request`]) and is told what came of it
//! ([`Scheduler::answer`]). [`WakeSignal`] is the signal itself.

use crate::ingest::PendingUpload;
use crate::relocate::{staging_location, staging_path};
use vstd::prelude::*;

verus! {

/// What a look at the wake signal finds.
#[derive(Clone, Copy, Debug, PartialEq, Eq, Structural)]
pub enum Wake {
    /// Something was uploaded since the last look: scan.
    Rescan,
    /// Nothing new: wait for the next notification, then look again.
    Wait,
    /// Nothing new and nothing will come: stop.
    Closed,
}

/// The wake signal: one slot that remembers that there is work, not how
/// much. It starts signalled, so that the first look scans.
#[derive(Clone, Copy, Debug, PartialEq, Eq, Structural)]
pub struct WakeSignal {
    /// Something was uploaded since the last look.
    pub dirty: bool,
    /// No more notifications will come.
    pub closed: bool,
}

impl WakeSignal {
    /// The signal after a notification.
    pub open spec fn notified(self) -> WakeSignal {
        WakeSignal { dirty: true, ..self }
    }

    /// What a look finds.
    pub open spec fn found(self) -> Wake {
        if self.dirty {
            Wake::Rescan
        } else if self.closed {
            Wake::Closed
        } else {
            Wake::Wait
        }
    }

    /// The signal after a look.
    pub open spec fn looked(self) -> WakeSignal {
        WakeSignal { dirty: false, ..self }
    }

    /// The signal after `n` notifications in a row.
    pub open spec fn notified_times(self, n: nat) -> WakeSignal
        decreases n,
    {
        if n == 0 {
            self
        } else {
            self.notified_times((n - 1) as nat).notified()
        }
    }

    /// A new signal: signalled and open.
    pub fn new() -> (s: WakeSignal)
        ensures
            s == (WakeSignal { dirty: true, closed: false }),
    {
        WakeSignal { dirty: true, closed: false }
    }

    /// Records that something was uploaded.
    pub fn notify(&mut self)
        ensures
            *final(self) == old(self).notified(),
    {
        self.dirty = true;
    }

    /// Records that no more notifications will come. What was notified
    /// before is still found by the next look.
    pub fn close(&mut self)
        ensures
            *final(self) == (WakeSignal { closed: true, ..*old(self) }),
    {
        self.closed = true;
    }

    /// Looks at the signal and clears it.
    pub fn take(&mut self) -> (w: Wake)
        ensures
            w == old(self).found(),
            *final(self) == old(self).looked(),
    {
        let w = if self.dirty {
            Wake::Rescan
        } else if self.closed {
            Wake::Closed
        } else {
            Wake::Wait
        };
        self.dirty = false;
        w
    }
}

/// However many notifications come before a look, the look finds one
/// rescan, and the look after it finds none.
pub proof fn lemma_notifications_coalesce(signal: WakeSignal, n: nat)
    requires
        n >= 1,
    ensures
        signal.notified_times(n) == signal.notified(),
        signal.notified_times(n).found() == Wake::Rescan,
        signal.notified_times(n).looked().found() != Wake::Rescan,
    decreases n,
{
    if n > 1 {
        lemma_notifications_coalesce(signal, (n - 1) as nat);
    } else {
        assert(signal.notified_times(0) == signal);
    }
}

/// What the scheduler needs done next.
#[derive(Debug)]
pub enum SchedulerRequest {
    /// Wait until the wake signal shows work or is closed. Answered by
    /// [`SchedulerReply::Woken`] or [`SchedulerReply::Closed`].
    AwaitWake,
    /// Read all pending uploads of all users. Answered by
    /// [`SchedulerReply::Pending`].
    ListPending,
    /// See whether the staged file of the upload `fid` exists at `path`.
    /// Answered by [`SchedulerReply::Staged`].
    CheckStaged { fid: i64, path: String },
    /// Process this upload in a transaction of its own. Answered by
    /// [`SchedulerReply::Processed`], however it went.
    Process { upload: PendingUpload },
    /// Delete the pending record `fid`. Answered by
    /// [`SchedulerReply::Deleted`].
    DeletePending { fid: i64 },
    /// Nothing more: the signal is closed.
    Stop,
}

/// What came of a [`SchedulerRequest`].
#[derive(Debug)]
pub enum SchedulerReply {
    /// The signal showed work.
    Woken,
    /// The signal is closed.
    Closed,
    /// The pending uploads, as read.
    Pending(Vec<PendingUpload>),
    /// Whether the staged file exists.
    Staged(bool),
    /// Processing has ended, in success or in failure.
    Processed,
    /// The record was deleted, or the attempt was made.
    Deleted,
}

/// A [`PendingUpload`] as plain values.
pub struct PendingView {
    pub fid: i64,
    pub user: Seq<char>,
    pub path: Seq<char>,
}

impl View for PendingUpload {
    type V = PendingView;

    open spec fn view(&self) -> PendingView {
        PendingView { fid: self.fid, user: self.user@, path: self.path@ }
    }
}

/// The plain values of a list of pending uploads.
pub open spec fn pending_views(rows: Seq<PendingUpload>) -> Seq<PendingView> {
    rows.map_values(|row: PendingUpload| row@)
}

/// A [`SchedulerRequest`] as plain values.
pub enum SchedulerRequestView {
    AwaitWake,
    ListPending,
    CheckStaged { fid: i64, path: Seq<char> },
    Process { upload: PendingView },
    DeletePending { fid: i64 },
    Stop,
}

impl View for SchedulerRequest {
    type V = SchedulerRequestView;

    open spec fn view(&self) -> SchedulerRequestView {
        match *self {
            SchedulerRequest::AwaitWake => SchedulerRequestView::AwaitWake,
            SchedulerRequest::ListPending => SchedulerRequestView::ListPending,
            SchedulerRequest::CheckStaged { fid, path } => SchedulerRequestView::CheckStaged {
                fid,
                path: path@,
            },
            SchedulerRequest::Process { upload } => SchedulerRequestView::Process {
                upload: upload@,
            },
            SchedulerRequest::DeletePending { fid } => SchedulerRequestView::DeletePending { fid },
            SchedulerRequest::Stop => SchedulerRequestView::Stop,
        }
    }
}

/// A [`SchedulerReply`] as plain values.
pub enum SchedulerReplyView {
    Woken,
    Closed,
    Pending(Seq<PendingView>),
    Staged(bool),
    Processed,
    Deleted,
}

impl View for SchedulerReply {
    type V = SchedulerReplyView;

    open spec fn view(&self) -> SchedulerReplyView {
        match *self {
            SchedulerReply::Woken => SchedulerReplyView::Woken,
            SchedulerReply::Closed => SchedulerReplyView::Closed,
            SchedulerReply::Pending(rows) => SchedulerReplyView::Pending(pending_views(rows@)),
            SchedulerReply::Staged(exists) => SchedulerReplyView::Staged(exists),
            SchedulerReply::Processed => SchedulerReplyView::Processed,
            SchedulerReply::Deleted => SchedulerReplyView::Deleted,
        }
    }
}

/// What the scheduler is doing.
#[derive(Clone, Copy, Debug, PartialEq, Eq, Structural)]
pub enum Phase {
    /// Waiting for the wake signal.
    Idle,
    /// Reading the pending uploads.
    Listing,
    /// Checking the staged file of the current upload.
    Checking,
    /// Having the current upload processed.
    Processing,
    /// Deleting the current upload's record.
    Deleting,
    /// Stopped for good.
    Stopped,
}

/// The scheduler's state as plain values.
pub struct SchedulerView {
    /// The pending uploads of the scan under way.
    pub rows: Seq<PendingView>,
    /// The place of the current upload among them.
    pub index: int,
    pub phase: Phase,
}

impl SchedulerView {
    /// The state of a new scheduler: waiting for the signal.
    pub open spec fn start() -> SchedulerView {
        SchedulerView { rows: Seq::empty(), index: 0, phase: Phase::Idle }
    }

    /// Whether an upload is under way.
    pub open spec fn scanning(self) -> bool {
        self.phase == Phase::Checking || self.phase == Phase::Processing || self.phase
            == Phase::Deleting
    }

    /// While an upload is under way, it is one of the scan's.
    pub open spec fn well_formed(self) -> bool {
        &&& 0 <= self.index <= self.rows.len()
        &&& self.scanning() ==> self.index < self.rows.len()
    }

    /// The state when the scan turns to the upload at place `index`: that
    /// upload's file is checked, or, past the last, the scheduler waits again.
    pub open spec fn turn_to(self, index: int) -> SchedulerView {
        SchedulerView {
            index,
            phase: if index < self.rows.len() {
                Phase::Checking
            } else {
                Phase::Idle
            },
            ..self
        }
    }

    /// What is needed next.
    pub open spec fn request(self) -> SchedulerRequestView {
        match self.phase {
            Phase::Idle => SchedulerRequestView::AwaitWake,
            Phase::Listing => SchedulerRequestView::ListPending,
            Phase::Checking => SchedulerRequestView::CheckStaged {
                fid: self.rows[self.index].fid,
                path: staging_path(self.rows[self.index].fid),
            },
            Phase::Processing => SchedulerRequestView::Process { upload: self.rows[self.index] },
            Phase::Deleting => SchedulerRequestView::DeletePending {
                fid: self.rows[self.index].fid,
            },
            Phase::Stopped => SchedulerRequestView::Stop,
        }
    }

    /// The state after `reply`. A reply that the pending request does not
    /// expect changes nothing.
    pub open spec fn answer(self, reply: SchedulerReplyView) -> SchedulerView {
        match (self.phase, reply) {
            (Phase::Idle, SchedulerReplyView::Woken) => SchedulerView {
                phase: Phase::Listing,
                ..self
            },
            (Phase::Idle, SchedulerReplyView::Closed) => SchedulerView {
                phase: Phase::Stopped,
                ..self
            },
            (Phase::Listing, SchedulerReplyView::Pending(rows)) => SchedulerView {
                rows,
                ..self
            }.turn_to(0),
            (Phase::Checking, SchedulerReplyView::Staged(true)) => SchedulerView {
                phase: Phase::Processing,
                ..self
            },
            (Phase::Checking, SchedulerReplyView::Staged(false)) => self.turn_to(self.index + 1),
            (Phase::Processing, SchedulerReplyView::Processed) => SchedulerView {
                phase: Phase::Deleting,
                ..self
            },
            (Phase::Deleting, SchedulerReplyView::Deleted) => self.turn_to(self.index + 1),
            _ => self,
        }
    }

    /// Requests still to come in the scan under way, at most: three for each
    /// upload not yet looked at, less those already made for the current one.
    pub open spec fn steps_left(self) -> nat {
        if !self.scanning() || self.index >= self.rows.len() {
            0
        } else {
            let ahead = 3 * (self.rows.len() - self.index);
            match self.phase {
                Phase::Checking => ahead as nat,
                Phase::Processing => (ahead - 1) as nat,
                _ => (ahead - 2) as nat,
            }
        }
    }
}

/// The ingestion loop, one request at a time.
#[derive(Debug)]
pub struct Scheduler {
    rows: Vec<PendingUpload>,
    index: usize,
    phase: Phase,
}

impl View for Scheduler {
    type V = SchedulerView;

    closed spec fn view(&self) -> SchedulerView {
        SchedulerView {
            rows: pending_views(self.rows@),
            index: self.index as int,
            phase: self.phase,
        }
    }
}

impl Scheduler {
    #[verifier::type_invariant]
    spec fn inv(self) -> bool {
        self@.well_formed()
    }

    /// A scheduler that waits for the wake signal.
    pub fn new() -> (s: Scheduler)
        ensures
            s@ == SchedulerView::start(),
            s@.well_formed(),
    {
        let s = Scheduler { rows: Vec::new(), index: 0, phase: Phase::Idle };
        assert(s@.rows =~= Seq::empty());
        s
    }

    /// What the scheduler needs done next. Asking again before answering
    /// gives the same request.
    pub fn request(&self) -> (req: SchedulerRequest)
        ensures
            req@ == self@.request(),
            self@.well_formed(),
    {
        proof {
            use_type_invariant(self);
        }
        match self.phase {
            Phase::Idle => SchedulerRequest::AwaitWake,
            Phase::Listing => SchedulerRequest::ListPending,
            Phase::Checking => {
                let fid = self.rows[self.index].fid;
                SchedulerRequest::CheckStaged { fid, path: staging_location(fid) }
            },
            Phase::Processing => {
                let row = &self.rows[self.index];
                SchedulerRequest::Process {
                    upload: PendingUpload {
                        fid: row.fid,
                        user: row.user.clone(),
                        path: row.path.clone(),
                    },
                }
            },
            Phase::Deleting => SchedulerRequest::DeletePending { fid: self.rows[self.index].fid },
            Phase::Stopped => SchedulerRequest::Stop,
        }
    }

    /// Turns to the upload at place `index`.
    fn turn_to(&mut self, index: usize)
        requires
            index <= old(self).rows@.len(),
        ensures
            final(self)@ == old(self)@.turn_to(index as int),
            final(self)@.well_formed(),
    {
        proof {
            use_type_invariant(&*self);
        }
        self.phase = Phase::Idle;
        self.index = index;
        if index < self.rows.len() {
            self.phase = Phase::Checking;
        }
    }

    /// Turns to the upload after the current one.
    fn turn_to_next(&mut self)
        requires
            old(self)@.scanning(),
        ensures
            final(self)@ == old(self)@.turn_to(old(self)@.index + 1),
            final(self)@.well_formed(),
    {
        proof {
            use_type_invariant(&*self);
            assert(self@.rows.len() == self.rows@.len());
        }
        let count = self.rows.len();
        assert(self.index < count);
        self.turn_to(self.index + 1);
    }

    /// Takes in what came of the pending request. A reply of the wrong kind,
    /// or any reply once the scheduler has stopped, changes nothing.
    pub fn answer(&mut self, reply: SchedulerReply)
        ensures
            final(self)@ == old(self)@.answer(reply@),
            final(self)@.well_formed(),
    {
        proof {
            use_type_invariant(&*self);
            assert(self@.rows.len() == self.rows@.len());
        }
        match (self.phase, reply) {
            (Phase::Idle, SchedulerReply::Woken) => {
                self.phase = Phase::Listing;
            },
            (Phase::Idle, SchedulerReply::Closed) => {
                self.phase = Phase::Stopped;
            },
            (Phase::Listing, SchedulerReply::Pending(rows)) => {
                self.phase = Phase::Idle;
                self.index = 0;
                self.rows = rows;
                self.turn_to(0);
            },
            (Phase::Checking, SchedulerReply::Staged(true)) => {
                self.phase = Phase::Processing;
            },
            (Phase::Checking, SchedulerReply::Staged(false)) => {
                self.turn_to_next();
            },
            (Phase::Processing, SchedulerReply::Processed) => {
                self.phase = Phase::Deleting;
            },
            (Phase::Deleting, SchedulerReply::Deleted) => {
                self.turn_to_next();
            },
            _ => {},
        }
    }

    /// Whether the scheduler has stopped for good.
    pub fn stopped(&self) -> (b: bool)
        ensures
            b == (self@.phase == Phase::Stopped),
    {
        match self.phase {
            Phase::Stopped => true,
            _ => false,
        }
    }
}

/// Runs one scan to its end. `pending` holds the ids of the pending records
/// and `staged` the ids whose staged file exists. Each check is answered from
/// `staged`, each processing ends one way or the other, and each delete takes
/// its record out of `pending`. Gives the pending records after the scan.
pub open spec fn scan_drive(s: SchedulerView, pending: Set<i64>, staged: Set<i64>) -> Set<i64>
    decreases s.steps_left(),
{
    if !s.well_formed() {
        pending
    } else {
        match s.request() {
            SchedulerRequestView::CheckStaged { fid, .. } => scan_drive(
                s.answer(SchedulerReplyView::Staged(staged.contains(fid))),
                pending,
                staged,
            ),
            SchedulerRequestView::Process { .. } => scan_drive(
                s.answer(SchedulerReplyView::Processed),
                pending,
                staged,
            ),
            SchedulerRequestView::DeletePending { fid } => scan_drive(
                s.answer(SchedulerReplyView::Deleted),
                pending.remove(fid),
                staged,
            ),
            _ => pending,
        }
    }
}

/// Whether one of `rows[from..]` has the id `fid`.
pub open spec fn lists(rows: Seq<PendingView>, from: int, fid: i64) -> bool {
    exists|k: int| from <= k < rows.len() && (#[trigger] rows[k]).fid == fid
}

/// The scheduler as it turns to the upload at place `from` of `rows`.
pub open spec fn scanning_from(rows: Seq<PendingView>, from: int) -> SchedulerView {
    SchedulerView { rows, index: from, phase: Phase::Idle }.turn_to(from)
}

/// What a scan leaves of the pending records, from the upload at place
/// `from` on: a record is gone exactly when the scan came to it and its
/// staged file was there.
pub proof fn lemma_scan_from(
    rows: Seq<PendingView>,
    from: int,
    pending: Set<i64>,
    staged: Set<i64>,
)
    requires
        0 <= from <= rows.len(),
    ensures
        forall|fid: i64|
            scan_drive(scanning_from(rows, from), pending, staged).contains(fid) <==> (
            pending.contains(fid) && !(lists(rows, from, fid) && staged.contains(fid))),
    decreases rows.len() - from,
{
    let s = scanning_from(rows, from);
    if from < rows.len() {
        let row = rows[from];
        let next = scanning_from(rows, from + 1);
        let left = if staged.contains(row.fid) {
            pending.remove(row.fid)
        } else {
            pending
        };
        if staged.contains(row.fid) {
            let processing = s.answer(SchedulerReplyView::Staged(true));
            let deleting = processing.answer(SchedulerReplyView::Processed);
            assert(deleting.answer(SchedulerReplyView::Deleted) == next);
            assert(scan_drive(s, pending, staged) == scan_drive(processing, pending, staged));
            assert(scan_drive(processing, pending, staged) == scan_drive(
                deleting,
                pending,
                staged,
            ));
            assert(scan_drive(deleting, pending, staged) == scan_drive(next, left, staged));
        } else {
            assert(s.answer(SchedulerReplyView::Staged(false)) == next);
            assert(scan_drive(s, pending, staged) == scan_drive(next, pending, staged));
        }
        lemma_scan_from(rows, from + 1, left, staged);
        let after = scan_drive(next, left, staged);
        assert(scan_drive(s, pending, staged) == after);
        assert forall|fid: i64|
            after.contains(fid) <==> (pending.contains(fid) && !(lists(rows, from, fid)
                && staged.contains(fid))) by {
            assert(after.contains(fid) <==> (left.contains(fid) && !(lists(rows, from + 1, fid)
                && staged.contains(fid))));
            if lists(rows, from + 1, fid) {
                let k = choose|k: int| from + 1 <= k < rows.len() && (#[trigger] rows[k]).fid == fid;
                assert(from <= k < rows.len() && rows[k].fid == fid);
                assert(lists(rows, from, fid));
            }
            if fid == row.fid {
                assert(rows[from].fid == fid);
                assert(lists(rows, from, fid));
            } else if lists(rows, from, fid) {
                let k = choose|k: int| from <= k < rows.len() && (#[trigger] rows[k]).fid == fid;
                assert(from + 1 <= k < rows.len() && rows[k].fid == fid);
                assert(lists(rows, from + 1, fid));
            }
        }
    } else {
        assert forall|fid: i64| !lists(rows, from, fid) by {}
    }
}

/// After a scan, every pending record that the scan listed and whose staged
/// file was there is gone, whether its processing worked or not; every other
/// record is still there; and the scheduler waits for the next wake.
pub proof fn lemma_scan(rows: Seq<PendingView>, pending: Set<i64>, staged: Set<i64>)
    ensures
        ({
            let listing = SchedulerView::start().answer(SchedulerReplyView::Woken);
            let after = scan_drive(
                listing.answer(SchedulerReplyView::Pending(rows)),
                pending,
                staged,
            );
            &&& listing.request() == SchedulerRequestView::ListPending
            &&& forall|fid: i64|
                after.contains(fid) <==> pending.contains(fid) && !(lists(rows, 0, fid)
                    && staged.contains(fid))
        }),
{
    let listing = SchedulerView::start().answer(SchedulerReplyView::Woken);
    assert(listing.answer(SchedulerReplyView::Pending(rows)) == scanning_from(rows, 0));
    lemma_scan_from(rows, 0, pending, staged);
}

} // verus!
