//! The transfers that are going on, and those that are over.

use vstd::prelude::*;
use vstd::string::StrSliceExecFns;

use crate::file_transfer::{
    manifest_fault, validate_manifest, BodyView, PacketView, FileEntry, FileTransferBody,
    FileTransferPacket, TransferError, MAX_FILE_ENTRIES,
};
use crate::table::{strictly_ascending, DeviceTable};
use crate::types::{ControlConnectionId, DeviceId};

verus! {

/// How many transfers may go on at a time.
pub const MAX_ACTIVE: usize = 4;

/// How many transfers that are over are remembered.
pub const HISTORY: usize = 64;

/// How far a transfer is.
#[derive(Debug, Clone, Copy, PartialEq, Eq, Structural)]
pub enum FileTransferStatus {
    Preparing,
    Waiting,
    Transferring,
    Completed,
    Cancelled,
    Failed,
}

/// What is shown of a transfer.
#[derive(Debug)]
pub struct FileTransferSnapshot {
    pub id: DeviceId,
    pub peer_id: DeviceId,
    pub incoming: bool,
    pub status: FileTransferStatus,
    /// The first few entries of the list.
    pub entries: Vec<FileEntry>,
    pub entry_count: usize,
    pub total_bytes: u64,
    pub transferred_bytes: u64,
    pub destination: Option<String>,
    pub error: Option<String>,
}

/// How many entries are shown of a transfer.
pub const SHOWN_ENTRIES: usize = 8;

/// What is shown of a transfer, as a value.
pub struct SnapshotView {
    pub id: DeviceId,
    pub peer_id: DeviceId,
    pub incoming: bool,
    pub status: FileTransferStatus,
    pub entries: Seq<FileEntry>,
    pub entry_count: usize,
    pub total_bytes: u64,
    pub transferred_bytes: u64,
    pub destination: Option<Seq<char>>,
    pub error: Option<Seq<char>>,
}

/// What a text says that may be missing.
pub open spec fn optional_text(text: Option<String>) -> Option<Seq<char>> {
    match text {
        Some(t) => Some(t@),
        None => None,
    }
}

impl View for FileTransferSnapshot {
    type V = SnapshotView;

    open spec fn view(&self) -> SnapshotView {
        SnapshotView {
            id: self.id,
            peer_id: self.peer_id,
            incoming: self.incoming,
            status: self.status,
            entries: self.entries@,
            entry_count: self.entry_count,
            total_bytes: self.total_bytes,
            transferred_bytes: self.transferred_bytes,
            destination: optional_text(self.destination),
            error: optional_text(self.error),
        }
    }
}

/// Copies the first entries of a list.
fn first_entries(entries: &Vec<FileEntry>, limit: usize) -> (first: Vec<FileEntry>)
    ensures
        first@ == entries@.take(
            if limit <= entries@.len() {
                limit as int
            } else {
                entries@.len() as int
            },
        ),
{
    let mut first: Vec<FileEntry> = Vec::new();
    let mut i: usize = 0;
    while i < entries.len() && i < limit
        invariant
            i <= entries@.len(),
            i <= limit,
            first@ == entries@.take(i as int),
        decreases entries@.len() - i,
    {
        first.push(entries[i].clone());
        assert(entries@.take(i + 1) =~= entries@.take(i as int).push(entries@[i as int]));
        i += 1;
    }
    first
}

fn copy_text(text: &Option<String>) -> (copy: Option<String>)
    ensures
        optional_text(copy) == optional_text(*text),
{
    match text {
        Some(text) => Some(text.clone()),
        None => None,
    }
}

impl FileTransferSnapshot {
    /// A copy of what is shown.
    pub fn copy(&self) -> (copy: Self)
        ensures
            copy@ == self@,
    {
        let entries = first_entries(&self.entries, self.entries.len());
        assert(self.entries@.take(self.entries@.len() as int) =~= self.entries@);
        FileTransferSnapshot {
            id: self.id,
            peer_id: self.peer_id,
            incoming: self.incoming,
            status: self.status,
            entries,
            entry_count: self.entry_count,
            total_bytes: self.total_bytes,
            transferred_bytes: self.transferred_bytes,
            destination: copy_text(&self.destination),
            error: copy_text(&self.error),
        }
    }
}

impl SnapshotView {
    /// What is shown of a transfer that was just taken on.
    pub open spec fn fresh(id: DeviceId, peer_id: DeviceId, incoming: bool) -> SnapshotView {
        SnapshotView {
            id,
            peer_id,
            incoming,
            status: FileTransferStatus::Preparing,
            entries: seq![],
            entry_count: 0,
            total_bytes: 0,
            transferred_bytes: 0,
            destination: None,
            error: None,
        }
    }

    /// What is shown once the list is known.
    pub open spec fn with_entries(
        self,
        entries: Seq<FileEntry>,
        total: u64,
        status: FileTransferStatus,
    ) -> SnapshotView {
        SnapshotView {
            entries: entries.take(
                if SHOWN_ENTRIES <= entries.len() {
                    SHOWN_ENTRIES as int
                } else {
                    entries.len() as int
                },
            ),
            entry_count: entries.len() as usize,
            total_bytes: total,
            status,
            ..self
        }
    }
}

/// A transfer that is going on, and the connection that it goes over.
pub struct Job {
    pub snapshot: FileTransferSnapshot,
    pub generation: ControlConnectionId,
}

/// The transfers that are going on, and those that are over, oldest first.
pub struct Jobs {
    pub active: DeviceTable<Job>,
    pub history: Vec<FileTransferSnapshot>,
}

/// A transfer that is going on, as a value.
pub struct JobView {
    pub snapshot: SnapshotView,
    pub generation: ControlConnectionId,
}

/// All transfers, as a value.
#[verifier::ext_equal]
pub struct JobsView {
    pub active: Map<u128, JobView>,
    pub history: Seq<SnapshotView>,
}

impl View for Job {
    type V = JobView;

    open spec fn view(&self) -> JobView {
        JobView { snapshot: self.snapshot@, generation: self.generation }
    }
}

impl View for Jobs {
    type V = JobsView;

    open spec fn view(&self) -> JobsView {
        JobsView {
            active: self.active@.map_values(|job: Job| job@),
            history: self.history@.map_values(|snapshot: FileTransferSnapshot| snapshot@),
        }
    }
}

/// The last of what is to be remembered.
pub open spec fn remembered(history: Seq<SnapshotView>) -> Seq<SnapshotView> {
    if history.len() > HISTORY {
        history.skip(history.len() - HISTORY)
    } else {
        history
    }
}

impl JobsView {
    /// What holds of all transfers: not too many go on, not too many are remembered, and
    /// each stands under its own identifier.
    pub open spec fn well_formed(self) -> bool {
        &&& self.active.dom().finite()
        &&& self.active.dom().len() <= MAX_ACTIVE
        &&& self.history.len() <= HISTORY
        &&& forall|id: u128| #[trigger]
            self.active.contains_key(id) ==> self.active[id].snapshot.id.0 == id
    }

    /// Whether a transfer that is over is remembered.
    pub open spec fn recalls(self, id: DeviceId) -> bool {
        exists|i: int| 0 <= i < self.history.len() && (#[trigger] self.history[i]).id == id
    }

    /// Why a transfer is not taken on.
    pub open spec fn register_fault(self, id: DeviceId) -> Option<TransferError> {
        if self.active.dom().len() >= MAX_ACTIVE {
            Some(TransferError::TooManyTransfers)
        } else if self.active.contains_key(id.0) || self.recalls(id) {
            Some(TransferError::DuplicateTransfer)
        } else {
            None
        }
    }

    /// Why an offer of `entries` is turned down: the list first, then the folder that it is
    /// meant for, then the packet's place, then what goes on already.
    pub open spec fn offer_fault(
        self,
        peer: FilePeer,
        packet: PacketView,
        id: DeviceId,
        resolver: bool,
    ) -> Option<TransferError> {
        let entries = packet.body->entries;
        if manifest_fault(entries) is Some {
            manifest_fault(entries)
        } else if packet.body->drop is Some && !(peer.folder_drop_version == 1 && resolver) {
            Some(TransferError::FolderUnsupported)
        } else if packet.sequence != 0 {
            Some(TransferError::InvalidStart)
        } else {
            self.register_fault(id)
        }
    }

    /// The transfers after one was taken on.
    pub open spec fn registered(
        self,
        id: DeviceId,
        peer_id: DeviceId,
        generation: ControlConnectionId,
        incoming: bool,
    ) -> JobsView {
        JobsView {
            active: self.active.insert(
                id.0,
                JobView { snapshot: SnapshotView::fresh(id, peer_id, incoming), generation },
            ),
            ..self
        }
    }

    /// The transfers after one more is over.
    pub open spec fn with_history(self, snapshot: SnapshotView) -> JobsView {
        JobsView { history: remembered(self.history.push(snapshot)), ..self }
    }

    /// The transfers after one has changed.
    pub open spec fn updated(self, id: DeviceId, snapshot: SnapshotView) -> JobsView {
        JobsView {
            active: self.active.insert(id.0, JobView { snapshot, ..self.active[id.0] }),
            ..self
        }
    }

    /// The transfers after one has ended, if it went on.
    pub open spec fn after_finish(
        self,
        id: DeviceId,
        status: FileTransferStatus,
        error: Option<Seq<char>>,
    ) -> JobsView {
        if self.active.contains_key(id.0) {
            JobsView { active: self.active.remove(id.0), ..self }.with_history(
                SnapshotView { status, error, ..self.active[id.0].snapshot },
            )
        } else {
            self
        }
    }

    /// Whether a transfer goes over a peer's connection.
    pub open spec fn runs_over(
        self,
        id: u128,
        peer: DeviceId,
        generation: ControlConnectionId,
    ) -> bool {
        self.active.contains_key(id) && self.active[id].snapshot.peer_id == peer
            && self.active[id].generation == generation
    }
}

/// What asking to stop a transfer comes to.
#[derive(Debug, Clone, Copy, PartialEq, Eq, Structural)]
pub enum CancelRequest {
    /// It goes on, and is stopped.
    Stop,
    /// It is over already.
    Over,
}

/// What is known of a peer that a packet comes from.
#[derive(Debug, Clone, Copy, PartialEq, Eq, Structural)]
pub struct FilePeer {
    pub control_connection_id: ControlConnectionId,
    pub file_transfer_version: u8,
    pub folder_drop_version: u8,
}

/// What becomes of a packet.
#[derive(Debug, PartialEq, Eq)]
pub enum PacketRoute {
    /// It is dropped.
    Ignore,
    /// It has started a transfer.
    Start,
    /// Its transfer is turned down, and the peer is told.
    Reject(TransferError),
    /// It goes to its transfer.
    Deliver,
    /// Its transfer is stopped, for the reason that the peer gives.
    Stop,
}

impl Jobs {
    pub fn new() -> (jobs: Self)
        ensures
            jobs@.active == Map::<u128, JobView>::empty(),
            jobs@.history == Seq::<SnapshotView>::empty(),
            jobs@.well_formed(),
    {
        let jobs = Jobs { active: DeviceTable::new(), history: Vec::new() };
        assert(jobs@.active =~= Map::<u128, JobView>::empty());
        assert(jobs@.history =~= Seq::<SnapshotView>::empty());
        jobs
    }

    /// Whether a transfer that is over is remembered.
    fn recalls(&self, id: DeviceId) -> (recalled: bool)
        ensures
            recalled == self@.recalls(id),
    {
        let mut i: usize = 0;
        while i < self.history.len()
            invariant
                i <= self.history@.len(),
                forall|k: int| 0 <= k < i ==> (#[trigger] self@.history[k]).id != id,
            decreases self.history@.len() - i,
        {
            assert(self@.history[i as int] == self.history@[i as int]@);
            if self.history[i].id == id {
                return true;
            }
            i += 1;
        }
        false
    }

    /// Takes a transfer on.
    pub fn register(
        &mut self,
        id: DeviceId,
        peer_id: DeviceId,
        generation: ControlConnectionId,
        incoming: bool,
    ) -> (registered: Result<(), TransferError>)
        requires
            old(self)@.well_formed(),
        ensures
            final(self)@.well_formed(),
            match registered {
                Ok(()) => old(self)@.register_fault(id) is None && final(self)@
                    == old(self)@.registered(id, peer_id, generation, incoming),
                Err(error) => old(self)@.register_fault(id) == Some(error) && final(self)@
                    == old(self)@,
            },
    {
        assert(self@.active.dom() =~= self.active@.dom());
        if self.active.len() >= MAX_ACTIVE {
            return Err(TransferError::TooManyTransfers);
        }
        if self.active.contains(id) || self.recalls(id) {
            return Err(TransferError::DuplicateTransfer);
        }
        let snapshot = FileTransferSnapshot {
            id,
            peer_id,
            incoming,
            status: FileTransferStatus::Preparing,
            entries: Vec::new(),
            entry_count: 0,
            total_bytes: 0,
            transferred_bytes: 0,
            destination: None,
            error: None,
        };
        assert(snapshot.entries@ =~= Seq::<FileEntry>::empty());
        let job = Job { snapshot, generation };
        let ghost view = job@;
        self.active.insert(id, job);
        proof {
            assert(self@.active =~= old(self)@.active.insert(id.0, view));
            assert(self@.active.dom() =~= old(self)@.active.dom().insert(id.0));
        }
        Ok(())
    }

    fn put(&mut self, id: DeviceId, job: Job)
        requires
            old(self)@.well_formed(),
            old(self)@.active.dom().len() < MAX_ACTIVE || old(self)@.active.contains_key(id.0),
            job@.snapshot.id == id,
        ensures
            final(self)@.well_formed(),
            final(self)@ == (JobsView {
                active: old(self)@.active.insert(id.0, job@),
                ..old(self)@
            }),
    {
        let ghost view = job@;
        self.active.insert(id, job);
        proof {
            assert(self@.active =~= old(self)@.active.insert(id.0, view));
            assert(self@.active.dom() =~= old(self)@.active.dom().insert(id.0));
        }
    }

    fn take(&mut self, id: DeviceId) -> (job: Option<Job>)
        requires
            old(self)@.well_formed(),
        ensures
            final(self)@.well_formed(),
            final(self)@ == (JobsView { active: old(self)@.active.remove(id.0), ..old(self)@ }),
            match job {
                Some(taken) => old(self)@.active.contains_key(id.0) && taken@
                    == old(self)@.active[id.0] && final(self)@.active.dom().len() < MAX_ACTIVE,
                None => !old(self)@.active.contains_key(id.0),
            },
    {
        let job = self.active.remove(id);
        proof {
            assert(self@.active =~= old(self)@.active.remove(id.0));
            assert(self@.active.dom() =~= old(self)@.active.dom().remove(id.0));
        }
        job
    }

    /// Notes the list of a transfer.
    pub fn prepared(
        &mut self,
        id: DeviceId,
        entries: &Vec<FileEntry>,
        total: u64,
        status: FileTransferStatus,
    )
        requires
            old(self)@.well_formed(),
        ensures
            final(self)@.well_formed(),
            final(self)@ == (if old(self)@.active.contains_key(id.0) {
                old(self)@.updated(
                    id,
                    old(self)@.active[id.0].snapshot.with_entries(entries@, total, status),
                )
            } else {
                old(self)@
            }),
    {
        match self.take(id) {
            Some(mut job) => {
                job.snapshot.entries = first_entries(entries, SHOWN_ENTRIES);
                job.snapshot.entry_count = entries.len();
                job.snapshot.total_bytes = total;
                job.snapshot.status = status;
                self.put(id, job);
                assert(self@ =~= old(self)@.updated(
                    id,
                    old(self)@.active[id.0].snapshot.with_entries(entries@, total, status),
                ));
            },
            None => {
                assert(self@ =~= old(self)@);
            },
        }
    }

    /// Notes how far a transfer is.
    pub fn set_status(&mut self, id: DeviceId, status: FileTransferStatus)
        requires
            old(self)@.well_formed(),
        ensures
            final(self)@.well_formed(),
            final(self)@ == (if old(self)@.active.contains_key(id.0) {
                old(self)@.updated(
                    id,
                    SnapshotView { status, ..old(self)@.active[id.0].snapshot },
                )
            } else {
                old(self)@
            }),
    {
        match self.take(id) {
            Some(mut job) => {
                job.snapshot.status = status;
                self.put(id, job);
                assert(self@ =~= old(self)@.updated(
                    id,
                    SnapshotView { status, ..old(self)@.active[id.0].snapshot },
                ));
            },
            None => {
                assert(self@ =~= old(self)@);
            },
        }
    }

    /// Counts bytes that went through.
    pub fn progressed(&mut self, id: DeviceId, count: u64)
        requires
            old(self)@.well_formed(),
            old(self)@.active.contains_key(id.0) ==> old(self)@.active[id.0].snapshot.transferred_bytes + count <= u64::MAX,
        ensures
            final(self)@.well_formed(),
            final(self)@ == (if old(self)@.active.contains_key(id.0) {
                old(self)@.updated(
                    id,
                    SnapshotView {
                        transferred_bytes: (old(self)@.active[id.0].snapshot.transferred_bytes
                            + count) as u64,
                        ..old(self)@.active[id.0].snapshot
                    },
                )
            } else {
                old(self)@
            }),
    {
        match self.take(id) {
            Some(mut job) => {
                assert(job@.snapshot.transferred_bytes + count <= u64::MAX);
                job.snapshot.transferred_bytes = job.snapshot.transferred_bytes + count;
                self.put(id, job);
                assert(self@ =~= old(self)@.updated(
                    id,
                    SnapshotView {
                        transferred_bytes: (old(self)@.active[id.0].snapshot.transferred_bytes
                            + count) as u64,
                        ..old(self)@.active[id.0].snapshot
                    },
                ));
            },
            None => {
                assert(self@ =~= old(self)@);
            },
        }
    }

    /// Notes where a transfer's files are kept.
    pub fn set_destination(&mut self, id: DeviceId, destination: String)
        requires
            old(self)@.well_formed(),
        ensures
            final(self)@.well_formed(),
            final(self)@ == (if old(self)@.active.contains_key(id.0) {
                old(self)@.updated(
                    id,
                    SnapshotView {
                        destination: Some(destination@),
                        ..old(self)@.active[id.0].snapshot
                    },
                )
            } else {
                old(self)@
            }),
    {
        let ghost text = destination@;
        match self.take(id) {
            Some(mut job) => {
                job.snapshot.destination = Some(destination);
                self.put(id, job);
                assert(self@ =~= old(self)@.updated(
                    id,
                    SnapshotView { destination: Some(text), ..old(self)@.active[id.0].snapshot },
                ));
            },
            None => {
                assert(self@ =~= old(self)@);
            },
        }
    }

    fn remember(&mut self, snapshot: FileTransferSnapshot)
        requires
            old(self)@.well_formed(),
        ensures
            final(self)@.well_formed(),
            final(self)@ == old(self)@.with_history(snapshot@),
    {
        let ghost view = snapshot@;
        self.history.push(snapshot);
        let ghost pushed = self.history@.map_values(|s: FileTransferSnapshot| s@);
        assert(pushed =~= old(self)@.history.push(view));
        if self.history.len() > HISTORY {
            self.history.remove(0);
            assert(self@.history =~= pushed.skip(1));
        }
        assert(self@ =~= old(self)@.with_history(view));
    }

    /// A transfer is over. One that is over already stays as it was.
    pub fn finish(&mut self, id: DeviceId, status: FileTransferStatus, error: Option<String>)
        requires
            old(self)@.well_formed(),
        ensures
            final(self)@.well_formed(),
            final(self)@ == old(self)@.after_finish(id, status, optional_text(error)),
    {
        let ghost text = optional_text(error);
        match self.take(id) {
            Some(mut job) => {
                job.snapshot.status = status;
                job.snapshot.error = error;
                self.remember(job.snapshot);
                assert(self@ =~= old(self)@.after_finish(id, status, text));
            },
            None => {
                assert(self@ =~= old(self)@);
            },
        }
    }

    /// Remembers a gesture that has failed before it became a transfer.
    pub fn record_folder_drag_failure(&mut self, id: DeviceId, peer_id: DeviceId, error: String)
        requires
            old(self)@.well_formed(),
        ensures
            final(self)@.well_formed(),
            final(self)@ == old(self)@.with_history(
                SnapshotView {
                    status: FileTransferStatus::Failed,
                    error: Some(error@),
                    ..SnapshotView::fresh(id, peer_id, false)
                },
            ),
    {
        let snapshot = FileTransferSnapshot {
            id,
            peer_id,
            incoming: false,
            status: FileTransferStatus::Failed,
            entries: Vec::new(),
            entry_count: 0,
            total_bytes: 0,
            transferred_bytes: 0,
            destination: None,
            error: Some(error),
        };
        assert(snapshot.entries@ =~= Seq::<FileEntry>::empty());
        self.remember(snapshot);
    }

    /// Asks to stop a transfer.
    pub fn cancel(&self, id: DeviceId) -> (request: Result<CancelRequest, TransferError>)
        ensures
            request == (if self@.active.contains_key(id.0) {
                Ok(CancelRequest::Stop)
            } else if self@.recalls(id) {
                Ok(CancelRequest::Over)
            } else {
                Err(TransferError::UnknownTransfer)
            }),
    {
        if self.active.contains(id) {
            Ok(CancelRequest::Stop)
        } else if self.recalls(id) {
            Ok(CancelRequest::Over)
        } else {
            Err(TransferError::UnknownTransfer)
        }
    }

    /// The transfers that end with a peer's connection, in ascending order.
    pub fn disconnect(&self, peer: DeviceId, generation: ControlConnectionId) -> (ids: Vec<DeviceId>)
        ensures
            strictly_ascending(ids@),
            forall|id: DeviceId| #[trigger]
                ids@.contains(id) <==> self@.runs_over(id.0, peer, generation),
    {
        let all = self.active.ids();
        let mut ids: Vec<DeviceId> = Vec::new();
        let mut i: usize = 0;
        while i < all.len()
            invariant
                i <= all@.len(),
                strictly_ascending(all@),
                strictly_ascending(ids@),
                i < all@.len() ==> (ids@.len() > 0 ==> ids@.last().0 < all@[i as int].0),
                forall|id: DeviceId| #[trigger]
                    all@.contains(id) <==> self.active@.contains_key(id.0),
                forall|id: DeviceId| #[trigger]
                    ids@.contains(id) <==> all@.take(i as int).contains(id) && self@.runs_over(
                        id.0,
                        peer,
                        generation,
                    ),
            decreases all@.len() - i,
        {
            let id = all[i];
            let ghost seen = all@.take(i as int);
            let ghost before = ids@;
            assert(all@.contains(id));
            if let Some(job) = self.active.get(id) {
                assert(self@.active[id.0] == job@);
                if job.snapshot.peer_id == peer && job.generation == generation {
                    ids.push(id);
                }
            }
            proof {
                assert(all@.take(i + 1) =~= seen.push(id));
                assert forall|other: DeviceId| #[trigger] ids@.contains(other) <==> all@.take(
                    i + 1,
                ).contains(other) && self@.runs_over(other.0, peer, generation) by {
                    vstd::seq_lib::lemma_seq_contains_after_push(seen, id, other);
                    vstd::seq_lib::lemma_seq_contains_after_push(before, id, other);
                }
            }
            i += 1;
        }
        proof {
            assert(all@.take(i as int) =~= all@);
            assert forall|id: DeviceId| #[trigger] ids@.contains(id) <==> self@.runs_over(
                id.0,
                peer,
                generation,
            ) by {
                assert(all@.contains(id) <==> self.active@.contains_key(id.0));
            }
        }
        ids
    }

    /// What is shown of all transfers: those that go on by ascending identifier, then those
    /// that are over, the last one first.
    pub fn snapshots(&self) -> (snapshots: Vec<FileTransferSnapshot>)
        requires
            self@.well_formed(),
        ensures
            snapshots@.len() == self@.active.dom().len() + self@.history.len(),
            ({
                let n = self@.active.dom().len() as int;
                let shown = snapshots@.map_values(|s: FileTransferSnapshot| s@);
                &&& strictly_ascending(shown.take(n).map_values(|s: SnapshotView| s.id))
                &&& forall|i: int|
                    0 <= i < n ==> self@.active.contains_key((#[trigger] shown[i]).id.0) && shown[i]
                        == self@.active[shown[i].id.0].snapshot
                &&& forall|i: int|
                    0 <= i < self@.history.len() ==> (#[trigger] shown[n + i])
                        == self@.history[self@.history.len() - 1 - i]
            }),
    {
        assert(self@.active.dom() =~= self.active@.dom());
        let ids = self.active.ids();
        let ghost n = ids@.len() as int;
        let mut snapshots: Vec<FileTransferSnapshot> = Vec::new();
        let mut i: usize = 0;
        while i < ids.len()
            invariant
                i <= ids@.len(),
                snapshots@.len() == i,
                self@.well_formed(),
                forall|id: DeviceId| #[trigger]
                    ids@.contains(id) <==> self.active@.contains_key(id.0),
                forall|k: int|
                    0 <= k < i ==> self@.active.contains_key(ids@[k].0) && (
                    #[trigger] snapshots@[k])@ == self@.active[ids@[k].0].snapshot
                        && snapshots@[k]@.id == ids@[k],
            decreases ids@.len() - i,
        {
            let id = ids[i];
            assert(ids@.contains(id));
            if let Some(job) = self.active.get(id) {
                assert(self@.active.contains_key(id.0));
                assert(self@.active[id.0] == job@);
                snapshots.push(job.snapshot.copy());
            }
            i += 1;
        }
        let mut left: usize = self.history.len();
        while left > 0
            invariant
                left <= self.history@.len(),
                n == ids@.len(),
                snapshots@.len() == n + self.history@.len() - left,
                forall|k: int|
                    0 <= k < n ==> self@.active.contains_key(ids@[k].0) && (
                    #[trigger] snapshots@[k])@ == self@.active[ids@[k].0].snapshot
                        && snapshots@[k]@.id == ids@[k],
                forall|k: int|
                    0 <= k < self.history@.len() - left ==> (#[trigger] snapshots@[n + k])@
                        == self@.history[self.history@.len() - 1 - k],
            decreases left,
        {
            left -= 1;
            let copy = self.history[left].copy();
            assert(self@.history[left as int] == self.history@[left as int]@);
            let ghost at = snapshots@.len() - n;
            snapshots.push(copy);
            assert(snapshots@[n + at]@ == self@.history[self.history@.len() - 1 - at]);
            assert forall|k: int| 0 <= k < self.history@.len() - left implies (
            #[trigger] snapshots@[n + k])@ == self@.history[self.history@.len() - 1 - k] by {
                if k < at {
                }
            }
        }
        proof {
            let shown = snapshots@.map_values(|s: FileTransferSnapshot| s@);
            assert(shown.take(n).map_values(|s: SnapshotView| s.id) =~= ids@);
            assert forall|i: int| 0 <= i < n implies self@.active.contains_key(
                (#[trigger] shown[i]).id.0,
            ) && shown[i] == self@.active[shown[i].id.0].snapshot by {
                assert(snapshots@[i]@ == shown[i]);
            }
            assert forall|i: int| 0 <= i < self@.history.len() implies (#[trigger] shown[n + i])
                == self@.history[self@.history.len() - 1 - i] by {
                assert(snapshots@[n + i]@ == shown[n + i]);
            }
        }
        snapshots
    }

    /// What becomes of a packet that came on a connection of `peer_id`. Only the peer's own
    /// connection counts, and a packet reaches only the transfer that goes over it.
    /// `resolver` says whether files can be dropped into folders here.
    pub fn receive(
        &mut self,
        peer: Option<FilePeer>,
        peer_id: DeviceId,
        generation: ControlConnectionId,
        packet: &FileTransferPacket,
        resolver: bool,
    ) -> (route: PacketRoute)
        requires
            old(self)@.well_formed(),
        ensures
            final(self)@.well_formed(),
            ({
                let known = peer matches Some(p) && p.control_connection_id == generation
                    && p.file_transfer_version == 1;
                let id = packet.transfer_id;
                if !known {
                    route == PacketRoute::Ignore && final(self)@ == old(self)@
                } else {
                    match packet@.body {
                        BodyView::Offer { .. } => match old(self)@.offer_fault(
                            peer->Some_0,
                            packet@,
                            id,
                            resolver,
                        ) {
                            Some(error) => route == PacketRoute::Reject(error) && final(self)@
                                == old(self)@,
                            None => route == PacketRoute::Start && final(self)@ == old(self)@.registered(
                                id,
                                peer_id,
                                generation,
                                true,
                            ),
                        },
                        BodyView::Cancel { .. } => final(self)@ == old(self)@ && route == (if old(self)@.runs_over(id.0, peer_id, generation) {
                            PacketRoute::Stop
                        } else {
                            PacketRoute::Ignore
                        }),
                        _ => final(self)@ == old(self)@ && route == (if old(self)@.runs_over(
                            id.0,
                            peer_id,
                            generation,
                        ) {
                            PacketRoute::Deliver
                        } else {
                            PacketRoute::Ignore
                        }),
                    }
                }
            }),
    {
        let peer = match peer {
            Some(peer) => peer,
            None => {
                return PacketRoute::Ignore;
            },
        };
        if peer.control_connection_id != generation || peer.file_transfer_version != 1 {
            return PacketRoute::Ignore;
        }
        let (entries, to_folder) = match &packet.body {
            FileTransferBody::Offer { entries } => (entries, false),
            FileTransferBody::OfferToFolder { entries, .. } => (entries, true),
            body => {
                let reaches = match self.active.get(packet.transfer_id) {
                    Some(job) => {
                        assert(self@.active[packet.transfer_id.0] == job@);
                        job.snapshot.peer_id == peer_id && job.generation == generation
                    },
                    None => false,
                };
                if !reaches {
                    return PacketRoute::Ignore;
                }
                return match body {
                    FileTransferBody::Cancel { .. } => PacketRoute::Stop,
                    _ => PacketRoute::Deliver,
                };
            },
        };
        if let Err(error) = validate_manifest(entries) {
            return PacketRoute::Reject(error);
        }
        if to_folder && (peer.folder_drop_version != 1 || !resolver) {
            return PacketRoute::Reject(TransferError::FolderUnsupported);
        }
        if packet.sequence != 0 {
            return PacketRoute::Reject(TransferError::InvalidStart);
        }
        match self.register(packet.transfer_id, peer_id, generation, true) {
            Ok(()) => PacketRoute::Start,
            Err(error) => PacketRoute::Reject(error),
        }
    }
}

/// Whether files can be sent to a peer: something has to be sent, and the peer has to be
/// connected and to take it.
pub fn check_send(paths: usize, peer: Option<FilePeer>, to_folder: bool) -> (checked: Result<
    (),
    TransferError,
>)
    ensures
        checked == (if paths == 0 || paths > MAX_FILE_ENTRIES {
            Err(TransferError::EntryCount)
        } else if peer is None {
            Err(TransferError::NotConnected)
        } else if peer->Some_0.file_transfer_version != 1 {
            Err(TransferError::Unsupported)
        } else if to_folder && peer->Some_0.folder_drop_version != 1 {
            Err(TransferError::FolderUnsupportedByPeer)
        } else {
            Ok(())
        }),
{
    if paths == 0 || paths > MAX_FILE_ENTRIES {
        return Err(TransferError::EntryCount);
    }
    match peer {
        None => Err(TransferError::NotConnected),
        Some(peer) => {
            if peer.file_transfer_version != 1 {
                Err(TransferError::Unsupported)
            } else if to_folder && peer.folder_drop_version != 1 {
                Err(TransferError::FolderUnsupportedByPeer)
            } else {
                Ok(())
            }
        },
    }
}

/// Whether a packet may still be sent: the peer has to be reached through the connection
/// that the transfer goes over.
pub fn check_connection(
    current: Option<ControlConnectionId>,
    generation: ControlConnectionId,
) -> (checked: Result<(), TransferError>)
    ensures
        checked == (match current {
            None => Err(TransferError::ConnectionLost),
            Some(id) => if id == generation {
                Ok(())
            } else {
                Err(TransferError::ConnectionReplaced)
            },
        }),
{
    match current {
        None => Err(TransferError::ConnectionLost),
        Some(id) => {
            if id == generation {
                Ok(())
            } else {
                Err(TransferError::ConnectionReplaced)
            }
        },
    }
}

/// The longest reason of a peer that is shown, in characters.
pub const SHOWN_REASON: usize = 240;

/// How a peer's reason to stop a transfer is shown.
pub fn peer_cancel_reason(reason: &str) -> (text: String)
    ensures
        text@ == "远端取消："@ + reason@.take(
            if reason@.len() <= SHOWN_REASON {
                reason@.len() as int
            } else {
                SHOWN_REASON as int
            },
        ),
{
    let len = reason.unicode_len();
    let shown = if len <= SHOWN_REASON {
        len
    } else {
        SHOWN_REASON
    };
    let mut text = "远端取消：".to_owned();
    text.append(reason.substring_char(0, shown));
    assert(reason@.subrange(0, shown as int) =~= reason@.take(shown as int));
    text
}

/// How a transfer has ended.
pub fn final_status(succeeded: bool, cancelled: bool) -> (status: FileTransferStatus)
    ensures
        status == (if succeeded {
            FileTransferStatus::Completed
        } else if cancelled {
            FileTransferStatus::Cancelled
        } else {
            FileTransferStatus::Failed
        }),
{
    if succeeded {
        FileTransferStatus::Completed
    } else if cancelled {
        FileTransferStatus::Cancelled
    } else {
        FileTransferStatus::Failed
    }
}

/// How a transfer has ended is decided once: ending it again changes nothing.
pub proof fn transfers_end_once(
    jobs: JobsView,
    id: DeviceId,
    status: FileTransferStatus,
    error: Option<Seq<char>>,
    again: FileTransferStatus,
    later: Option<Seq<char>>,
)
    ensures
        jobs.after_finish(id, status, error).after_finish(id, again, later) == jobs.after_finish(
            id,
            status,
            error,
        ),
{
}

/// A transfer that has ended is remembered last, and is not taken on again.
pub proof fn ended_transfers_are_remembered(
    jobs: JobsView,
    id: DeviceId,
    status: FileTransferStatus,
    error: Option<Seq<char>>,
)
    requires
        jobs.well_formed(),
        jobs.active.contains_key(id.0),
    ensures
        ({
            let after = jobs.after_finish(id, status, error);
            &&& !after.active.contains_key(id.0)
            &&& after.history.len() > 0
            &&& after.history.last() == (SnapshotView {
                status,
                error,
                ..jobs.active[id.0].snapshot
            })
            &&& after.recalls(id)
            &&& after.register_fault(id) is Some
        }),
{
    let after = jobs.after_finish(id, status, error);
    assert(after.history[after.history.len() - 1].id == id);
}

/// A transfer is taken on while fewer than four go on, unless one of the same identifier goes on
/// or is remembered.
pub proof fn transfers_are_taken_on_while_there_is_room(jobs: JobsView, id: DeviceId)
    ensures
        jobs.active.dom().len() >= 4 <==> jobs.register_fault(id) == Some(
            TransferError::TooManyTransfers,
        ),
        jobs.active.dom().len() < 4 && (jobs.active.contains_key(id.0) || exists|i: int|
            0 <= i < jobs.history.len() && (#[trigger] jobs.history[i]).id == id)
            <==> jobs.register_fault(id) == Some(TransferError::DuplicateTransfer),
        jobs.active.dom().len() < 4 && !jobs.active.contains_key(id.0) && (forall|i: int|
            0 <= i < jobs.history.len() ==> (#[trigger] jobs.history[i]).id != id)
            <==> jobs.register_fault(id) is None,
{
}

/// A transfer that was taken on stands under its own identifier, with its peer and its
/// connection, and nothing was transferred yet. Everything else is as it was.
pub proof fn new_transfers_have_done_nothing(
    jobs: JobsView,
    id: DeviceId,
    peer_id: DeviceId,
    generation: ControlConnectionId,
    incoming: bool,
    other: u128,
)
    ensures
        ({
            let after = jobs.registered(id, peer_id, generation, incoming);
            let job = after.active[id.0];
            &&& after.active.contains_key(id.0)
            &&& job.generation == generation
            &&& job.snapshot.id == id && job.snapshot.peer_id == peer_id
            &&& job.snapshot.incoming == incoming
            &&& job.snapshot.status is Preparing
            &&& job.snapshot.entries.len() == 0 && job.snapshot.entry_count == 0
            &&& job.snapshot.total_bytes == 0 && job.snapshot.transferred_bytes == 0
            &&& job.snapshot.destination is None && job.snapshot.error is None
            &&& after.history == jobs.history
            &&& after.runs_over(id.0, peer_id, generation)
            &&& other != id.0 ==> after.active.contains_key(other) == jobs.active.contains_key(
                other,
            ) && after.active[other] == jobs.active[other]
        }),
{
}

/// What changes of a transfer that goes on changes nothing else: not the connection that it goes
/// over, no other transfer, and nothing that is over.
pub proof fn changes_touch_one_transfer(
    jobs: JobsView,
    id: DeviceId,
    snapshot: SnapshotView,
    other: u128,
)
    ensures
        ({
            let after = jobs.updated(id, snapshot);
            &&& after.active[id.0].snapshot == snapshot
            &&& after.active[id.0].generation == jobs.active[id.0].generation
            &&& after.history == jobs.history
            &&& other != id.0 ==> after.active.contains_key(other) == jobs.active.contains_key(
                other,
            ) && after.active[other] == jobs.active[other]
        }),
{
}

/// Of a list no more than its first eight entries are shown, in their order, with how many there
/// are in all. Whose transfer it is, and what went through, stays as it was.
pub proof fn the_first_entries_are_shown(
    snapshot: SnapshotView,
    entries: Seq<FileEntry>,
    total: u64,
    status: FileTransferStatus,
    i: int,
)
    requires
        entries.len() <= usize::MAX,
        0 <= i < entries.len(),
    ensures
        ({
            let shown = snapshot.with_entries(entries, total, status);
            &&& i < 8 ==> i < shown.entries.len() && shown.entries[i] == entries[i]
            &&& shown.entries.len() <= 8
            &&& shown.entries.len() <= entries.len()
            &&& shown.entry_count == entries.len()
            &&& shown.total_bytes == total
            &&& shown.status == status
            &&& shown.id == snapshot.id && shown.peer_id == snapshot.peer_id
            &&& shown.incoming == snapshot.incoming
            &&& shown.transferred_bytes == snapshot.transferred_bytes
            &&& shown.destination == snapshot.destination && shown.error == snapshot.error
        }),
{
}

/// A transfer that ends is shown as it was, with how and why it has ended. Nothing that goes on
/// is touched but the transfer itself.
pub proof fn ended_transfers_are_shown_as_they_were(
    jobs: JobsView,
    id: DeviceId,
    status: FileTransferStatus,
    error: Option<Seq<char>>,
    other: u128,
)
    requires
        jobs.active.contains_key(id.0),
    ensures
        ({
            let before = jobs.active[id.0].snapshot;
            let after = jobs.after_finish(id, status, error);
            let ended = after.history.last();
            &&& !after.active.contains_key(id.0)
            &&& after.history.len() > 0
            &&& ended.status == status && ended.error == error
            &&& ended.id == before.id && ended.peer_id == before.peer_id
            &&& ended.incoming == before.incoming
            &&& ended.entries == before.entries && ended.entry_count == before.entry_count
            &&& ended.total_bytes == before.total_bytes
            &&& ended.transferred_bytes == before.transferred_bytes
            &&& ended.destination == before.destination
            &&& other != id.0 ==> after.active.contains_key(other) == jobs.active.contains_key(
                other,
            ) && after.active[other] == jobs.active[other]
        }),
{
}

/// What is over is remembered in the order in which it ended. The last 64 are, and the oldest is
/// forgotten first.
pub proof fn the_oldest_transfer_is_forgotten_first(jobs: JobsView, snapshot: SnapshotView, i: int)
    requires
        jobs.history.len() <= 64,
        0 <= i < jobs.history.len(),
    ensures
        ({
            let after = jobs.with_history(snapshot);
            &&& after.active == jobs.active
            &&& after.history.last() == snapshot
            &&& jobs.history.len() < 64 ==> after.history.len() == jobs.history.len() + 1
                && after.history[i] == jobs.history[i]
            &&& jobs.history.len() == 64 ==> after.history.len() == 64 && (i > 0
                ==> after.history[i - 1] == jobs.history[i])
        }),
{
}

/// A packet belongs to a transfer of its sender that goes over the connection it came on.
pub proof fn transfers_belong_to_one_connection(
    jobs: JobsView,
    id: u128,
    peer: DeviceId,
    generation: ControlConnectionId,
)
    requires
        jobs.active.contains_key(id),
    ensures
        jobs.runs_over(id, jobs.active[id].snapshot.peer_id, jobs.active[id].generation),
        jobs.runs_over(id, peer, generation) ==> peer == jobs.active[id].snapshot.peer_id
            && generation == jobs.active[id].generation,
        !jobs.after_finish(
            DeviceId(id),
            FileTransferStatus::Cancelled,
            None,
        ).runs_over(id, peer, generation),
{
}

/// An offer is taken exactly if its list has no fault, it comes first, it is meant for a folder
/// only where both sides can do that, and a transfer can be taken on. A faulty list is named
/// before anything else.
pub proof fn offers_have_to_fit_in_everything(
    jobs: JobsView,
    peer: FilePeer,
    packet: PacketView,
    id: DeviceId,
    resolver: bool,
)
    requires
        packet.body is Offer,
    ensures
        jobs.offer_fault(peer, packet, id, resolver) is None <==> manifest_fault(
            packet.body->entries,
        ) is None && packet.sequence == 0 && (packet.body->drop is Some
            ==> peer.folder_drop_version == 1 && resolver) && jobs.register_fault(id) is None,
        manifest_fault(packet.body->entries) matches Some(fault) ==> jobs.offer_fault(
            peer,
            packet,
            id,
            resolver,
        ) == Some(fault),
        manifest_fault(packet.body->entries) is None && packet.body->drop is Some && (!resolver
            || peer.folder_drop_version != 1) ==> jobs.offer_fault(peer, packet, id, resolver)
            == Some(TransferError::FolderUnsupported),
        manifest_fault(packet.body->entries) is None && packet.body->drop is None && packet.sequence
            != 0 ==> jobs.offer_fault(peer, packet, id, resolver) == Some(
            TransferError::InvalidStart,
        ),
{
}

} // verus!
