//! The picker's own state: the sliding window of piece records and the count
//! of pieces written out.

use super::{PieceInfo, PieceRecord, PieceStatus};
use crate::peers::PieceIndex;
use vstd::prelude::*;

verus! {

/// The most piece records that are visible to sessions at a time.
pub const MAX_QUEUED: usize = 100;

/// The capacity of the channel on which completed pieces travel to the sink.
pub const PIECE_BUFFER_SIZE: usize = 10;

/// What the picker's task wakes up to.
#[derive(Debug, Clone, Copy, PartialEq, Eq, Structural)]
pub enum PickerEvent {
    /// The completion sink acknowledged the bytes of this piece.
    PieceWritten(PieceIndex),
    /// The shutdown signal was raised.
    Shutdown,
}

/// What the picker's task does after an event.
#[derive(Debug, Clone, Copy, PartialEq, Eq, Structural)]
pub enum PickerStatus {
    /// Pieces are still wanted: wait for the next event.
    Running,
    /// Every piece has been written out: return, and let the sessions see it.
    Finished,
    /// Shutdown was signalled: return.
    Stopped,
}

/// The picker's state as contracts speak of it.
pub struct PickerView {
    /// Every piece of the torrent, by piece id.
    pub infos: Seq<PieceInfo>,
    /// The records visible to sessions, by ascending piece id.
    pub queue: Seq<PieceRecord>,
    /// The visible window is `start..end`.
    pub start: nat,
    pub end: nat,
    /// The number of pieces that the sink has acknowledged.
    pub n_received: nat,
    /// Whether shutdown was signalled.
    pub shutdown: bool,
}

/// The records of pieces `from..to`, all pending.
pub open spec fn fresh_records(infos: Seq<PieceInfo>, from: int, to: int) -> Seq<PieceRecord> {
    Seq::new(
        (to - from) as nat,
        |k: int| PieceRecord { info: infos[from + k], status: PieceStatus::Pending },
    )
}

/// Where the window ends after it has moved on from `end`.
pub open spec fn next_end(n_pieces: nat, end: nat) -> nat {
    if n_pieces < end + MAX_QUEUED {
        n_pieces
    } else {
        end + MAX_QUEUED as nat
    }
}

impl PickerView {
    /// The number of pieces in the torrent.
    pub open spec fn n_pieces(self) -> nat {
        self.infos.len()
    }

    /// The picker's invariant. Piece ids are positions. The window lies
    /// within the torrent and is at most `MAX_QUEUED` wide. The queue holds
    /// records of the window only, in ascending order, so no piece twice.
    /// Every piece below the window's end is either queued or written out.
    /// The window is empty only when no piece is left to show.
    pub open spec fn wf(self) -> bool {
        &&& self.infos.len() <= u32::MAX
        &&& forall|i: int| 0 <= i < self.infos.len() ==> (#[trigger] self.infos[i]).piece_id == i
        &&& self.start <= self.end <= self.infos.len()
        &&& self.end - self.start <= MAX_QUEUED
        &&& forall|k: int|
            0 <= k < self.queue.len() ==> self.start <= (#[trigger] self.queue[k]).info.piece_id
                < self.end && self.queue[k].info == self.infos[self.queue[k].info.piece_id as int]
        &&& forall|j: int, k: int|
            0 <= j < k < self.queue.len() ==> (#[trigger] self.queue[j]).info.piece_id < (
            #[trigger] self.queue[k]).info.piece_id
        &&& self.n_received + self.queue.len() == self.end
        &&& self.queue.len() == 0 ==> self.end == self.infos.len()
    }

    /// Whether piece `piece_id` has a record in the queue.
    pub open spec fn is_queued(self, piece_id: int) -> bool {
        exists|k: int|
            0 <= k < self.queue.len() && (#[trigger] self.queue[k]).info.piece_id == piece_id
    }

    /// The place of piece `piece_id` in the queue.
    pub open spec fn position(self, piece_id: int) -> int {
        choose|k: int|
            0 <= k < self.queue.len() && (#[trigger] self.queue[k]).info.piece_id == piece_id
    }

    /// Whether piece `piece_id` has been written out: it lies below the end
    /// of the window and has no record any more.
    pub open spec fn is_written(self, piece_id: int) -> bool {
        0 <= piece_id < self.end && !self.is_queued(piece_id)
    }

    /// Whether a session holds piece `piece_id`, downloading or handed in.
    pub open spec fn is_leased(self, piece_id: int) -> bool {
        self.is_queued(piece_id) && self.queue[self.position(piece_id)].status
            != PieceStatus::Pending
    }

    /// Whether every piece has been written out.
    pub open spec fn is_finished(self) -> bool {
        self.n_received == self.infos.len()
    }

    /// Whether sessions have nothing more to ask of the picker.
    pub open spec fn is_closed(self) -> bool {
        self.shutdown || self.is_finished()
    }

    /// The picker of a torrent nothing of which has been downloaded.
    pub open spec fn initial(infos: Seq<PieceInfo>) -> PickerView {
        let end = next_end(infos.len(), 0);
        PickerView {
            infos,
            queue: fresh_records(infos, 0, end as int),
            start: 0,
            end,
            n_received: 0,
            shutdown: false,
        }
    }

    /// The state with the record at `at` given status `status`.
    pub open spec fn with_status(self, at: int, status: PieceStatus) -> PickerView {
        PickerView {
            queue: self.queue.update(at, PieceRecord { info: self.queue[at].info, status }),
            ..self
        }
    }

    /// The state after the record at `at` was removed because its piece was
    /// written out. When that empties the window and pieces are left beyond
    /// it, it moves on to the next `MAX_QUEUED` pieces.
    pub open spec fn without(self, at: int) -> PickerView {
        let queue = self.queue.remove(at);
        if queue.len() == 0 && self.end < self.infos.len() {
            let end = next_end(self.infos.len(), self.end);
            PickerView {
                queue: fresh_records(self.infos, self.end as int, end as int),
                start: self.end,
                end,
                n_received: self.n_received + 1,
                ..self
            }
        } else {
            PickerView { queue, n_received: self.n_received + 1, ..self }
        }
    }

    /// The state after the picker's task handled `event`. An acknowledgement
    /// removes the record of a piece that was handed in and counts it; one
    /// for any other piece changes nothing. Shutdown is remembered.
    pub open spec fn after_event(self, event: PickerEvent) -> PickerView {
        match event {
            PickerEvent::Shutdown => PickerView { shutdown: true, ..self },
            PickerEvent::PieceWritten(piece_id) => {
                if self.is_queued(piece_id as int) && self.queue[self.position(
                    piece_id as int,
                )].status is Submitted {
                    self.without(self.position(piece_id as int))
                } else {
                    self
                }
            },
        }
    }

    /// What the picker's task does in this state.
    pub open spec fn status(self) -> PickerStatus {
        if self.shutdown {
            PickerStatus::Stopped
        } else if self.is_finished() {
            PickerStatus::Finished
        } else {
            PickerStatus::Running
        }
    }
}

/// Whether `infos` can be handed to a picker: piece ids are positions, and
/// there are no more pieces than a piece index can count.
pub open spec fn valid_piece_list(infos: Seq<PieceInfo>) -> bool {
    &&& infos.len() <= u32::MAX
    &&& forall|i: int| 0 <= i < infos.len() ==> (#[trigger] infos[i]).piece_id == i
}

/// Owns the records of the pieces still to download.
#[derive(Debug)]
pub struct PiecePicker {
    pub(super) piece_queue: Vec<PieceRecord>,
    pub(super) piece_infos: Vec<PieceInfo>,
    pub(super) start: usize,
    pub(super) end: usize,
    pub(super) n_received: u32,
    pub(super) shutdown: bool,
}

impl View for PiecePicker {
    type V = PickerView;

    open(super) spec fn view(&self) -> PickerView {
        PickerView {
            infos: self.piece_infos@,
            queue: self.piece_queue@,
            start: self.start as nat,
            end: self.end as nat,
            n_received: self.n_received as nat,
            shutdown: self.shutdown,
        }
    }
}

impl PiecePicker {
    /// Whether the list of pieces is one that `new` accepts.
    pub fn accepts(piece_infos: &Vec<PieceInfo>) -> (valid: bool)
        ensures
            valid == valid_piece_list(piece_infos@),
    {
        if piece_infos.len() > 0xffff_ffff {
            return false;
        }
        let mut i: usize = 0;
        while i < piece_infos.len()
            invariant
                i <= piece_infos.len() <= u32::MAX,
                forall|j: int| 0 <= j < i ==> (#[trigger] piece_infos@[j]).piece_id == j,
            decreases piece_infos.len() - i,
        {
            if piece_infos[i].piece_id as usize != i {
                return false;
            }
            i += 1;
        }
        true
    }

    /// The picker of a torrent with these pieces; the first `MAX_QUEUED` of
    /// them are visible.
    pub fn new(piece_infos: Vec<PieceInfo>) -> (picker: Self)
        requires
            valid_piece_list(piece_infos@),
        ensures
            picker@ == PickerView::initial(piece_infos@),
            picker@.wf(),
    {
        let mut picker = Self {
            piece_queue: Vec::new(),
            piece_infos,
            start: 0,
            end: 0,
            n_received: 0,
            shutdown: false,
        };
        picker.refill();
        picker
    }

    /// Moves the window on to the next `MAX_QUEUED` pieces.
    fn refill(&mut self)
        requires
            old(self).piece_queue@.len() == 0,
            old(self).end <= old(self).piece_infos@.len(),
        ensures
            final(self).piece_infos == old(self).piece_infos,
            final(self).n_received == old(self).n_received,
            final(self).shutdown == old(self).shutdown,
            final(self).start == old(self).end,
            final(self).end == next_end(old(self).piece_infos@.len(), old(self).end as nat),
            final(self).piece_queue@ == fresh_records(
                old(self).piece_infos@,
                old(self).end as int,
                final(self).end as int,
            ),
    {
        let n = self.piece_infos.len();
        let next_end = if n - self.end < MAX_QUEUED {
            n
        } else {
            self.end + MAX_QUEUED
        };
        let mut piece_id = self.end;
        while piece_id < next_end
            invariant
                self.end <= piece_id <= next_end <= n,
                n == self.piece_infos@.len(),
                self.piece_infos == old(self).piece_infos,
                self.n_received == old(self).n_received,
                self.shutdown == old(self).shutdown,
                self.end == old(self).end,
                self.piece_queue@ == fresh_records(
                    self.piece_infos@,
                    self.end as int,
                    piece_id as int,
                ),
            decreases next_end - piece_id,
        {
            self.piece_queue.push(
                PieceRecord { info: self.piece_infos[piece_id], status: PieceStatus::Pending },
            );
            piece_id += 1;
            assert(self.piece_queue@ =~= fresh_records(
                self.piece_infos@,
                self.end as int,
                piece_id as int,
            ));
        }
        self.start = self.end;
        self.end = next_end;
    }

    /// The place in the queue of the record of piece `piece_id`, if it has one.
    pub(super) fn find(&self, piece_id: PieceIndex) -> (at: Option<usize>)
        requires
            self@.wf(),
        ensures
            match at {
                Some(at) => self@.is_queued(piece_id as int) && at == self@.position(
                    piece_id as int,
                ) && at < self@.queue.len() && self@.queue[at as int].info.piece_id == piece_id,
                None => !self@.is_queued(piece_id as int),
            },
    {
        let mut at: usize = 0;
        while at < self.piece_queue.len() && self.piece_queue[at].info.piece_id != piece_id
            invariant
                at <= self.piece_queue@.len(),
                forall|k: int|
                    0 <= k < at ==> (#[trigger] self.piece_queue@[k]).info.piece_id != piece_id,
            decreases self.piece_queue@.len() - at,
        {
            at += 1;
        }
        if at < self.piece_queue.len() {
            proof {
                self@.lemma_position(at as int);
            }
            Some(at)
        } else {
            None
        }
    }

    /// One step of the picker's task: see `PickerView::after_event`.
    pub fn run(&mut self, event: PickerEvent) -> (status: PickerStatus)
        requires
            old(self)@.wf(),
        ensures
            final(self)@.wf(),
            final(self)@ == old(self)@.after_event(event),
            status == final(self)@.status(),
    {
        match event {
            PickerEvent::Shutdown => {
                self.shutdown = true;
            },
            PickerEvent::PieceWritten(piece_id) => {
                match self.find(piece_id) {
                    None => {},
                    Some(at) => {
                        match self.piece_queue[at].status {
                            PieceStatus::Submitted(_) => {
                                proof {
                                    self@.lemma_without_wf(at as int);
                                }
                                self.piece_queue.remove(at);
                                self.n_received = self.n_received + 1;
                                if self.piece_queue.len() == 0 && self.end
                                    < self.piece_infos.len() {
                                    self.refill();
                                }
                            },
                            _ => {},
                        }
                    },
                }
            },
        }
        self.status()
    }

    /// What the picker's task does in this state.
    pub fn status(&self) -> (status: PickerStatus)
        requires
            self@.wf(),
        ensures
            status == self@.status(),
    {
        if self.shutdown {
            PickerStatus::Stopped
        } else if self.n_received as usize == self.piece_infos.len() {
            PickerStatus::Finished
        } else {
            PickerStatus::Running
        }
    }

    /// The status of piece `piece_id`, where it has a record in the queue.
    pub fn status_of(&self, piece_id: PieceIndex) -> (status: Option<PieceStatus>)
        requires
            self@.wf(),
        ensures
            status == (if self@.is_queued(piece_id as int) {
                Some(self@.queue[self@.position(piece_id as int)].status)
            } else {
                None
            }),
    {
        match self.find(piece_id) {
            Some(at) => Some(self.piece_queue[at].status),
            None => None,
        }
    }

    /// The visible window: the ids of its first piece and of the one past its last.
    pub fn window(&self) -> (window: (usize, usize))
        ensures
            window.0 == self@.start,
            window.1 == self@.end,
    {
        (self.start, self.end)
    }

    /// The number of pieces that the sink has acknowledged.
    pub fn n_received(&self) -> (n: u32)
        ensures
            n == self@.n_received,
    {
        self.n_received
    }

    /// The number of pieces in the torrent.
    pub fn n_pieces(&self) -> (n: usize)
        ensures
            n == self@.n_pieces(),
    {
        self.piece_infos.len()
    }
}

impl PickerView {
    /// In a well-formed queue a piece has one place only.
    pub proof fn lemma_position(self, at: int)
        requires
            self.wf(),
            0 <= at < self.queue.len(),
        ensures
            self.is_queued(self.queue[at].info.piece_id as int),
            self.position(self.queue[at].info.piece_id as int) == at,
    {
        let piece_id = self.queue[at].info.piece_id as int;
        let chosen = self.position(piece_id);
        if chosen < at {
            assert(self.queue[chosen].info.piece_id < self.queue[at].info.piece_id);
        } else if chosen > at {
            assert(self.queue[at].info.piece_id < self.queue[chosen].info.piece_id);
        }
    }

    /// A change of status keeps the invariant, the places and what is written out.
    pub proof fn lemma_with_status_wf(self, at: int, status: PieceStatus)
        requires
            self.wf(),
            0 <= at < self.queue.len(),
        ensures
            self.with_status(at, status).wf(),
            forall|piece_id: int|
                self.with_status(at, status).is_queued(piece_id) == self.is_queued(piece_id),
            forall|piece_id: int|
                self.is_queued(piece_id) ==> self.with_status(at, status).position(piece_id)
                    == self.position(piece_id),
    {
        let after = self.with_status(at, status);
        assert forall|k: int| 0 <= k < after.queue.len() implies (
        #[trigger] after.queue[k]).info == self.queue[k].info by {}
        assert forall|piece_id: int| after.is_queued(piece_id) == self.is_queued(piece_id) by {
            if self.is_queued(piece_id) {
                let k = self.position(piece_id);
                assert(after.queue[k].info.piece_id == piece_id);
            }
            if after.is_queued(piece_id) {
                let k = after.position(piece_id);
                assert(self.queue[k].info.piece_id == piece_id);
            }
        }
        assert forall|piece_id: int| self.is_queued(piece_id) implies after.position(piece_id)
            == self.position(piece_id) by {
            let k = self.position(piece_id);
            assert(after.queue[k].info.piece_id == piece_id);
            after.lemma_position(k);
        }
    }

    /// Removing the record of a written piece keeps the invariant; the piece
    /// is then written out, and nothing else changes hands.
    pub proof fn lemma_without_wf(self, at: int)
        requires
            self.wf(),
            0 <= at < self.queue.len(),
        ensures
            self.without(at).wf(),
            self.without(at).is_written(self.queue[at].info.piece_id as int),
            self.without(at).n_received == self.n_received + 1,
            forall|piece_id: int| self.is_written(piece_id) ==> self.without(at).is_written(piece_id),
    {
        let after = self.without(at);
        let removed = self.queue.remove(at);
        let gone = self.queue[at].info.piece_id as int;
        self.lemma_position(at);
        assert forall|k: int| 0 <= k < removed.len() implies #[trigger] removed[k]
            == self.queue[if k < at { k } else { k + 1 }] by {}
        if removed.len() == 0 && self.end < self.infos.len() {
            assert forall|piece_id: int| !after.is_queued(piece_id) || piece_id >= self.end by {
                if after.is_queued(piece_id) {
                    let k = after.position(piece_id);
                    assert(after.queue[k].info == self.infos[self.end + k]);
                }
            }
            assert forall|piece_id: int| self.is_written(piece_id) implies after.is_written(
                piece_id,
            ) by {}
        } else {
            assert forall|j: int, k: int| 0 <= j < k < after.queue.len() implies (
            #[trigger] after.queue[j]).info.piece_id < (
            #[trigger] after.queue[k]).info.piece_id by {
                let jj = if j < at { j } else { j + 1 };
                let kk = if k < at { k } else { k + 1 };
                assert(after.queue[j] == self.queue[jj]);
                assert(after.queue[k] == self.queue[kk]);
            }
            assert forall|piece_id: int| after.is_queued(piece_id) implies self.is_queued(
                piece_id,
            ) && piece_id != gone by {
                let k = after.position(piece_id);
                let kk = if k < at { k } else { k + 1 };
                assert(after.queue[k] == self.queue[kk]);
                self.lemma_position(kk);
            }
        }
    }

    /// Every event keeps the invariant; nothing that was written out is ever
    /// wanted again; and the window only moves forward.
    pub proof fn lemma_after_event_wf(self, event: PickerEvent)
        requires
            self.wf(),
        ensures
            self.after_event(event).wf(),
            forall|piece_id: int|
                self.is_written(piece_id) ==> self.after_event(event).is_written(piece_id),
            self.after_event(event).n_received >= self.n_received,
            self.after_event(event).start >= self.start,
            self.after_event(event).end >= self.end,
    {
        match event {
            PickerEvent::Shutdown => {
                let after = self.after_event(event);
                assert forall|piece_id: int| after.is_queued(piece_id) == self.is_queued(
                    piece_id,
                ) by {
                    if self.is_queued(piece_id) {
                        assert(after.queue[self.position(piece_id)].info.piece_id == piece_id);
                    }
                    if after.is_queued(piece_id) {
                        assert(self.queue[after.position(piece_id)].info.piece_id == piece_id);
                    }
                }
            },
            PickerEvent::PieceWritten(piece_id) => {
                if self.is_queued(piece_id as int) {
                    self.lemma_without_wf(self.position(piece_id as int));
                }
            },
        }
    }

    /// A record leaves the queue only on the acknowledgement of its piece,
    /// and only after the piece was handed in.
    pub proof fn lemma_only_acknowledged_pieces_leave(self, event: PickerEvent, piece_id: int)
        requires
            self.wf(),
            self.is_queued(piece_id),
            !self.after_event(event).is_queued(piece_id),
        ensures
            event == PickerEvent::PieceWritten(piece_id as u32),
            self.queue[self.position(piece_id)].status is Submitted,
    {
        let after = self.after_event(event);
        let at = self.position(piece_id);
        match event {
            PickerEvent::Shutdown => {
                assert(after.queue[at].info.piece_id == piece_id);
            },
            PickerEvent::PieceWritten(written) => {
                if self.is_queued(written as int) && self.queue[self.position(
                    written as int,
                )].status is Submitted {
                    let gone = self.position(written as int);
                    self.lemma_position(at);
                    self.lemma_position(gone);
                    if gone != at {
                        let removed = self.queue.remove(gone);
                        let moved = if at < gone {
                            at
                        } else {
                            at - 1
                        };
                        assert(removed[moved] == self.queue[at]);
                        assert(after.queue == removed);
                        assert(after.queue[moved].info.piece_id == piece_id);
                    }
                } else {
                    assert(after.queue[at].info.piece_id == piece_id);
                }
            },
        }
    }

    /// When the picker has finished, every piece of the torrent has been
    /// written out, and no record is left.
    pub proof fn lemma_finished_means_all_written(self)
        requires
            self.wf(),
            self.is_finished(),
        ensures
            self.queue.len() == 0,
            self.end == self.n_pieces(),
            forall|piece_id: int| 0 <= piece_id < self.n_pieces() ==> self.is_written(piece_id),
    {
    }
}

} // verus!
