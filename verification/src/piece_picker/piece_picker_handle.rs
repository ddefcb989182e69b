//! What a session holds of the picker: its registration, and the lease on the
//! piece it is downloading.

use super::piece_picker::{PickerView, PiecePicker};
use super::{PieceDone, PieceInfo, PieceRecord, PieceStatus};
use crate::error::SessionError;
use crate::metainfo::{hash_matches, sha1_digest, PieceHash};
use crate::peers::PieceIndex;
use crate::torrent::bitfield::bit_or_zero;
use crate::torrent::Bitfield;
use vstd::prelude::*;

verus! {

/// The milliseconds a session waits before it asks again for a piece.
pub const IDLE_CHECK_WAIT_MILLIS: u64 = 200;

/// A session's registration with the picker.
#[derive(Debug, Clone, Copy, PartialEq, Eq)]
pub struct PiecePickerHandle {
    /// The id under which the session takes leases.
    pub session: u64,
}

/// The lease on one piece: while a session holds it, no other session is
/// given the piece.
#[derive(Debug, PartialEq, Eq)]
pub struct PieceHandle {
    pub piece_id: PieceIndex,
    pub piece_length: u32,
    pub piece_hash: PieceHash,
    /// The id of the session that holds the lease.
    pub session: u64,
}

/// What the picker answers a session that asks for a piece.
#[derive(Debug, PartialEq, Eq)]
pub enum NextPiece {
    /// The lease on a piece.
    Assigned(PieceHandle),
    /// No piece is free for this peer now: ask again after the idle wait.
    Wait,
    /// Every piece is done, or shutdown was signalled.
    Closed,
}

impl PickerView {
    /// Whether the record at `at` can be leased to a peer with these pieces:
    /// nobody holds it and the peer has the piece.
    pub open spec fn is_candidate(self, bits: Seq<bool>, at: int) -> bool {
        &&& 0 <= at < self.queue.len()
        &&& self.queue[at].status == PieceStatus::Pending
        &&& bit_or_zero(bits, self.queue[at].info.piece_id as int)
    }

    /// The place of the first candidate at or after `from`.
    pub open spec fn first_candidate_from(self, bits: Seq<bool>, from: int) -> Option<int>
        decreases self.queue.len() - from,
    {
        if from < 0 || from >= self.queue.len() {
            None
        } else if self.is_candidate(bits, from) {
            Some(from)
        } else {
            self.first_candidate_from(bits, from + 1)
        }
    }

    /// The place of the lowest-indexed piece that can be leased to a peer
    /// with these pieces.
    pub open spec fn first_candidate(self, bits: Seq<bool>) -> Option<int> {
        self.first_candidate_from(bits, 0)
    }

    /// Whether session `session` holds the lease on piece `piece_id`.
    pub open spec fn holds(self, session: u64, piece_id: int) -> bool {
        self.is_queued(piece_id) && self.queue[self.position(piece_id)].status
            == PieceStatus::InFlight(session)
    }

    /// What the first candidate is: a candidate with none before it.
    pub proof fn lemma_first_candidate(self, bits: Seq<bool>, from: int)
        requires
            0 <= from,
        ensures
            match self.first_candidate_from(bits, from) {
                Some(at) => from <= at && self.is_candidate(bits, at) && forall|k: int|
                    from <= k < at ==> !self.is_candidate(bits, k),
                None => forall|k: int| from <= k ==> !self.is_candidate(bits, k),
            },
        decreases self.queue.len() - from,
    {
        if from < self.queue.len() && !self.is_candidate(bits, from) {
            self.lemma_first_candidate(bits, from + 1);
        }
    }

    /// With no candidate in `from..upto`, the search from `from` goes on at `upto`.
    pub proof fn lemma_first_candidate_skips(self, bits: Seq<bool>, from: int, upto: int)
        requires
            0 <= from <= upto <= self.queue.len(),
            forall|k: int| from <= k < upto ==> !self.is_candidate(bits, k),
        ensures
            self.first_candidate_from(bits, from) == self.first_candidate_from(bits, upto),
        decreases upto - from,
    {
        if from < upto {
            self.lemma_first_candidate_skips(bits, from + 1, upto);
        }
    }
}

impl PieceHandle {
    /// The lease on the piece of `info`, held by `session`.
    pub open spec fn of(info: PieceInfo, session: u64) -> PieceHandle {
        PieceHandle {
            piece_id: info.piece_id,
            piece_length: info.length,
            piece_hash: info.hash,
            session,
        }
    }
}

impl PiecePickerHandle {
    /// The registration of the session with id `session`.
    pub fn new(session: u64) -> (handle: Self)
        ensures
            handle.session == session,
    {
        Self { session }
    }

    /// Asks for the lowest-indexed visible piece that the peer has and that
    /// nobody holds. Where there is one, it is leased to this session. Where
    /// there is none, the picker is unchanged, and the answer is `Closed`
    /// when nothing is left to wait for, else `Wait`.
    pub fn next_piece(&self, picker: &mut PiecePicker, bitfield: &Bitfield) -> (next: NextPiece)
        requires
            old(picker)@.wf(),
        ensures
            final(picker)@.wf(),
            old(picker)@.is_closed() ==> next is Closed && final(picker)@ == old(picker)@,
            !old(picker)@.is_closed() ==> match old(picker)@.first_candidate(bitfield@) {
                Some(at) => next == NextPiece::Assigned(
                    PieceHandle::of(old(picker)@.queue[at].info, self.session),
                ) && final(picker)@ == old(picker)@.with_status(
                    at,
                    PieceStatus::InFlight(self.session),
                ),
                None => next is Wait && final(picker)@ == old(picker)@,
            },
    {
        if picker.shutdown || picker.n_received as usize == picker.piece_infos.len() {
            return NextPiece::Closed;
        }
        let mut at: usize = 0;
        while at < picker.piece_queue.len()
            invariant
                at <= picker.piece_queue@.len(),
                *picker == *old(picker),
                picker@.wf(),
                !picker@.is_closed(),
                forall|k: int| 0 <= k < at ==> !picker@.is_candidate(bitfield@, k),
            decreases picker.piece_queue@.len() - at,
        {
            let record = picker.piece_queue[at];
            let pending = match record.status {
                PieceStatus::Pending => true,
                _ => false,
            };
            if pending && bitfield.has(record.info.piece_id as usize) {
                proof {
                    picker@.lemma_first_candidate_skips(bitfield@, 0, at as int);
                    picker@.lemma_with_status_wf(at as int, PieceStatus::InFlight(self.session));
                }
                picker.piece_queue.set(
                    at,
                    PieceRecord { info: record.info, status: PieceStatus::InFlight(self.session) },
                );
                return NextPiece::Assigned(
                    PieceHandle {
                        piece_id: record.info.piece_id,
                        piece_length: record.info.length,
                        piece_hash: record.info.hash,
                        session: self.session,
                    },
                );
            }
            at += 1;
        }
        proof {
            picker@.lemma_first_candidate_skips(bitfield@, 0, at as int);
        }
        NextPiece::Wait
    }
}

impl PieceHandle {
    /// Hands in the bytes of the leased piece.
    ///
    /// Where the lease is not held (the picker has no such piece in flight
    /// for this session), nothing changes and the answer is `PickerClosed`.
    /// Where the bytes do not hash to the piece's digest, the lease is dropped,
    /// the piece is pending again, and the answer is `HashMismatch`: nothing
    /// goes to the sink and no record is removed. Otherwise the piece is
    /// marked as handed in and comes back for the completion sink; its record
    /// stays until the sink's acknowledgement reaches `PiecePicker::run`.
    pub fn submit(self, picker: &mut PiecePicker, piece: Vec<u8>) -> (result: Result<
        PieceDone,
        SessionError,
    >)
        requires
            old(picker)@.wf(),
        ensures
            final(picker)@.wf(),
            !old(picker)@.holds(self.session, self.piece_id as int) ==> result == Err::<
                PieceDone,
                _,
            >(SessionError::PickerClosed) && final(picker)@ == old(picker)@,
            old(picker)@.holds(self.session, self.piece_id as int) && sha1_digest(piece@)
                != self.piece_hash@ ==> result == Err::<PieceDone, _>(SessionError::HashMismatch)
                && final(picker)@ == old(picker)@.with_status(
                old(picker)@.position(self.piece_id as int),
                PieceStatus::Pending,
            ),
            old(picker)@.holds(self.session, self.piece_id as int) && sha1_digest(piece@)
                == self.piece_hash@ ==> result == Ok::<_, SessionError>(
                PieceDone { piece_id: self.piece_id, piece },
            ) && final(picker)@ == old(picker)@.with_status(
                old(picker)@.position(self.piece_id as int),
                PieceStatus::Submitted(self.session),
            ),
    {
        let at = match self.held_at(picker) {
            Some(at) => at,
            None => {
                return Err(SessionError::PickerClosed);
            },
        };
        let info = picker.piece_queue[at].info;
        if !hash_matches(piece.as_slice(), &self.piece_hash) {
            proof {
                picker@.lemma_with_status_wf(at as int, PieceStatus::Pending);
            }
            picker.piece_queue.set(at, PieceRecord { info, status: PieceStatus::Pending });
            return Err(SessionError::HashMismatch);
        }
        proof {
            picker@.lemma_with_status_wf(at as int, PieceStatus::Submitted(self.session));
        }
        picker.piece_queue.set(
            at,
            PieceRecord { info, status: PieceStatus::Submitted(self.session) },
        );
        Ok(PieceDone { piece_id: self.piece_id, piece })
    }

    /// Gives the lease up without handing anything in: the piece is pending
    /// again and another session can take it. Without the lease, nothing changes.
    pub fn release(self, picker: &mut PiecePicker)
        requires
            old(picker)@.wf(),
        ensures
            final(picker)@.wf(),
            final(picker)@ == (if old(picker)@.holds(self.session, self.piece_id as int) {
                old(picker)@.with_status(
                    old(picker)@.position(self.piece_id as int),
                    PieceStatus::Pending,
                )
            } else {
                old(picker)@
            }),
    {
        match self.held_at(picker) {
            None => {},
            Some(at) => {
                let info = picker.piece_queue[at].info;
                proof {
                    picker@.lemma_with_status_wf(at as int, PieceStatus::Pending);
                }
                picker.piece_queue.set(at, PieceRecord { info, status: PieceStatus::Pending });
            },
        }
    }

    /// The place of the leased piece in the queue, where this lease is held.
    fn held_at(&self, picker: &PiecePicker) -> (at: Option<usize>)
        requires
            picker@.wf(),
        ensures
            match at {
                Some(at) => picker@.holds(self.session, self.piece_id as int) && at
                    == picker@.position(self.piece_id as int) && at < picker@.queue.len(),
                None => !picker@.holds(self.session, self.piece_id as int),
            },
    {
        match picker.find(self.piece_id) {
            None => None,
            Some(at) => match picker.piece_queue[at].status {
                PieceStatus::InFlight(session) => if session == self.session {
                    Some(at)
                } else {
                    None
                },
                _ => None,
            },
        }
    }
}

/// Picker exclusivity: a piece that the picker leases out was held by nobody,
/// and is held afterwards; so the next answer, to whichever session asks, is a
/// different piece.
pub proof fn lemma_lease_is_exclusive(
    picker: PickerView,
    first_session: u64,
    first_bits: Seq<bool>,
    second_session: u64,
    second_bits: Seq<bool>,
)
    requires
        picker.wf(),
        picker.first_candidate(first_bits) is Some,
    ensures
        ({
            let at = picker.first_candidate(first_bits)->Some_0;
            let leased = picker.queue[at].info.piece_id;
            let after = picker.with_status(at, PieceStatus::InFlight(first_session));
            &&& !picker.is_leased(leased as int)
            &&& after.holds(first_session, leased as int)
            &&& after.first_candidate(second_bits) matches Some(other) ==> after.queue[other].info.piece_id
                != leased
        }),
{
    let at = picker.first_candidate(first_bits)->Some_0;
    let leased = picker.queue[at].info.piece_id;
    let after = picker.with_status(at, PieceStatus::InFlight(first_session));
    picker.lemma_first_candidate(first_bits, 0);
    picker.lemma_position(at);
    picker.lemma_with_status_wf(at, PieceStatus::InFlight(first_session));
    after.lemma_first_candidate(second_bits, 0);
    if let Some(other) = after.first_candidate(second_bits) {
        if after.queue[other].info.piece_id == leased {
            after.lemma_position(other);
            after.lemma_position(at);
        }
    }
}

} // verus!
