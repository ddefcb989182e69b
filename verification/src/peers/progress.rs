//! The block request pipeline of one piece in flight.
//!
//! A piece is fetched in blocks of 16 KiB, the last one possibly shorter. At
//! most five requests are outstanding at a time; a request that has waited
//! 800 ms at the head of the pipeline is sent again.

use super::{BlockLength, BlockOffset};
use crate::error::ProtocolError;
use crate::torrent::bitfield::all_set;
use crate::torrent::Bitfield;
use std::collections::VecDeque;
use vstd::prelude::*;

verus! {

/// The size of every block but possibly the last of a piece.
pub const MAX_BLOCK_SIZE: u32 = 0x4000;

/// The most requests that may be outstanding for one piece.
pub const MAX_PENDING_BLOCKS: usize = 5;

/// The milliseconds after which the oldest outstanding request is sent again.
pub const REQUEUE_TIMEOUT: u64 = 800;

/// An outstanding block request.
#[derive(Debug, Clone, Copy, PartialEq, Eq)]
pub struct Requested {
    pub block_id: u32,
    /// When the request was last sent, in milliseconds of a monotonic clock.
    pub request_time: u64,
}

/// The number of blocks in a piece of `piece_length` bytes.
pub open spec fn block_count(piece_length: u32) -> nat {
    ((piece_length + MAX_BLOCK_SIZE - 1) / (MAX_BLOCK_SIZE as int)) as nat
}

/// Where block `block_id` starts within its piece.
pub open spec fn block_offset(block_id: int) -> int {
    block_id * MAX_BLOCK_SIZE
}

/// The length of block `block_id`: a full block, or what is left of the piece.
pub open spec fn block_length(piece_length: u32, block_id: int) -> int {
    let left = piece_length - block_offset(block_id);
    if left < MAX_BLOCK_SIZE {
        left
    } else {
        MAX_BLOCK_SIZE as int
    }
}

/// Offset and length of block `block_id`, as a request names them.
pub open spec fn block_info(piece_length: u32, block_id: int) -> (BlockOffset, BlockLength) {
    (block_offset(block_id) as u32, block_length(piece_length, block_id) as u32)
}

/// The milliseconds from `then` to `now`; zero where the clock reads earlier.
pub open spec fn elapsed(now: u64, then: u64) -> int {
    if now >= then {
        now - then
    } else {
        0
    }
}

/// Whether `pending` holds a request for block `block_id`.
pub open spec fn pending_has(pending: Seq<Requested>, block_id: int) -> bool {
    exists|k: int| 0 <= k < pending.len() && (#[trigger] pending[k]).block_id == block_id
}

/// The place of block `block_id` in `pending`.
pub open spec fn pending_position(pending: Seq<Requested>, block_id: int) -> int {
    choose|k: int| 0 <= k < pending.len() && (#[trigger] pending[k]).block_id == block_id
}

/// The state of a piece in flight: its length, the outstanding requests from
/// oldest to newest, and which blocks have arrived.
pub struct ProgressView {
    pub piece_length: u32,
    pub pending: Seq<Requested>,
    pub received: Seq<bool>,
}

impl ProgressView {
    /// The pipeline invariant: one flag per block; at most five outstanding
    /// requests, each for a block of the piece that has not arrived, no block
    /// requested twice.
    pub open spec fn wf(self) -> bool {
        &&& self.received.len() == block_count(self.piece_length)
        &&& self.pending.len() <= MAX_PENDING_BLOCKS
        &&& forall|k: int|
            0 <= k < self.pending.len() ==> (#[trigger] self.pending[k]).block_id
                < self.received.len() && !self.received[self.pending[k].block_id as int]
        &&& forall|j: int, k: int|
            0 <= j < k < self.pending.len() ==> (#[trigger] self.pending[j]).block_id != (
            #[trigger] self.pending[k]).block_id
    }

    /// Whether a request for block `block_id` is outstanding.
    pub open spec fn is_pending(self, block_id: int) -> bool {
        pending_has(self.pending, block_id)
    }

    /// Whether block `block_id` has neither arrived nor been requested.
    pub open spec fn is_free(self, block_id: int) -> bool {
        &&& 0 <= block_id < self.received.len()
        &&& !self.received[block_id]
        &&& !self.is_pending(block_id)
    }

    /// The lowest free block at or above `from`.
    pub open spec fn lowest_free_from(self, from: int) -> Option<int>
        decreases self.received.len() - from,
    {
        if from < 0 || from >= self.received.len() {
            None
        } else if self.is_free(from) {
            Some(from)
        } else {
            self.lowest_free_from(from + 1)
        }
    }

    /// The lowest free block of the piece.
    pub open spec fn lowest_free(self) -> Option<int> {
        self.lowest_free_from(0)
    }

    /// Whether the oldest outstanding request has waited out the timeout.
    pub open spec fn head_is_stale(self, now: u64) -> bool {
        self.pending.len() > 0 && elapsed(now, self.pending[0].request_time) >= REQUEUE_TIMEOUT
    }

    /// The next block to ask the peer for at time `now`, and the state after
    /// asking. A stale head moves to the tail with a fresh timestamp and is
    /// asked for again. Otherwise a full pipeline yields nothing; otherwise
    /// the lowest free block joins the pipeline; with no free block, nothing.
    pub open spec fn next_request(self, now: u64) -> (ProgressView, Option<
        (BlockOffset, BlockLength),
    >) {
        if self.head_is_stale(now) {
            let block_id = self.pending[0].block_id;
            (
                ProgressView {
                    pending: self.pending.drop_first().push(
                        Requested { block_id, request_time: now },
                    ),
                    ..self
                },
                Some(block_info(self.piece_length, block_id as int)),
            )
        } else if self.pending.len() >= MAX_PENDING_BLOCKS {
            (self, None)
        } else {
            match self.lowest_free() {
                Some(block_id) => (
                    ProgressView {
                        pending: self.pending.push(
                            Requested { block_id: block_id as u32, request_time: now },
                        ),
                        ..self
                    },
                    Some(block_info(self.piece_length, block_id)),
                ),
                None => (self, None),
            }
        }
    }

    /// The state after the block at `offset` arrived, or `None` where no
    /// request for it is outstanding.
    pub open spec fn mark_received(self, offset: BlockOffset) -> Option<ProgressView> {
        let block_id = offset as int / MAX_BLOCK_SIZE as int;
        if self.is_pending(block_id) {
            Some(
                ProgressView {
                    pending: self.pending.remove(pending_position(self.pending, block_id)),
                    received: self.received.update(block_id, true),
                    ..self
                },
            )
        } else {
            None
        }
    }

    /// The state after the peer choked: no request outstanding, the blocks
    /// that arrived kept.
    pub open spec fn reset(self) -> ProgressView {
        ProgressView { pending: Seq::empty(), ..self }
    }

    /// Whether every block has arrived and nothing is outstanding.
    pub open spec fn is_done(self) -> bool {
        self.pending.len() == 0 && all_set(self.received)
    }

    /// The state of a piece of which nothing has been requested.
    pub open spec fn fresh(piece_length: u32) -> ProgressView {
        ProgressView {
            piece_length,
            pending: Seq::empty(),
            received: Seq::new(block_count(piece_length), |i: int| false),
        }
    }
}

/// Whether a request sent at `request.request_time` has waited out the timeout at `now`.
pub open spec fn is_stale(request: Requested, now: u64) -> bool {
    elapsed(now, request.request_time) >= REQUEUE_TIMEOUT
}

/// The number of requests in `pending` that have waited out the timeout at `now`.
pub open spec fn stale_count(pending: Seq<Requested>, now: u64) -> nat
    decreases pending.len(),
{
    if pending.len() == 0 {
        0
    } else {
        stale_count(pending.drop_last(), now) + (if is_stale(pending.last(), now) {
            1nat
        } else {
            0nat
        })
    }
}

/// How many more requests can come out at time `now` before the pipeline
/// yields nothing: one for each stale request, and one for each free place.
pub open spec fn drain_measure(state: ProgressView, now: u64) -> int {
    stale_count(state.pending, now) + MAX_PENDING_BLOCKS - state.pending.len()
}

/// The count of stale requests, taken from the front.
proof fn lemma_stale_count_front(pending: Seq<Requested>, now: u64)
    requires
        pending.len() > 0,
    ensures
        stale_count(pending, now) == stale_count(pending.drop_first(), now) + (if is_stale(
            pending[0],
            now,
        ) {
            1nat
        } else {
            0nat
        }),
    decreases pending.len(),
{
    if pending.len() == 1 {
        assert(pending.drop_first() =~= pending.drop_last());
    } else {
        lemma_stale_count_front(pending.drop_last(), now);
        assert(pending.drop_last().drop_first() =~= pending.drop_first().drop_last());
    }
}

/// Each request that comes out brings the pipeline closer to yielding nothing.
pub proof fn lemma_request_decreases_measure(state: ProgressView, now: u64)
    requires
        state.wf(),
        state.next_request(now).1 is Some,
    ensures
        0 <= drain_measure(state.next_request(now).0, now) < drain_measure(state, now),
{
    let after = state.next_request(now).0;
    let fresh = after.pending.last();
    assert(!is_stale(fresh, now));
    if state.head_is_stale(now) {
        lemma_stale_count_front(state.pending, now);
        assert(after.pending.drop_last() =~= state.pending.drop_first());
    } else {
        assert(after.pending.drop_last() =~= state.pending);
    }
}

/// Every request that is due at time `now`, oldest first, and the state after
/// asking for them all: `next_request` until it yields nothing.
pub open spec fn drain(state: ProgressView, now: u64) -> (ProgressView, Seq<
    (BlockOffset, BlockLength),
>)
    decreases drain_measure(state, now),
    when state.wf()
    via drain_decreases
{
    match state.next_request(now).1 {
        None => (state, Seq::empty()),
        Some(block) => {
            let rest = drain(state.next_request(now).0, now);
            (rest.0, seq![block] + rest.1)
        },
    }
}

#[via_fn]
proof fn drain_decreases(state: ProgressView, now: u64) {
    if state.next_request(now).1 is Some {
        lemma_request_decreases_measure(state, now);
    }
}

/// After every due request has come out the invariant holds, the pipeline
/// yields nothing more, and no more than ten requests came out.
pub proof fn lemma_drain(state: ProgressView, now: u64)
    requires
        state.wf(),
    ensures
        drain(state, now).0.wf(),
        drain(state, now).0.next_request(now).1 is None,
        drain(state, now).0.received == state.received,
        drain(state, now).0.piece_length == state.piece_length,
        drain(state, now).1.len() <= drain_measure(state, now) <= 2 * MAX_PENDING_BLOCKS,
    decreases drain_measure(state, now),
{
    lemma_stale_count_bound(state.pending, now);
    if state.next_request(now).1 is Some {
        state.lemma_steps_keep_wf(now, 0);
        lemma_request_decreases_measure(state, now);
        lemma_drain(state.next_request(now).0, now);
    }
}

/// No more requests are stale than there are requests.
proof fn lemma_stale_count_bound(pending: Seq<Requested>, now: u64)
    ensures
        stale_count(pending, now) <= pending.len(),
    decreases pending.len(),
{
    if pending.len() > 0 {
        lemma_stale_count_bound(pending.drop_last(), now);
    }
}

/// Tracks which blocks of one piece were requested and which arrived.
#[derive(Debug, Clone)]
pub struct PieceDownloadProgress {
    piece_length: u32,
    pending: VecDeque<Requested>,
    /// One bit per block, set while the block is requested or has arrived.
    block_status: Bitfield,
}

impl View for PieceDownloadProgress {
    type V = ProgressView;

    closed spec fn view(&self) -> ProgressView {
        ProgressView {
            piece_length: self.piece_length,
            pending: self.pending@,
            received: Seq::new(
                self.block_status@.len(),
                |i: int| self.block_status@[i] && !pending_has(self.pending@, i),
            ),
        }
    }
}

/// Moving the head of the pipeline to its tail keeps the set of requested blocks.
proof fn lemma_rotate_keeps_ids(pending: Seq<Requested>, now: u64)
    requires
        pending.len() > 0,
    ensures
        forall|id: int|
            pending_has(
                pending.drop_first().push(
                    Requested { block_id: pending[0].block_id, request_time: now },
                ),
                id,
            ) == pending_has(pending, id),
{
    let rotated = pending.drop_first().push(
        Requested { block_id: pending[0].block_id, request_time: now },
    );
    let last = pending.len() - 1;
    assert forall|id: int| pending_has(rotated, id) == pending_has(pending, id) by {
        if pending_has(pending, id) {
            let k = pending_position(pending, id);
            if k == 0 {
                assert(rotated[last].block_id == id);
            } else {
                assert(rotated[k - 1] == pending[k]);
            }
        }
        if pending_has(rotated, id) {
            let k = pending_position(rotated, id);
            if k == last {
                assert(pending[0].block_id == id);
            } else {
                assert(rotated[k] == pending[k + 1]);
            }
        }
    }
}

/// A request appended to the pipeline adds its block to the requested ones.
proof fn lemma_push_adds_id(pending: Seq<Requested>, request: Requested)
    ensures
        forall|id: int|
            pending_has(pending.push(request), id) == (id == request.block_id || pending_has(
                pending,
                id,
            )),
{
    let pushed = pending.push(request);
    assert forall|id: int|
        pending_has(pushed, id) == (id == request.block_id || pending_has(pending, id)) by {
        if pending_has(pending, id) {
            let k = pending_position(pending, id);
            assert(pushed[k] == pending[k]);
        }
        if id == request.block_id {
            assert(pushed[pending.len() as int] == request);
        }
        if pending_has(pushed, id) {
            let k = pending_position(pushed, id);
            if k < pending.len() {
                assert(pushed[k] == pending[k]);
            }
        }
    }
}

/// Taking a request out of a pipeline without duplicates removes its block,
/// and only that one, from the requested ones.
proof fn lemma_remove_drops_id(pending: Seq<Requested>, at: int)
    requires
        0 <= at < pending.len(),
        forall|j: int, k: int|
            0 <= j < k < pending.len() ==> (#[trigger] pending[j]).block_id != (
            #[trigger] pending[k]).block_id,
    ensures
        forall|id: int|
            pending_has(pending.remove(at), id) == (id != pending[at].block_id && pending_has(
                pending,
                id,
            )),
{
    let removed = pending.remove(at);
    assert forall|id: int|
        pending_has(removed, id) == (id != pending[at].block_id && pending_has(pending, id)) by {
        if pending_has(removed, id) {
            let k = pending_position(removed, id);
            if k < at {
                assert(removed[k] == pending[k]);
            } else {
                assert(removed[k] == pending[k + 1]);
            }
        }
        if id != pending[at].block_id && pending_has(pending, id) {
            let k = pending_position(pending, id);
            if k < at {
                assert(removed[k] == pending[k]);
            } else {
                assert(removed[k - 1] == pending[k]);
            }
        }
    }
}

impl ProgressView {
    /// With no free block in `from..upto`, the search from `from` goes on at `upto`.
    pub proof fn lemma_lowest_free_skips(self, from: int, upto: int)
        requires
            0 <= from <= upto <= self.received.len(),
            forall|j: int| from <= j < upto ==> !self.is_free(j),
        ensures
            self.lowest_free_from(from) == self.lowest_free_from(upto),
        decreases upto - from,
    {
        if from < upto {
            self.lemma_lowest_free_skips(from + 1, upto);
        }
    }

    /// What `lowest_free` returns is free, and no block below it is; it
    /// returns nothing only where no block is free.
    pub proof fn lemma_lowest_free(self, from: int)
        requires
            0 <= from,
        ensures
            match self.lowest_free_from(from) {
                Some(block_id) => from <= block_id && self.is_free(block_id) && forall|j: int|
                    from <= j < block_id ==> !self.is_free(j),
                None => forall|j: int| from <= j ==> !self.is_free(j),
            },
        decreases self.received.len() - from,
    {
        if from < self.received.len() && !self.is_free(from) {
            self.lemma_lowest_free(from + 1);
        }
    }

    /// Every step of the pipeline keeps its invariant.
    pub proof fn lemma_steps_keep_wf(self, now: u64, offset: BlockOffset)
        requires
            self.wf(),
        ensures
            self.next_request(now).0.wf(),
            self.mark_received(offset) matches Some(after) ==> after.wf(),
            self.reset().wf(),
    {
        let after = self.next_request(now).0;
        if self.head_is_stale(now) {
            let last = self.pending.len() - 1;
            assert forall|k: int| 0 <= k < after.pending.len() implies (
            #[trigger] after.pending[k]).block_id < after.received.len()
                && !after.received[after.pending[k].block_id as int] by {
                if k < last {
                    assert(after.pending[k] == self.pending[k + 1]);
                } else {
                    assert(after.pending[k].block_id == self.pending[0].block_id);
                }
            }
            assert forall|j: int, k: int| 0 <= j < k < after.pending.len() implies (
            #[trigger] after.pending[j]).block_id != (#[trigger] after.pending[k]).block_id by {
                assert(after.pending[j] == self.pending[j + 1]);
                if k < last {
                    assert(after.pending[k] == self.pending[k + 1]);
                } else {
                    assert(after.pending[k].block_id == self.pending[0].block_id);
                }
            }
        } else if self.pending.len() < MAX_PENDING_BLOCKS {
            self.lemma_lowest_free(0);
            if let Some(block_id) = self.lowest_free() {
                assert forall|j: int, k: int| 0 <= j < k < after.pending.len() implies (
                #[trigger] after.pending[j]).block_id != (
                #[trigger] after.pending[k]).block_id by {
                    assert(after.pending[j] == self.pending[j]);
                }
            }
        }
        let block_id = offset as int / MAX_BLOCK_SIZE as int;
        if self.is_pending(block_id) {
            let at = pending_position(self.pending, block_id);
            let marked = self.mark_received(offset)->Some_0;
            lemma_remove_drops_id(self.pending, at);
            assert forall|k: int| 0 <= k < marked.pending.len() implies (
            #[trigger] marked.pending[k]).block_id < marked.received.len()
                && !marked.received[marked.pending[k].block_id as int] by {
                assert(pending_has(marked.pending, marked.pending[k].block_id as int));
                if k < at {
                    assert(marked.pending[k] == self.pending[k]);
                } else {
                    assert(marked.pending[k] == self.pending[k + 1]);
                }
            }
            assert forall|j: int, k: int| 0 <= j < k < marked.pending.len() implies (
            #[trigger] marked.pending[j]).block_id != (
            #[trigger] marked.pending[k]).block_id by {
                let jj = if j < at { j } else { j + 1 };
                let kk = if k < at { k } else { k + 1 };
                assert(marked.pending[j] == self.pending[jj]);
                assert(marked.pending[k] == self.pending[kk]);
            }
        }
    }
}

impl PieceDownloadProgress {
    /// The representation invariant: every requested block has its status bit
    /// set, and the abstract state satisfies the pipeline invariant.
    pub closed spec fn wf(&self) -> bool {
        &&& self.block_status@.len() == block_count(self.piece_length)
        &&& self.pending@.len() <= MAX_PENDING_BLOCKS
        &&& forall|k: int|
            0 <= k < self.pending@.len() ==> (#[trigger] self.pending@[k]).block_id
                < self.block_status@.len() && self.block_status@[self.pending@[k].block_id as int]
        &&& forall|j: int, k: int|
            0 <= j < k < self.pending@.len() ==> (#[trigger] self.pending@[j]).block_id != (
            #[trigger] self.pending@[k]).block_id
    }

    /// A well-formed tracker shows a well-formed state.
    pub proof fn lemma_view_wf(&self)
        requires
            self.wf(),
        ensures
            self@.wf(),
    {
        assert forall|k: int| 0 <= k < self@.pending.len() implies (
        #[trigger] self@.pending[k]).block_id < self@.received.len()
            && !self@.received[self@.pending[k].block_id as int] by {
            assert(pending_has(self.pending@, self.pending@[k].block_id as int));
        }
    }

    /// The tracker of a piece of `piece_length` bytes, nothing requested yet.
    pub fn new(piece_length: u32) -> (progress: Self)
        ensures
            progress.wf(),
            progress@ == ProgressView::fresh(piece_length),
    {
        let nblocks: u32 = piece_length / MAX_BLOCK_SIZE + (if piece_length % MAX_BLOCK_SIZE
            == 0 {
            0
        } else {
            1
        });
        assert(nblocks == block_count(piece_length));
        let block_status = Bitfield::repeat(false, nblocks as usize);
        let progress = Self { piece_length, pending: VecDeque::new(), block_status };
        assert(progress@.received =~= ProgressView::fresh(piece_length).received);
        progress
    }

    /// The length of the piece being tracked.
    pub fn piece_length(&self) -> (piece_length: u32)
        ensures
            piece_length == self@.piece_length,
    {
        self.piece_length
    }

    /// The number of outstanding requests.
    pub fn n_pending(&self) -> (n: usize)
        ensures
            n == self@.pending.len(),
    {
        self.pending.len()
    }

    /// Whether a request for block `block_id` is outstanding.
    pub fn is_requested(&self, block_id: u32) -> (requested: bool)
        ensures
            requested == self@.is_pending(block_id as int),
    {
        let mut at: usize = 0;
        while at < self.pending.len()
            invariant
                at <= self.pending@.len(),
                forall|k: int| 0 <= k < at ==> (#[trigger] self.pending@[k]).block_id != block_id,
            decreases self.pending@.len() - at,
        {
            if self.pending[at].block_id == block_id {
                return true;
            }
            at += 1;
        }
        false
    }

    /// Whether block `block_id` has arrived.
    pub fn has_received(&self, block_id: u32) -> (received: bool)
        ensures
            received == (block_id < self@.received.len() && self@.received[block_id as int]),
    {
        self.block_status.has(block_id as usize) && !self.is_requested(block_id)
    }

    /// The next block to request at time `now`, if one is due: see
    /// `ProgressView::next_request`. `None` means the pipeline is full or
    /// nothing is left to request: wait for blocks to arrive.
    pub fn next_block_info(&mut self, now: u64) -> (request: Option<(BlockOffset, BlockLength)>)
        requires
            old(self).wf(),
        ensures
            final(self).wf(),
            final(self)@ == old(self)@.next_request(now).0,
            request == old(self)@.next_request(now).1,
    {
        proof {
            self.lemma_view_wf();
        }
        if self.pending.len() > 0 {
            let head = self.pending[0];
            let waited: u64 = if now >= head.request_time {
                now - head.request_time
            } else {
                0
            };
            if waited >= REQUEUE_TIMEOUT {
                let ghost before = self.pending@;
                self.pending.pop_front();
                self.pending.push_back(Requested { block_id: head.block_id, request_time: now });
                proof {
                    lemma_rotate_keeps_ids(before, now);
                    assert(self.pending@ =~= before.drop_first().push(
                        Requested { block_id: head.block_id, request_time: now },
                    ));
                    let last = before.len() - 1;
                    assert forall|k: int| 0 <= k < self.pending@.len() implies (
                    #[trigger] self.pending@[k]).block_id < self.block_status@.len()
                        && self.block_status@[self.pending@[k].block_id as int] by {
                        if k < last {
                            assert(self.pending@[k] == before[k + 1]);
                        } else {
                            assert(self.pending@[k].block_id == before[0].block_id);
                        }
                    }
                    assert forall|j: int, k: int| 0 <= j < k < self.pending@.len() implies (
                    #[trigger] self.pending@[j]).block_id != (
                    #[trigger] self.pending@[k]).block_id by {
                        assert(self.pending@[j] == before[j + 1]);
                        if k < last {
                            assert(self.pending@[k] == before[k + 1]);
                        } else {
                            assert(self.pending@[k].block_id == before[0].block_id);
                        }
                    }
                    assert(self@.received =~= old(self)@.received);
                }
                return Some(self.get_block_info(head.block_id));
            }
        }
        if self.reached_max_pending() {
            return None;
        }
        let first = self.block_status.first_zero();
        proof {
            let view = self@;
            assert forall|j: int| 0 <= j < view.received.len() implies view.is_free(j)
                == !self.block_status@[j] by {
                if pending_has(self.pending@, j) {
                    let k = pending_position(self.pending@, j);
                    assert(self.block_status@[self.pending@[k].block_id as int]);
                }
            }
            view.lemma_lowest_free(0);
            match first {
                Some(i) => {
                    view.lemma_lowest_free_skips(0, i as int);
                },
                None => {},
            }
        }
        match first {
            None => None,
            Some(index) => {
                let block_id = index as u32;
                let ghost before = self.pending@;
                let ghost bits = self.block_status@;
                self.block_status.set(index, true);
                self.pending.push_back(Requested { block_id, request_time: now });
                proof {
                    lemma_push_adds_id(before, Requested { block_id, request_time: now });
                    assert forall|k: int| 0 <= k < self.pending@.len() implies (
                    #[trigger] self.pending@[k]).block_id < self.block_status@.len()
                        && self.block_status@[self.pending@[k].block_id as int] by {
                        if k < before.len() {
                            assert(self.pending@[k] == before[k]);
                        }
                    }
                    assert forall|j: int, k: int| 0 <= j < k < self.pending@.len() implies (
                    #[trigger] self.pending@[j]).block_id != (
                    #[trigger] self.pending@[k]).block_id by {
                        assert(self.pending@[j] == before[j]);
                        if k < before.len() {
                            assert(self.pending@[k] == before[k]);
                        } else {
                            assert(bits[before[j].block_id as int]);
                        }
                    }
                    assert(self@.received =~= old(self)@.received);
                }
                Some(self.get_block_info(block_id))
            },
        }
    }

    /// Records the arrival of the block at `offset`. Fails, and changes
    /// nothing, exactly where no request for that block is outstanding.
    pub fn update_downloaded(&mut self, offset: BlockOffset) -> (result: Result<
        (),
        ProtocolError,
    >)
        requires
            old(self).wf(),
        ensures
            final(self).wf(),
            match old(self)@.mark_received(offset) {
                Some(after) => result.is_ok() && final(self)@ == after,
                None => result == Err::<(), _>(ProtocolError::BlockOutOfOrder) && final(self)@
                    == old(self)@,
            },
    {
        let block_id = offset / MAX_BLOCK_SIZE;
        let mut at: usize = 0;
        let len = self.pending.len();
        while at < len && self.pending[at].block_id != block_id
            invariant
                at <= len,
                len == self.pending@.len(),
                forall|k: int| 0 <= k < at ==> (#[trigger] self.pending@[k]).block_id != block_id,
            decreases len - at,
        {
            at += 1;
        }
        if at >= len {
            assert(!pending_has(self.pending@, block_id as int));
            return Err(ProtocolError::BlockOutOfOrder);
        }
        let ghost before = self.pending@;
        let ghost bits = self.block_status@;
        assert(before[at as int].block_id == block_id);
        assert(pending_has(before, block_id as int));
        proof {
            let chosen = pending_position(before, block_id as int);
            if chosen < at {
                assert(before[chosen].block_id != before[at as int].block_id);
            } else if chosen > at {
                assert(before[at as int].block_id != before[chosen].block_id);
            }
            assert(chosen == at);
        }
        self.pending.remove(at);
        self.block_status.set(block_id as usize, true);
        proof {
            lemma_remove_drops_id(before, at as int);
            assert(self.block_status@ =~= bits);
            assert forall|k: int| 0 <= k < self.pending@.len() implies (
            #[trigger] self.pending@[k]).block_id < self.block_status@.len()
                && self.block_status@[self.pending@[k].block_id as int] by {
                if k < at {
                    assert(self.pending@[k] == before[k]);
                } else {
                    assert(self.pending@[k] == before[k + 1]);
                }
            }
            assert forall|j: int, k: int| 0 <= j < k < self.pending@.len() implies (
            #[trigger] self.pending@[j]).block_id != (
            #[trigger] self.pending@[k]).block_id by {
                let jj = if j < at { j } else { j + 1 };
                let kk = if k < at { k } else { k + 1 };
                assert(self.pending@[j] == before[jj]);
                assert(self.pending@[k] == before[kk]);
            }
            assert(self@.received =~= old(self)@.received.update(block_id as int, true));
        }
        Ok(())
    }

    /// Every request that is due at time `now`, oldest first: see `drain`.
    /// Afterwards the pipeline yields nothing until a block arrives or time passes.
    pub fn drain_requests(&mut self, now: u64) -> (requests: Vec<(BlockOffset, BlockLength)>)
        requires
            old(self).wf(),
        ensures
            final(self).wf(),
            final(self)@ == drain(old(self)@, now).0,
            requests@ == drain(old(self)@, now).1,
    {
        let mut requests: Vec<(BlockOffset, BlockLength)> = Vec::new();
        let ghost mut before = self@;
        proof {
            self.lemma_view_wf();
        }
        let mut next = self.next_block_info(now);
        while next.is_some()
            invariant
                self.wf(),
                before.wf(),
                self@ == before.next_request(now).0,
                next == before.next_request(now).1,
                drain(old(self)@, now).0 == drain(before, now).0,
                drain(old(self)@, now).1 == requests@ + drain(before, now).1,
            decreases drain_measure(before, now),
        {
            proof {
                lemma_request_decreases_measure(before, now);
                assert(requests@.push(next->Some_0) + drain(self@, now).1 =~= requests@ + (
                seq![next->Some_0] + drain(self@, now).1));
                before = self@;
                self.lemma_view_wf();
            }
            requests.push(next.unwrap());
            next = self.next_block_info(now);
        }
        assert(requests@ + Seq::<(BlockOffset, BlockLength)>::empty() =~= requests@);
        requests
    }

    /// Offset and length of block `block_id`.
    fn get_block_info(&self, block_id: u32) -> (info: (BlockOffset, BlockLength))
        requires
            block_id < block_count(self.piece_length),
        ensures
            info == block_info(self.piece_length, block_id as int),
    {
        let offset = block_id * MAX_BLOCK_SIZE;
        let left = self.piece_length - offset;
        let length = if left < MAX_BLOCK_SIZE {
            left
        } else {
            MAX_BLOCK_SIZE
        };
        (offset, length)
    }

    /// Forgets every outstanding request; the blocks that arrived stay.
    pub fn reset_progress(&mut self)
        requires
            old(self).wf(),
        ensures
            final(self).wf(),
            final(self)@ == old(self)@.reset(),
    {
        let len = self.pending.len();
        let ghost bits = self.block_status@;
        let mut at: usize = 0;
        while at < len
            invariant
                at <= len,
                len == self.pending@.len(),
                self.pending@ == old(self).pending@,
                self.piece_length == old(self).piece_length,
                old(self).wf(),
                bits == old(self).block_status@,
                self.block_status@.len() == bits.len(),
                forall|i: int|
                    0 <= i < bits.len() ==> #[trigger] self.block_status@[i] == (bits[i]
                        && !pending_has(self.pending@.take(at as int), i)),
            decreases len - at,
        {
            let requested = self.pending[at];
            let ghost current = self.block_status@;
            self.block_status.set(requested.block_id as usize, false);
            proof {
                let shorter = self.pending@.take(at as int);
                let longer = self.pending@.take(at + 1);
                assert(longer =~= shorter.push(requested));
                lemma_push_adds_id(shorter, requested);
                assert forall|i: int| 0 <= i < bits.len() implies #[trigger] self.block_status@[i]
                    == (bits[i] && !pending_has(longer, i)) by {
                    assert(current[i] == (bits[i] && !pending_has(shorter, i)));
                    assert(pending_has(longer, i) == (i == requested.block_id || pending_has(
                        shorter,
                        i,
                    )));
                }
            }
            at += 1;
        }
        assert(self.pending@.take(len as int) =~= self.pending@);
        self.pending.clear();
        proof {
            assert forall|i: int| 0 <= i < bits.len() implies !pending_has(
                Seq::<Requested>::empty(),
                i,
            ) by {}
            assert(self@.received =~= old(self)@.received);
        }
    }

    /// Whether every block has arrived and nothing is outstanding.
    pub fn is_done(&self) -> (done: bool)
        requires
            self.wf(),
        ensures
            done == self@.is_done(),
    {
        let empty = self.pending.len() == 0;
        let all = self.block_status.all();
        proof {
            if empty {
                assert(self@.received =~= self.block_status@);
            }
        }
        empty && all
    }

    /// Whether the pipeline holds as many requests as it may.
    fn reached_max_pending(&self) -> (full: bool)
        ensures
            full == (self.pending@.len() >= MAX_PENDING_BLOCKS),
    {
        self.pending.len() >= MAX_PENDING_BLOCKS
    }
}

/// Progress last block: a piece of `k` full blocks and `r` more bytes, with
/// `0 < r` below the block size, has `k + 1` blocks; the first `k` are full
/// and the last one, and only it, has length `r`.
pub proof fn lemma_last_block(piece_length: u32, k: int, r: int)
    requires
        0 <= k,
        0 < r < MAX_BLOCK_SIZE,
        piece_length == k * MAX_BLOCK_SIZE + r,
    ensures
        block_count(piece_length) == k + 1,
        block_length(piece_length, k) == r,
        forall|block_id: int|
            0 <= block_id < k ==> #[trigger] block_length(piece_length, block_id)
                == MAX_BLOCK_SIZE,
        forall|block_id: int|
            0 <= block_id <= k && #[trigger] block_length(piece_length, block_id) == r
                ==> block_id == k,
{
    assert forall|block_id: int| 0 <= block_id < k implies #[trigger] block_length(
        piece_length,
        block_id,
    ) == MAX_BLOCK_SIZE by {
        assert(piece_length - block_id * MAX_BLOCK_SIZE >= MAX_BLOCK_SIZE) by (nonlinear_arith)
            requires
                0 <= block_id < k,
                piece_length == k * MAX_BLOCK_SIZE + r,
                r > 0,
        ;
    }
}

/// The blocks of a piece tile it: each starts where the one before ends, and
/// the last ends at the end of the piece.
pub proof fn lemma_blocks_tile(piece_length: u32, block_id: int)
    requires
        0 <= block_id < block_count(piece_length),
    ensures
        0 < block_length(piece_length, block_id) <= MAX_BLOCK_SIZE,
        block_offset(block_id) + block_length(piece_length, block_id) <= piece_length,
        block_id + 1 < block_count(piece_length) ==> block_offset(block_id) + block_length(
            piece_length,
            block_id,
        ) == block_offset(block_id + 1),
        block_id + 1 == block_count(piece_length) ==> block_offset(block_id) + block_length(
            piece_length,
            block_id,
        ) == piece_length,
{
}

/// Progress requeue: once the oldest request has waited out the timeout, the
/// next request is for its block again, and the pipeline is no longer.
pub proof fn lemma_requeue(state: ProgressView, now: u64)
    requires
        state.wf(),
        state.pending.len() > 0,
        elapsed(now, state.pending[0].request_time) >= REQUEUE_TIMEOUT,
    ensures
        state.next_request(now).1 == Some(
            block_info(state.piece_length, state.pending[0].block_id as int),
        ),
        state.next_request(now).0.pending.len() == state.pending.len(),
        state.next_request(now).0.pending.last() == (Requested {
            block_id: state.pending[0].block_id,
            request_time: now,
        }),
{
}

/// Progress pipeline invariant: the pipeline never holds more than five
/// requests, and once a block is marked as received its flag is set, no request
/// for it is outstanding, and the pipeline is one request shorter.
pub proof fn lemma_mark_received(state: ProgressView, offset: BlockOffset)
    requires
        state.wf(),
        state.mark_received(offset) is Some,
    ensures
        ({
            let after = state.mark_received(offset)->Some_0;
            let block_id = offset as int / MAX_BLOCK_SIZE as int;
            &&& after.wf()
            &&& after.pending.len() <= MAX_PENDING_BLOCKS
            &&& after.pending.len() == state.pending.len() - 1
            &&& after.received[block_id]
            &&& !after.is_pending(block_id)
        }),
{
    let block_id = offset as int / MAX_BLOCK_SIZE as int;
    let at = pending_position(state.pending, block_id);
    state.lemma_steps_keep_wf(0, offset);
    lemma_remove_drops_id(state.pending, at);
}

} // verus!
