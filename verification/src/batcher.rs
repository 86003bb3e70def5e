//! Grouping queued operations into write batches.
//!
//! A writer drains a queue of [`DbOp`]s in rounds: it takes what is already
//! queued without waiting, up to [`BATCH_SIZE`] operations; if nothing was
//! queued it waits for one operation and then takes whatever else is queued
//! without waiting, again up to [`BATCH_SIZE`]; then it writes the batch in
//! one transaction and starts the next round. It stops when the queue is
//! closed and empty.
//!
//! [`ChannelBatcher`] makes these decisions. The caller performs each
//! [`BatchAction`] (a non-blocking receive, a blocking receive, writing a
//! batch, stopping) and reports what a receive gave as a [`ChannelEvent`].

use vstd::prelude::*;
use crate::store::DbOp;

verus! {

/// The most operations written in one transaction.
pub const BATCH_SIZE: usize = 1000;

/// Where the writer is within a round.
#[derive(Clone, Copy, Debug, PartialEq, Eq, Structural)]
pub enum BatchPhase {
    /// Between rounds.
    Idle,
    /// Taking what is queued without waiting.
    Draining,
    /// Waiting for an operation (nothing was queued).
    Waiting,
    /// Taking what else is queued after the awaited operation.
    ToppingUp,
    /// The queue is closed and everything received has been written.
    Stopped,
}

/// What a receive gave.
#[derive(Debug)]
pub enum ChannelEvent {
    /// An operation.
    Received(DbOp),
    /// Nothing: the queue was empty (non-blocking receive) or closed.
    Nothing,
}

/// What the caller does next.
#[derive(Debug)]
pub enum BatchAction {
    /// Receive without waiting and report the result.
    TryRecv,
    /// Wait for an operation and report the result.
    Recv,
    /// Write these operations in one transaction, then start the next round.
    Flush(Vec<DbOp>),
    /// Stop.
    Stop,
}

/// The batching decisions of the queue writer.
pub struct ChannelBatcher {
    buffer: Vec<DbOp>,
    phase: BatchPhase,
    received: Ghost<Seq<DbOp>>,
    flushed: Ghost<Seq<DbOp>>,
}

impl ChannelBatcher {
    /// Every operation received so far, in order.
    pub closed spec fn received(&self) -> Seq<DbOp> {
        self.received@
    }

    /// Every operation handed out for writing so far, in order.
    pub closed spec fn flushed(&self) -> Seq<DbOp> {
        self.flushed@
    }

    /// The operations received and not yet handed out.
    pub closed spec fn pending(&self) -> Seq<DbOp> {
        self.buffer@
    }

    pub closed spec fn phase(&self) -> BatchPhase {
        self.phase
    }

    /// Nothing is lost or reordered, the pending batch never exceeds
    /// [`BATCH_SIZE`], and each phase holds what it expects.
    pub closed spec fn wf(&self) -> bool {
        &&& self.flushed@ + self.buffer@ == self.received@
        &&& self.buffer@.len() <= BATCH_SIZE
        &&& (self.phase == BatchPhase::Idle || self.phase == BatchPhase::Waiting || self.phase
            == BatchPhase::Stopped) ==> self.buffer@.len() == 0
        &&& self.phase == BatchPhase::Draining ==> self.buffer@.len() < BATCH_SIZE
        &&& self.phase == BatchPhase::ToppingUp ==> 0 < self.buffer@.len() < BATCH_SIZE
    }

    /// A writer that has received nothing.
    pub fn new() -> (b: Self)
        ensures
            b.wf(),
            b.phase() == BatchPhase::Idle,
            b.received() == Seq::<DbOp>::empty(),
            b.flushed() == Seq::<DbOp>::empty(),
    {
        let b = ChannelBatcher {
            buffer: Vec::new(),
            phase: BatchPhase::Idle,
            received: Ghost(Seq::empty()),
            flushed: Ghost(Seq::empty()),
        };
        assert(b.flushed@ + b.buffer@ =~= b.received@);
        b
    }

    /// Starts a round: the first step is always a receive without waiting.
    pub fn start_round(&mut self) -> (action: BatchAction)
        requires
            old(self).wf(),
            old(self).phase() == BatchPhase::Idle,
        ensures
            final(self).wf(),
            action is TryRecv,
            final(self).phase() == BatchPhase::Draining,
            final(self).received() == old(self).received(),
            final(self).flushed() == old(self).flushed(),
    {
        self.phase = BatchPhase::Draining;
        BatchAction::TryRecv
    }

    /// Hands out the pending operations as one batch.
    fn flush(&mut self) -> (action: BatchAction)
        requires
            old(self).flushed@ + old(self).buffer@ == old(self).received@,
            0 < old(self).buffer@.len() <= BATCH_SIZE,
        ensures
            final(self).wf(),
            final(self).phase() == BatchPhase::Idle,
            final(self).received() == old(self).received(),
            action matches BatchAction::Flush(batch) && batch@ == old(self).buffer@,
            final(self).flushed() == old(self).flushed@ + old(self).buffer@,
    {
        let mut batch: Vec<DbOp> = Vec::new();
        std::mem::swap(&mut batch, &mut self.buffer);
        self.flushed = Ghost(self.flushed@ + batch@);
        self.phase = BatchPhase::Idle;
        assert(self.flushed@ + self.buffer@ =~= self.flushed@);
        BatchAction::Flush(batch)
    }

    /// Takes what a receive gave and decides the next step.
    pub fn on_event(&mut self, event: ChannelEvent) -> (action: BatchAction)
        requires
            old(self).wf(),
            old(self).phase() == BatchPhase::Draining || old(self).phase() == BatchPhase::Waiting
                || old(self).phase() == BatchPhase::ToppingUp,
        ensures
            final(self).wf(),
            final(self).received() == (match event {
                ChannelEvent::Received(op) => old(self).received().push(op),
                ChannelEvent::Nothing => old(self).received(),
            }),
            // A batch is what was pending, with the operation just received.
            action matches BatchAction::Flush(batch) ==> {
                &&& 0 < batch@.len() <= BATCH_SIZE
                &&& batch@ == final(self).received().subrange(
                    old(self).flushed().len() as int,
                    final(self).received().len() as int,
                )
                &&& final(self).flushed() == final(self).received()
                &&& final(self).phase() == BatchPhase::Idle
            },
            !(action is Flush) ==> final(self).flushed() == old(self).flushed(),
            // The writer stops only when the queue gave nothing while it waited,
            // and then everything received has been handed out.
            action is Stop <==> (old(self).phase() == BatchPhase::Waiting && event is Nothing),
            action is Stop ==> final(self).flushed() == final(self).received() && final(self).phase() == BatchPhase::Stopped,
            // Waiting happens only when a round drained nothing.
            action is Recv <==> (old(self).phase() == BatchPhase::Draining && event is Nothing
                && old(self).pending().len() == 0),
            action is Recv ==> final(self).phase() == BatchPhase::Waiting,
            action is TryRecv ==> final(self).phase() == (if old(self).phase() == BatchPhase::Draining {
                BatchPhase::Draining
            } else {
                BatchPhase::ToppingUp
            }),
            // Below BATCH_SIZE, a received operation is followed by a receive without waiting.
            (event is Received && old(self).pending().len() + 1 < BATCH_SIZE) ==> action is TryRecv,
            // The queue running dry after the awaited operation ends the batch.
            (old(self).phase() == BatchPhase::ToppingUp && event is Nothing) ==> action is Flush,
            // A round that drained something is written without waiting.
            (old(self).phase() == BatchPhase::Draining && event is Nothing && old(self).pending().len() > 0) ==> action is Flush,
            // A batch is cut at BATCH_SIZE.
            (event is Received && old(self).phase() != BatchPhase::Waiting && old(self).pending().len() + 1 == BATCH_SIZE) ==> action is Flush,
    {
        let ghost old_flushed = self.flushed@;
        match event {
            ChannelEvent::Received(op) => {
                self.buffer.push(op);
                self.received = Ghost(self.received@.push(op));
                assert(self.flushed@ + self.buffer@ =~= self.received@);
                if self.phase == BatchPhase::Waiting {
                    self.phase = BatchPhase::ToppingUp;
                    BatchAction::TryRecv
                } else if self.buffer.len() < BATCH_SIZE {
                    BatchAction::TryRecv
                } else {
                    let action = self.flush();
                    assert(self.received@.subrange(old_flushed.len() as int, self.received@.len() as int)
                        =~= old(self).buffer@.push(op));
                    action
                }
            },
            ChannelEvent::Nothing => {
                if self.phase == BatchPhase::Waiting {
                    self.phase = BatchPhase::Stopped;
                    assert(self.flushed@ =~= self.received@);
                    BatchAction::Stop
                } else if self.buffer.len() == 0 {
                    self.phase = BatchPhase::Waiting;
                    BatchAction::Recv
                } else {
                    let action = self.flush();
                    assert(self.received@.subrange(old_flushed.len() as int, self.received@.len() as int)
                        =~= old(self).buffer@);
                    action
                }
            },
        }
    }

    /// Nothing received is lost or reordered: what was handed out, followed
    /// by what is pending, is everything received, and at most
    /// [`BATCH_SIZE`] operations are pending.
    pub proof fn law_nothing_lost(&self)
        requires
            self.wf(),
        ensures
            self.flushed() + self.pending() == self.received(),
            self.pending().len() <= BATCH_SIZE,
    {
    }
}

} // verus!
