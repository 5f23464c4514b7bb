//! The send mailbox of a connection: a bounded queue of outbound frames.
//! Whoever sends into a full mailbox loses the frame and goes on; nobody waits.

use vstd::prelude::*;
use std::collections::VecDeque;
use crate::frame::{Frame, FrameView, MAX_FRAME_SIZE};

verus! {

/// The number of frames that the mailbox of a client holds.
pub const PER_CLIENT_SEND_QUEUE_DEPTH: usize = 32;

/// Why a frame did not enter a mailbox.
#[derive(Clone, Copy, Debug, PartialEq, Eq, Structural)]
pub enum SendError {
    /// The mailbox is full: the frame is dropped.
    Full,
    /// The frame could never go on the wire: its payload is above the limit.
    TooLarge,
}

/// The mathematical content of a [`Mailbox`].
pub struct MailboxView {
    pub capacity: nat,
    /// The frames that wait, the oldest first.
    pub queue: Seq<FrameView>,
}

impl MailboxView {
    pub open spec fn wf(self) -> bool {
        &&& self.queue.len() <= self.capacity
        &&& forall|i: int| 0 <= i < self.queue.len() ==> (#[trigger] self.queue[i]).wf()
    }

    pub open spec fn is_full(self) -> bool {
        self.queue.len() >= self.capacity
    }

    /// The mailbox after `f` was offered to it: `f` joins the end of the
    /// queue if there is room and `f` can go on the wire, and is lost if not.
    pub open spec fn offer(self, f: FrameView) -> MailboxView {
        if self.is_full() || !f.wf() {
            self
        } else {
            MailboxView { queue: self.queue.push(f), ..self }
        }
    }

    /// The mailbox after its consumer asked for a frame: the oldest one is gone.
    pub open spec fn take(self) -> MailboxView {
        if self.queue.len() == 0 {
            self
        } else {
            MailboxView { queue: self.queue.drop_first(), ..self }
        }
    }
}

/// The payload bytes of all the frames in a queue together.
pub open spec fn queued_bytes(queue: Seq<FrameView>) -> nat
    decreases queue.len(),
{
    if queue.len() == 0 {
        0
    } else {
        queued_bytes(queue.drop_last()) + queue.last().payload().len()
    }
}

/// A bounded queue of outbound frames. The connection's write loop is its
/// only consumer.
#[derive(Debug)]
pub struct Mailbox {
    capacity: usize,
    queue: VecDeque<Frame>,
}

impl View for Mailbox {
    type V = MailboxView;

    closed spec fn view(&self) -> MailboxView {
        MailboxView {
            capacity: self.capacity as nat,
            queue: self.queue@.map_values(|f: Frame| f@),
        }
    }
}

impl Mailbox {
    /// The invariant of a mailbox: never more frames than its capacity, and
    /// every frame fit for the wire.
    pub open spec fn wf(&self) -> bool {
        self@.wf()
    }

    /// An empty mailbox for at most `capacity` frames.
    pub fn new(capacity: usize) -> (m: Mailbox)
        ensures
            m.wf(),
            m@ == (MailboxView { capacity: capacity as nat, queue: Seq::empty() }),
    {
        let m = Mailbox { capacity, queue: VecDeque::new() };
        assert(m@.queue =~= Seq::<FrameView>::empty());
        m
    }

    /// The number of frames that wait.
    pub fn len(&self) -> (n: usize)
        ensures
            n == self@.queue.len(),
    {
        self.queue.len()
    }

    pub fn is_empty(&self) -> (r: bool)
        ensures
            r == (self@.queue.len() == 0),
    {
        self.queue.len() == 0
    }

    pub fn capacity(&self) -> (n: usize)
        ensures
            n == self@.capacity,
    {
        self.capacity
    }

    /// Tells whether the next frame would be dropped.
    pub fn is_full(&self) -> (r: bool)
        ensures
            r == self@.is_full(),
    {
        self.queue.len() >= self.capacity
    }

    /// Offers a frame to the mailbox without waiting. The frame is queued
    /// behind the others exactly if it can go on the wire and there is room.
    pub fn try_send(&mut self, frame: Frame) -> (r: Result<(), SendError>)
        requires
            old(self).wf(),
        ensures
            final(self).wf(),
            final(self)@ == old(self)@.offer(frame@),
            match r {
                Ok(()) => frame@.wf() && !old(self)@.is_full(),
                Err(SendError::TooLarge) => !frame@.wf(),
                Err(SendError::Full) => frame@.wf() && old(self)@.is_full(),
            },
    {
        if frame.wire_len().is_none() {
            return Err(SendError::TooLarge);
        }
        if self.queue.len() >= self.capacity {
            return Err(SendError::Full);
        }
        let ghost before = self@.queue;
        let ghost fv = frame@;
        self.queue.push_back(frame);
        assert(self@.queue =~= before.push(fv));
        Ok(())
    }

    /// Takes the oldest frame out of the mailbox, if there is one.
    pub fn recv(&mut self) -> (r: Option<Frame>)
        requires
            old(self).wf(),
        ensures
            final(self).wf(),
            final(self)@ == old(self)@.take(),
            match r {
                Some(f) => old(self)@.queue.len() > 0 && f@ == old(self)@.queue[0] && f@.wf(),
                None => old(self)@.queue.len() == 0,
            },
    {
        let ghost before = self@.queue;
        let r = self.queue.pop_front();
        match r {
            Some(f) => {
                assert(self@.queue =~= before.drop_first());
                assert(f@ == before[0]);
                assert forall|i: int| 0 <= i < self@.queue.len() implies (
                #[trigger] self@.queue[i]).wf() by {
                    assert(self@.queue[i] == before[i + 1]);
                }
                Some(f)
            },
            None => {
                assert(self@.queue =~= before);
                None
            },
        }
    }
}

/// The bytes that wait in a mailbox are bounded: never more than its
/// capacity times the largest payload of a frame.
pub proof fn lemma_queued_bytes_bounded(m: MailboxView)
    requires
        m.wf(),
    ensures
        queued_bytes(m.queue) <= m.capacity * MAX_FRAME_SIZE,
{
    lemma_queue_bytes(m.queue);
    assert(m.queue.len() * MAX_FRAME_SIZE <= m.capacity * MAX_FRAME_SIZE) by (nonlinear_arith)
        requires
            m.queue.len() <= m.capacity,
    ;
}

proof fn lemma_queue_bytes(q: Seq<FrameView>)
    requires
        forall|i: int| 0 <= i < q.len() ==> (#[trigger] q[i]).wf(),
    ensures
        queued_bytes(q) <= q.len() * MAX_FRAME_SIZE,
    decreases q.len(),
{
    if q.len() > 0 {
        let rest = q.drop_last();
        assert forall|i: int| 0 <= i < rest.len() implies (#[trigger] rest[i]).wf() by {
            assert(rest[i] == q[i]);
        }
        lemma_queue_bytes(rest);
        assert(q.last().wf());
        assert(rest.len() * MAX_FRAME_SIZE + MAX_FRAME_SIZE == q.len() * MAX_FRAME_SIZE)
            by (nonlinear_arith)
            requires
                rest.len() + 1 == q.len(),
        ;
    }
}

/// One step in the life of a mailbox.
pub enum MailboxEvent {
    /// Some sender offers a frame.
    Offer(FrameView),
    /// The write loop asks for a frame.
    Take,
}

/// What a run of events has done to a mailbox.
pub struct MailboxRun {
    /// The mailbox after the run.
    pub mailbox: MailboxView,
    /// The frames that were offered, in the order of the offers.
    pub offered: Seq<FrameView>,
    /// The frames that the write loop got, in the order it got them.
    pub delivered: Seq<FrameView>,
}

/// The run of `events`, one after the other, on the mailbox `m`.
pub open spec fn run(m: MailboxView, events: Seq<MailboxEvent>) -> MailboxRun
    decreases events.len(),
{
    if events.len() == 0 {
        MailboxRun { mailbox: m, offered: Seq::empty(), delivered: Seq::empty() }
    } else {
        let r = run(m, events.drop_last());
        match events.last() {
            MailboxEvent::Offer(f) => MailboxRun {
                mailbox: r.mailbox.offer(f),
                offered: r.offered.push(f),
                delivered: r.delivered,
            },
            MailboxEvent::Take => MailboxRun {
                mailbox: r.mailbox.take(),
                offered: r.offered,
                delivered: if r.mailbox.queue.len() > 0 {
                    r.delivered.push(r.mailbox.queue[0])
                } else {
                    r.delivered
                },
            },
        }
    }
}

/// `a` can be had from `b` by leaving elements out, without changing the
/// order of those that stay.
pub open spec fn is_subsequence(a: Seq<FrameView>, b: Seq<FrameView>) -> bool
    decreases b.len(),
{
    if a.len() == 0 {
        true
    } else if b.len() == 0 {
        false
    } else {
        ||| (a.last() == b.last() && is_subsequence(a.drop_last(), b.drop_last()))
        ||| is_subsequence(a, b.drop_last())
    }
}

proof fn lemma_subsequence_refl(a: Seq<FrameView>)
    ensures
        is_subsequence(a, a),
    decreases a.len(),
{
    if a.len() > 0 {
        lemma_subsequence_refl(a.drop_last());
    }
}

/// Frames leave a mailbox in the order in which they were offered to it:
/// after any run of offers and takes, the frames that were delivered,
/// followed by those that still wait, are what was in the mailbox at the
/// start followed by what was offered, with frames left out (the dropped
/// ones) and the order of the others kept.
pub proof fn lemma_in_order_delivery(m: MailboxView, events: Seq<MailboxEvent>)
    ensures
        is_subsequence(
            run(m, events).delivered + run(m, events).mailbox.queue,
            m.queue + run(m, events).offered,
        ),
    decreases events.len(),
{
    let after = run(m, events);
    if events.len() == 0 {
        assert(after.delivered + after.mailbox.queue =~= m.queue);
        assert(m.queue + after.offered =~= m.queue);
        lemma_subsequence_refl(m.queue);
    } else {
        let r = run(m, events.drop_last());
        lemma_in_order_delivery(m, events.drop_last());
        let got = r.delivered + r.mailbox.queue;
        let all = m.queue + r.offered;
        match events.last() {
            MailboxEvent::Offer(f) => {
                let all2 = m.queue + after.offered;
                assert(all2 =~= all.push(f));
                assert(all2.drop_last() =~= all);
                if r.mailbox.is_full() || !f.wf() {
                    assert(after.delivered + after.mailbox.queue =~= got);
                } else {
                    let got2 = after.delivered + after.mailbox.queue;
                    assert(got2 =~= got.push(f));
                    assert(got2.drop_last() =~= got);
                }
            },
            MailboxEvent::Take => {
                assert(m.queue + after.offered =~= all);
                assert(after.delivered + after.mailbox.queue =~= got);
            },
        }
    }
}

/// The frames of a sequence that come from the peer `src`: the packets that
/// carry its key as their source.
pub open spec fn from_source(frames: Seq<FrameView>, src: Seq<u8>) -> Seq<FrameView> {
    frames.filter(|f: FrameView| f matches FrameView::RecvPacket { src_key, .. } && src_key == src)
}

proof fn lemma_subsequence_filter(a: Seq<FrameView>, b: Seq<FrameView>, src: Seq<u8>)
    requires
        is_subsequence(a, b),
    ensures
        is_subsequence(from_source(a, src), from_source(b, src)),
    decreases b.len(),
{
    reveal(Seq::filter);
    let pred = |f: FrameView| f matches FrameView::RecvPacket { src_key, .. } && src_key == src;
    if a.len() == 0 {
        assert(from_source(a, src) =~= Seq::<FrameView>::empty());
    } else if a.last() == b.last() && is_subsequence(a.drop_last(), b.drop_last()) {
        lemma_subsequence_filter(a.drop_last(), b.drop_last(), src);
        let fa = from_source(a.drop_last(), src);
        let fb = from_source(b.drop_last(), src);
        if pred(a.last()) {
            assert(from_source(a, src) == fa.push(a.last()));
            assert(from_source(b, src) == fb.push(b.last()));
            assert(from_source(a, src).drop_last() =~= fa);
            assert(from_source(b, src).drop_last() =~= fb);
        } else {
            assert(from_source(a, src) == fa);
            assert(from_source(b, src) == fb);
        }
    } else {
        lemma_subsequence_filter(a, b.drop_last(), src);
        let fb = from_source(b.drop_last(), src);
        if pred(b.last()) {
            assert(from_source(b, src) == fb.push(b.last()));
            assert(from_source(b, src).drop_last() =~= fb);
            lemma_subsequence_extend(from_source(a, src), fb, b.last());
        } else {
            assert(from_source(b, src) == fb);
        }
    }
}

proof fn lemma_subsequence_extend(a: Seq<FrameView>, b: Seq<FrameView>, f: FrameView)
    requires
        is_subsequence(a, b),
    ensures
        is_subsequence(a, b.push(f)),
{
    assert(b.push(f).drop_last() =~= b);
}

/// Frames from one source reach a destination in the order in which the
/// source sent them: after any run of offers and takes on the mailbox of the
/// destination, the packets from `src` that were delivered, followed by
/// those that still wait, are the packets from `src` that were in the
/// mailbox at the start followed by those that were offered, with packets
/// left out and the order of the others kept.
pub proof fn lemma_in_order_per_source(m: MailboxView, events: Seq<MailboxEvent>, src: Seq<u8>)
    ensures
        is_subsequence(
            from_source(run(m, events).delivered + run(m, events).mailbox.queue, src),
            from_source(m.queue + run(m, events).offered, src),
        ),
{
    lemma_in_order_delivery(m, events);
    lemma_subsequence_filter(
        run(m, events).delivered + run(m, events).mailbox.queue,
        m.queue + run(m, events).offered,
        src,
    );
}

} // verus!
