//! One client connection: what its read loop does with the bytes that
//! arrive, and what its write loop sends next. The loops themselves, which
//! wait on the stream and on the clock, are the caller's.

use vstd::prelude::*;
use crate::dispatcher::{Dispatcher, DispatcherView, Message, MessageView, Snapshot};
use crate::frame::{decode, spec_decode, spec_decode_message, Frame, FrameError, FrameView};
use crate::key::PublicKey;
use crate::rate_limit::{
    Acquire, BucketView, ClientConnRateLimit, TokenBucket, MICROS_PER_SECOND,
};

verus! {

/// After so many microseconds without a write, the write loop sends a
/// `KeepAlive` frame.
pub const KEEP_ALIVE_INTERVAL_MICROS: u64 = 15_000_000;

/// Why a connection is closed.
#[derive(Clone, Copy, Debug, PartialEq, Eq, Structural)]
pub enum CloseReason {
    /// The client sent bytes that are no frame.
    Protocol(FrameError),
    /// The client sent a frame that clients do not send.
    UnexpectedFrame,
    /// The stream ended between two frames.
    Eof,
    /// Another connection has taken this one's key, or the slot is gone.
    Superseded,
    /// The client sent a frame larger than its rate limit will ever allow.
    RateLimitExceeded,
    /// A frame could not be written within the deadline.
    WriteTimeout,
    /// The stream failed.
    Transport,
}

/// The kinds of error that the hub tells apart when it counts them.
#[derive(Clone, Copy, Debug, PartialEq, Eq, Structural)]
pub enum ErrorKind {
    /// The stream failed, ended, or the connection was replaced: the
    /// connection is closed and nothing is counted.
    Transport,
    /// The client broke the protocol: counted as a protocol error.
    Protocol,
    /// A deadline passed: counted as a timeout.
    Timeout,
    /// The client wanted more than the hub has room for.
    Capacity,
}

impl CloseReason {
    /// The kind of error that this reason stands for.
    pub open spec fn spec_kind(self) -> ErrorKind {
        match self {
            CloseReason::Protocol(_) => ErrorKind::Protocol,
            CloseReason::UnexpectedFrame => ErrorKind::Protocol,
            CloseReason::Eof => ErrorKind::Transport,
            CloseReason::Superseded => ErrorKind::Transport,
            CloseReason::RateLimitExceeded => ErrorKind::Capacity,
            CloseReason::WriteTimeout => ErrorKind::Timeout,
            CloseReason::Transport => ErrorKind::Transport,
        }
    }

    /// The kind of error that this reason stands for.
    pub fn kind(&self) -> (k: ErrorKind)
        ensures
            k == self.spec_kind(),
    {
        match self {
            CloseReason::Protocol(_) => ErrorKind::Protocol,
            CloseReason::UnexpectedFrame => ErrorKind::Protocol,
            CloseReason::Eof => ErrorKind::Transport,
            CloseReason::Superseded => ErrorKind::Transport,
            CloseReason::RateLimitExceeded => ErrorKind::Capacity,
            CloseReason::WriteTimeout => ErrorKind::Timeout,
            CloseReason::Transport => ErrorKind::Transport,
        }
    }
}

/// What the read loop does next.
#[derive(Clone, Copy, Debug, PartialEq, Eq, Structural)]
pub enum ReadAction {
    Continue,
    Close(CloseReason),
}

/// The registry after the connection `(node, epoch)` received `frame` at
/// `now`, and what its read loop does next.
///
/// * A connection that is not the registered one closes; nothing changes.
/// * `SendPacket`: the packet is routed (see [`DispatcherView::send`]).
/// * `Ping`: the `Pong` with the same data is offered to the connection's
///   own mailbox.
/// * `Pong`: the connection was heard from.
/// * Any other frame closes the connection.
pub open spec fn spec_handle_frame(
    d: DispatcherView,
    node: Seq<u8>,
    epoch: u64,
    frame: FrameView,
    now: u64,
) -> (DispatcherView, ReadAction) {
    if !d.is_current(node, epoch) {
        (d, ReadAction::Close(CloseReason::Superseded))
    } else {
        match frame {
            FrameView::SendPacket { dst_key, packet } => (
                d.send(node, dst_key, packet),
                ReadAction::Continue,
            ),
            FrameView::Ping { data } => (
                d.offer(node, FrameView::Pong { data }),
                ReadAction::Continue,
            ),
            FrameView::Pong { data } => (d.seen(node, now), ReadAction::Continue),
            _ => (d, ReadAction::Close(CloseReason::UnexpectedFrame)),
        }
    }
}

/// Handles one frame that the client `(node, epoch)` sent.
pub fn handle_frame(
    dispatcher: &mut Dispatcher,
    node: &PublicKey,
    epoch: u64,
    frame: Frame,
    now: u64,
) -> (r: ReadAction)
    requires
        old(dispatcher).wf(),
    ensures
        final(dispatcher).wf(),
        (final(dispatcher)@, r) == spec_handle_frame(old(dispatcher)@, node@, epoch, frame@, now),
{
    let id = node.as_bytes();
    match dispatcher.epoch_of(&id) {
        Some(e) => {
            if e != epoch {
                return ReadAction::Close(CloseReason::Superseded);
            }
        },
        None => {
            return ReadAction::Close(CloseReason::Superseded);
        },
    }
    match frame {
        Frame::SendPacket { dst_key, packet } => {
            let _ = dispatcher.send_packet(node, &dst_key, packet);
            ReadAction::Continue
        },
        Frame::Ping { data } => {
            let _ = dispatcher.send_to(&id, epoch, Frame::Pong { data });
            ReadAction::Continue
        },
        Frame::Pong { data } => {
            let _ = dispatcher.touch(&id, epoch, now);
            ReadAction::Continue
        },
        _ => ReadAction::Close(CloseReason::UnexpectedFrame),
    }
}

/// What the read loop of the connection `(node, epoch)` does with `frame`
/// when it looks at a snapshot of the registry only: its next action, and
/// the message that it sends to the dispatcher, if any.
///
/// * A connection that the snapshot does not show as registered closes.
/// * `SendPacket`: the packet is passed on if the snapshot shows its
///   destination, and dropped in silence if not.
/// * `Ping`: the `Pong` with the same data is to be offered to the
///   connection's own mailbox.
/// * `Pong`: the connection was heard from.
/// * Any other frame closes the connection.
pub open spec fn spec_plan_frame(
    snapshot: Map<Seq<u8>, u64>,
    node: Seq<u8>,
    epoch: u64,
    frame: FrameView,
) -> (ReadAction, Option<MessageView>) {
    if !(snapshot.dom().contains(node) && snapshot[node] == epoch) {
        (ReadAction::Close(CloseReason::Superseded), None)
    } else {
        match frame {
            FrameView::SendPacket { dst_key, packet } => (
                ReadAction::Continue,
                if snapshot.dom().contains(dst_key) {
                    Some(MessageView::SendPacket { src: node, dst: dst_key, payload: packet })
                } else {
                    None
                },
            ),
            FrameView::Ping { data } => (
                ReadAction::Continue,
                Some(MessageView::Offer { node_id: node, epoch, frame: FrameView::Pong { data } }),
            ),
            FrameView::Pong { data } => (
                ReadAction::Continue,
                Some(MessageView::Seen { node_id: node, epoch }),
            ),
            _ => (ReadAction::Close(CloseReason::UnexpectedFrame), None),
        }
    }
}

/// The view of a message that may be there.
pub open spec fn message_view(message: Option<Message>) -> Option<MessageView> {
    match message {
        Some(m) => Some(m@),
        None => None,
    }
}

/// Plans what to do with one frame that the client `(node, epoch)` sent,
/// from a snapshot of the registry.
pub fn plan_frame(snapshot: &Snapshot, node: &PublicKey, epoch: u64, frame: Frame) -> (r: (
    ReadAction,
    Option<Message>,
))
    requires
        snapshot.wf(),
    ensures
        (r.0, message_view(r.1)) == spec_plan_frame(snapshot@, node@, epoch, frame@),
{
    let id = node.as_bytes();
    if !snapshot.shows(&id, epoch) {
        return (ReadAction::Close(CloseReason::Superseded), None);
    }
    match frame {
        Frame::SendPacket { dst_key, packet } => {
            if snapshot.lookup(&dst_key).is_some() {
                (
                    ReadAction::Continue,
                    Some(Message::SendPacket { src: *node, dst: dst_key, payload: packet }),
                )
            } else {
                (ReadAction::Continue, None)
            }
        },
        Frame::Ping { data } => (
            ReadAction::Continue,
            Some(Message::Offer { node_id: id, epoch, frame: Frame::Pong { data } }),
        ),
        Frame::Pong { data } => (
            ReadAction::Continue,
            Some(Message::Seen { node_id: id, epoch }),
        ),
        _ => (ReadAction::Close(CloseReason::UnexpectedFrame), None),
    }
}

/// To look at a snapshot first changes nothing: as long as the snapshot is
/// the picture of the registry as it is, the dispatcher that gets the
/// message of the plan (or no message) ends where it would have ended had
/// it handled the frame itself, and the read loop does the same next.
pub proof fn lemma_plan_agrees_with_dispatcher(
    d: DispatcherView,
    node: Seq<u8>,
    epoch: u64,
    frame: FrameView,
    now: u64,
)
    ensures
        ({
            let (action, message) = spec_plan_frame(d.epochs(), node, epoch, frame);
            let after = match message {
                Some(m) => d.apply(m, now),
                None => d,
            };
            spec_handle_frame(d, node, epoch, frame, now) == (after, action)
        }),
{
}

/// A snapshot that has grown old does no harm to others: whatever the
/// snapshot shows, the message of a plan changes no slot but that of the
/// packet's destination or of the connection itself.
pub proof fn lemma_plan_touches_one_slot(
    d: DispatcherView,
    snapshot: Map<Seq<u8>, u64>,
    node: Seq<u8>,
    epoch: u64,
    frame: FrameView,
    now: u64,
    other: Seq<u8>,
)
    requires
        other != node,
        !(frame matches FrameView::SendPacket { dst_key, .. } && dst_key == other),
    ensures
        ({
            let (action, message) = spec_plan_frame(snapshot, node, epoch, frame);
            let after = match message {
                Some(m) => d.apply(m, now),
                None => d,
            };
            &&& after.slots.dom().contains(other) == d.slots.dom().contains(other)
            &&& after.slots[other] == d.slots[other]
        }),
{
}

/// The mathematical content of a [`ClientConn`].
pub struct ConnView {
    pub node_id: Seq<u8>,
    pub epoch: u64,
    pub limiter: Option<BucketView>,
    pub write_timeout: u64,
    /// The time of the last write, or of the start of the connection.
    pub last_write: u64,
    pub bytes_received: u64,
    pub bytes_sent: u64,
}

impl ConnView {
    pub open spec fn wf(self) -> bool {
        self.limiter matches Some(b) ==> b.wf()
    }

    /// The limiter of a connection that starts at `now` under the limit
    /// `rate_limit`: a full bucket, or none if there is no limit or the
    /// limit lets nothing through.
    pub open spec fn fresh_limiter(rate_limit: Option<ClientConnRateLimit>, now: u64) -> Option<
        BucketView,
    > {
        match rate_limit {
            Some(limit) => if limit.valid() {
                Some(
                    BucketView {
                        rate: limit.bytes_per_second as nat,
                        burst: limit.max_burst_bytes as nat,
                        credit: (limit.max_burst_bytes as nat) * (MICROS_PER_SECOND as nat),
                        last: now as nat,
                    },
                )
            } else {
                None
            },
            None => None,
        }
    }

    /// The state of a connection that was admitted at `now`.
    pub open spec fn fresh(
        node_id: Seq<u8>,
        epoch: u64,
        write_timeout: u64,
        rate_limit: Option<ClientConnRateLimit>,
        now: u64,
    ) -> ConnView {
        ConnView {
            node_id,
            epoch,
            limiter: Self::fresh_limiter(rate_limit, now),
            write_timeout,
            last_write: now,
            bytes_received: 0,
            bytes_sent: 0,
        }
    }
}

/// What the read loop does with the bytes it holds.
#[derive(Clone, Copy, Debug, PartialEq, Eq, Structural)]
pub enum ReadStep {
    /// The bytes hold no whole frame yet: read more.
    NeedMore,
    /// The rate limit is reached: stop reading for so many microseconds, then
    /// try the same bytes again.
    Pause { micros: u64 },
    /// One frame was handled; so many bytes are done with.
    Handled { consumed: usize },
    /// The connection is closed.
    Close(CloseReason),
}

/// What a read step says after a frame of `n` bytes was handled.
pub open spec fn handled(action: ReadAction, n: nat) -> ReadStep {
    match action {
        ReadAction::Continue => ReadStep::Handled { consumed: n as usize },
        ReadAction::Close(reason) => ReadStep::Close(reason),
    }
}

/// The part of a read step that comes before the frame is handled: what the
/// codec and the rate limiter say to the bytes `buf`.
pub enum Admission {
    /// No frame is handled now.
    Stop(ReadStep),
    /// This frame, which took so many bytes, passes.
    Pass(FrameView, nat),
}

/// What the codec and the limiter say to `buf` at `now`.
///
/// * No whole frame: more bytes are needed, unless the stream has ended;
///   then the connection closes, with `Eof` if nothing is left over and with
///   `ShortRead` if a frame was cut off.
/// * Bytes that are no frame close the connection.
/// * A whole frame asks the limiter for as many tokens as it has bytes on
///   the wire.
pub open spec fn spec_admission(limiter: Option<BucketView>, buf: Seq<u8>, at_eof: bool, now: u64)
    -> Admission {
    match spec_decode(buf) {
        Err(FrameError::ShortRead) => if !at_eof {
            Admission::Stop(ReadStep::NeedMore)
        } else if buf.len() == 0 {
            Admission::Stop(ReadStep::Close(CloseReason::Eof))
        } else {
            Admission::Stop(ReadStep::Close(CloseReason::Protocol(FrameError::ShortRead)))
        },
        Err(e) => Admission::Stop(ReadStep::Close(CloseReason::Protocol(e))),
        Ok((frame, n)) => match limiter {
            None => Admission::Pass(frame, n),
            Some(b) => match b.answer(now as nat, n) {
                Acquire::Granted => Admission::Pass(frame, n),
                Acquire::Wait(micros) => Admission::Stop(ReadStep::Pause { micros }),
                Acquire::ExceedsBurst => Admission::Stop(
                    ReadStep::Close(CloseReason::RateLimitExceeded),
                ),
            },
        },
    }
}

/// The limiter after it was asked about `buf` at `now`.
pub open spec fn limiter_after(limiter: Option<BucketView>, buf: Seq<u8>, now: u64) -> Option<
    BucketView,
> {
    match (spec_decode(buf), limiter) {
        (Ok((frame, n)), Some(b)) => Some(b.acquire(now as nat, n)),
        _ => limiter,
    }
}

/// The bytes that a frame which passed adds to the count of received bytes.
pub open spec fn received_after(conn: ConnView, buf: Seq<u8>, at_eof: bool, now: u64) -> u64 {
    match spec_admission(conn.limiter, buf, at_eof, now) {
        Admission::Pass(_, n) => if conn.bytes_received + n > u64::MAX {
            u64::MAX
        } else {
            (conn.bytes_received + n) as u64
        },
        Admission::Stop(_) => conn.bytes_received,
    }
}

/// The kinds of WebSocket message.
#[derive(Clone, Copy, Debug, PartialEq, Eq, Structural)]
pub enum WsMessage {
    Text,
    Binary,
    Ping,
    Pong,
    Close,
}

/// What the read loop does with a WebSocket message.
#[derive(Clone, Copy, Debug, PartialEq, Eq, Structural)]
pub enum WsAction {
    /// The message holds one relay frame: read it.
    ReadFrame,
    /// The message belongs to the WebSocket layer: pass it over.
    Skip,
    /// The peer closes the stream.
    End,
    /// The message breaks the protocol: close the connection.
    Close(CloseReason),
}

/// Decides what the read loop does with a WebSocket message of the given
/// kind: relay frames travel in binary messages, and a text message is an
/// error of the protocol.
pub fn on_ws_message(kind: WsMessage) -> (r: WsAction)
    ensures
        r == match kind {
            WsMessage::Binary => WsAction::ReadFrame,
            WsMessage::Text => WsAction::Close(CloseReason::Protocol(FrameError::Malformed)),
            WsMessage::Ping => WsAction::Skip,
            WsMessage::Pong => WsAction::Skip,
            WsMessage::Close => WsAction::End,
        },
{
    match kind {
        WsMessage::Binary => WsAction::ReadFrame,
        WsMessage::Text => WsAction::Close(CloseReason::Protocol(FrameError::Malformed)),
        WsMessage::Ping => WsAction::Skip,
        WsMessage::Pong => WsAction::Skip,
        WsMessage::Close => WsAction::End,
    }
}

/// A binary message that holds more or less than one frame breaks the
/// protocol: the error that closes the connection, if there is one.
pub open spec fn spec_message_error(message: Seq<u8>) -> Option<FrameError> {
    match spec_decode_message(message) {
        Ok(_) => None,
        Err(e) => Some(e),
    }
}

/// The state of one connection that is not in the registry: its identity,
/// its rate limiter and its clocks.
#[derive(Clone, Copy, Debug)]
pub struct ClientConn {
    node_id: PublicKey,
    epoch: u64,
    limiter: Option<TokenBucket>,
    write_timeout: u64,
    last_write: u64,
    bytes_received: u64,
    bytes_sent: u64,
}

impl View for ClientConn {
    type V = ConnView;

    closed spec fn view(&self) -> ConnView {
        ConnView {
            node_id: self.node_id@,
            epoch: self.epoch,
            limiter: match self.limiter {
                Some(b) => Some(b@),
                None => None,
            },
            write_timeout: self.write_timeout,
            last_write: self.last_write,
            bytes_received: self.bytes_received,
            bytes_sent: self.bytes_sent,
        }
    }
}

/// What the write loop does next.
#[derive(Debug)]
pub enum WriteStep {
    /// Write this frame, within the write deadline.
    Send(Frame),
    /// Nothing to write: wait for a frame in the mailbox, at most until this time.
    Idle { until: u64 },
    /// The connection is no longer the registered one: stop.
    Close(CloseReason),
}

/// How the write of a frame ended.
#[derive(Clone, Copy, Debug, PartialEq, Eq, Structural)]
pub enum WriteResult {
    /// All bytes were written in time.
    Done,
    /// The deadline passed first.
    TimedOut,
    /// The stream failed.
    Failed,
}

/// A time plus a span, stopping at the largest time.
pub open spec fn later(t: u64, span: u64) -> u64 {
    if t + span > u64::MAX {
        u64::MAX
    } else {
        (t + span) as u64
    }
}

impl ClientConn {
    pub open spec fn wf(&self) -> bool {
        self@.wf()
    }

    /// The connection state of a client that was admitted at `now` with the
    /// epoch `epoch`. A rate limit that lets nothing through counts as none.
    pub fn new(
        node_id: PublicKey,
        epoch: u64,
        write_timeout: u64,
        rate_limit: Option<ClientConnRateLimit>,
        now: u64,
    ) -> (c: ClientConn)
        ensures
            c.wf(),
            c@ == ConnView::fresh(node_id@, epoch, write_timeout, rate_limit, now),
    {
        let limiter = match rate_limit {
            Some(limit) => TokenBucket::new(limit, now),
            None => None,
        };
        ClientConn {
            node_id,
            epoch,
            limiter,
            write_timeout,
            last_write: now,
            bytes_received: 0,
            bytes_sent: 0,
        }
    }

    pub fn node_id(&self) -> (k: PublicKey)
        ensures
            k@ == self@.node_id,
    {
        self.node_id
    }

    pub fn epoch(&self) -> (e: u64)
        ensures
            e == self@.epoch,
    {
        self.epoch
    }

    pub fn bytes_received(&self) -> (n: u64)
        ensures
            n == self@.bytes_received,
    {
        self.bytes_received
    }

    pub fn bytes_sent(&self) -> (n: u64)
        ensures
            n == self@.bytes_sent,
    {
        self.bytes_sent
    }

    /// The deadline of a write that starts at `now`.
    pub fn write_deadline(&self, now: u64) -> (t: u64)
        ensures
            t == later(now, self@.write_timeout),
    {
        if now > u64::MAX - self.write_timeout {
            u64::MAX
        } else {
            now + self.write_timeout
        }
    }

    /// The first half of a read step, which needs no registry: the codec
    /// reads one frame from the front of `buf` (`at_eof`: no more bytes will
    /// come), the rate limiter is asked for as many tokens as the frame has
    /// bytes on the wire, and a frame that passes is counted. `Err` says what
    /// the read loop does when no frame is to be handled now.
    pub fn take_frame(&mut self, buf: &[u8], at_eof: bool, now: u64) -> (r: Result<
        (Frame, usize),
        ReadStep,
    >)
        requires
            old(self).wf(),
        ensures
            final(self).wf(),
            final(self)@ == (ConnView {
                limiter: limiter_after(old(self)@.limiter, buf@, now),
                bytes_received: received_after(old(self)@, buf@, at_eof, now),
                ..old(self)@
            }),
            match r {
                Ok((frame, n)) => spec_admission(old(self)@.limiter, buf@, at_eof, now)
                    == Admission::Pass(frame@, n as nat),
                Err(step) => spec_admission(old(self)@.limiter, buf@, at_eof, now)
                    == Admission::Stop(step),
            },
    {
        let (frame, n) = match decode(buf) {
            Ok(pair) => pair,
            Err(FrameError::ShortRead) => {
                if !at_eof {
                    return Err(ReadStep::NeedMore);
                } else if buf.len() == 0 {
                    return Err(ReadStep::Close(CloseReason::Eof));
                } else {
                    return Err(ReadStep::Close(CloseReason::Protocol(FrameError::ShortRead)));
                }
            },
            Err(e) => {
                return Err(ReadStep::Close(CloseReason::Protocol(e)));
            },
        };
        match self.limiter {
            Some(bucket) => {
                let mut bucket = bucket;
                let answer = bucket.try_acquire(now, n);
                self.limiter = Some(bucket);
                match answer {
                    Acquire::Granted => {},
                    Acquire::Wait(micros) => {
                        return Err(ReadStep::Pause { micros });
                    },
                    Acquire::ExceedsBurst => {
                        return Err(ReadStep::Close(CloseReason::RateLimitExceeded));
                    },
                }
            },
            None => {},
        }
        self.bytes_received = if n as u64 > u64::MAX - self.bytes_received {
            u64::MAX
        } else {
            self.bytes_received + n as u64
        };
        Ok((frame, n))
    }

    /// The first half of a read step on a binary WebSocket message, which
    /// must hold exactly one frame. A message that does not closes the
    /// connection and changes nothing; one that does is admitted as the
    /// bytes of a stream that has ended are.
    pub fn take_message(&mut self, message: &[u8], now: u64) -> (r: Result<
        (Frame, usize),
        ReadStep,
    >)
        requires
            old(self).wf(),
        ensures
            final(self).wf(),
            match spec_message_error(message@) {
                Some(e) => r == Err::<(Frame, usize), ReadStep>(
                    ReadStep::Close(CloseReason::Protocol(e)),
                ) && final(self)@ == old(self)@,
                None => {
                    &&& final(self)@ == (ConnView {
                        limiter: limiter_after(old(self)@.limiter, message@, now),
                        bytes_received: received_after(old(self)@, message@, true, now),
                        ..old(self)@
                    })
                    &&& match r {
                        Ok((frame, n)) => spec_admission(old(self)@.limiter, message@, true, now)
                            == Admission::Pass(frame@, n as nat),
                        Err(step) => spec_admission(old(self)@.limiter, message@, true, now)
                            == Admission::Stop(step),
                    }
                },
            },
    {
        match decode(message) {
            Ok((_, n)) => {
                if n != message.len() {
                    return Err(ReadStep::Close(CloseReason::Protocol(FrameError::Malformed)));
                }
            },
            Err(e) => {
                return Err(ReadStep::Close(CloseReason::Protocol(e)));
            },
        }
        self.take_frame(message, true, now)
    }

    /// One step of the read loop on the bytes `buf`, which are all the bytes
    /// that have arrived and are not done with (`at_eof`: no more will come).
    /// At most one frame is handled, by the dispatcher itself.
    pub fn read_step(&mut self, dispatcher: &mut Dispatcher, buf: &[u8], at_eof: bool, now: u64)
        -> (r: ReadStep)
        requires
            old(self).wf(),
            old(dispatcher).wf(),
        ensures
            final(self).wf(),
            final(dispatcher).wf(),
            final(self)@ == (ConnView {
                limiter: limiter_after(old(self)@.limiter, buf@, now),
                bytes_received: received_after(old(self)@, buf@, at_eof, now),
                ..old(self)@
            }),
            match spec_admission(old(self)@.limiter, buf@, at_eof, now) {
                Admission::Stop(step) => r == step && final(dispatcher)@ == old(dispatcher)@,
                Admission::Pass(frame, n) => {
                    let (after, action) = spec_handle_frame(
                        old(dispatcher)@,
                        old(self)@.node_id,
                        old(self)@.epoch,
                        frame,
                        now,
                    );
                    &&& final(dispatcher)@ == after
                    &&& r == handled(action, n)
                },
            },
    {
        match self.take_frame(buf, at_eof, now) {
            Err(step) => step,
            Ok((frame, n)) => {
                let node = self.node_id;
                match handle_frame(dispatcher, &node, self.epoch, frame, now) {
                    ReadAction::Continue => ReadStep::Handled { consumed: n },
                    ReadAction::Close(reason) => ReadStep::Close(reason),
                }
            },
        }
    }

    /// One step of the read loop on a binary WebSocket message, handled by
    /// the dispatcher itself.
    pub fn read_message(&mut self, dispatcher: &mut Dispatcher, message: &[u8], now: u64) -> (r:
        ReadStep)
        requires
            old(self).wf(),
            old(dispatcher).wf(),
        ensures
            final(self).wf(),
            final(dispatcher).wf(),
            match spec_message_error(message@) {
                Some(e) => {
                    &&& r == ReadStep::Close(CloseReason::Protocol(e))
                    &&& final(self)@ == old(self)@
                    &&& final(dispatcher)@ == old(dispatcher)@
                },
                None => {
                    &&& final(self)@ == (ConnView {
                        limiter: limiter_after(old(self)@.limiter, message@, now),
                        bytes_received: received_after(old(self)@, message@, true, now),
                        ..old(self)@
                    })
                    &&& match spec_admission(old(self)@.limiter, message@, true, now) {
                        Admission::Stop(step) => r == step && final(dispatcher)@ == old(
                            dispatcher,
                        )@,
                        Admission::Pass(frame, n) => {
                            let (after, action) = spec_handle_frame(
                                old(dispatcher)@,
                                old(self)@.node_id,
                                old(self)@.epoch,
                                frame,
                                now,
                            );
                            &&& final(dispatcher)@ == after
                            &&& r == handled(action, n)
                        },
                    }
                },
            },
    {
        match self.take_message(message, now) {
            Err(step) => step,
            Ok((frame, n)) => {
                let node = self.node_id;
                match handle_frame(dispatcher, &node, self.epoch, frame, now) {
                    ReadAction::Continue => ReadStep::Handled { consumed: n },
                    ReadAction::Close(reason) => ReadStep::Close(reason),
                }
            },
        }
    }

    /// One step of the read loop that touches no registry: the frame is
    /// admitted, and what is to be done with it is planned from a snapshot.
    /// The message of the result goes to the dispatcher.
    pub fn read_local(&mut self, snapshot: &Snapshot, buf: &[u8], at_eof: bool, now: u64) -> (r:
        (ReadStep, Option<Message>))
        requires
            old(self).wf(),
            snapshot.wf(),
        ensures
            final(self).wf(),
            final(self)@ == (ConnView {
                limiter: limiter_after(old(self)@.limiter, buf@, now),
                bytes_received: received_after(old(self)@, buf@, at_eof, now),
                ..old(self)@
            }),
            match spec_admission(old(self)@.limiter, buf@, at_eof, now) {
                Admission::Stop(step) => r.0 == step && r.1 is None,
                Admission::Pass(frame, n) => {
                    let (action, message) = spec_plan_frame(
                        snapshot@,
                        old(self)@.node_id,
                        old(self)@.epoch,
                        frame,
                    );
                    &&& r.0 == handled(action, n)
                    &&& message_view(r.1) == message
                },
            },
    {
        match self.take_frame(buf, at_eof, now) {
            Err(step) => (step, None),
            Ok((frame, n)) => {
                let node = self.node_id;
                let (action, message) = plan_frame(snapshot, &node, self.epoch, frame);
                match action {
                    ReadAction::Continue => (ReadStep::Handled { consumed: n }, message),
                    ReadAction::Close(reason) => (ReadStep::Close(reason), message),
                }
            },
        }
    }

    /// One step of the read loop on a binary WebSocket message that touches
    /// no registry.
    pub fn read_local_message(&mut self, snapshot: &Snapshot, message: &[u8], now: u64) -> (r: (
        ReadStep,
        Option<Message>,
    ))
        requires
            old(self).wf(),
            snapshot.wf(),
        ensures
            final(self).wf(),
            match spec_message_error(message@) {
                Some(e) => {
                    &&& r.0 == ReadStep::Close(CloseReason::Protocol(e))
                    &&& r.1 is None
                    &&& final(self)@ == old(self)@
                },
                None => {
                    &&& final(self)@ == (ConnView {
                        limiter: limiter_after(old(self)@.limiter, message@, now),
                        bytes_received: received_after(old(self)@, message@, true, now),
                        ..old(self)@
                    })
                    &&& match spec_admission(old(self)@.limiter, message@, true, now) {
                        Admission::Stop(step) => r.0 == step && r.1 is None,
                        Admission::Pass(frame, n) => {
                            let (action, planned) = spec_plan_frame(
                                snapshot@,
                                old(self)@.node_id,
                                old(self)@.epoch,
                                frame,
                            );
                            &&& r.0 == handled(action, n)
                            &&& message_view(r.1) == planned
                        },
                    }
                },
            },
    {
        match self.take_message(message, now) {
            Err(step) => (step, None),
            Ok((frame, n)) => {
                let node = self.node_id;
                let (action, planned) = plan_frame(snapshot, &node, self.epoch, frame);
                match action {
                    ReadAction::Continue => (ReadStep::Handled { consumed: n }, planned),
                    ReadAction::Close(reason) => (ReadStep::Close(reason), planned),
                }
            },
        }
    }

    /// One step of the write loop at `now`: the oldest frame of the mailbox
    /// if one waits; a `KeepAlive` frame if nothing was written for the
    /// keep-alive interval; else nothing, until a frame arrives or the
    /// interval is over.
    pub fn write_step(&mut self, dispatcher: &mut Dispatcher, now: u64) -> (r: WriteStep)
        requires
            old(self).wf(),
            old(dispatcher).wf(),
        ensures
            final(self).wf(),
            final(dispatcher).wf(),
            ({
                let c = old(self)@;
                let d = old(dispatcher)@;
                if !d.is_current(c.node_id, c.epoch) {
                    &&& r matches WriteStep::Close(reason)
                    &&& reason == CloseReason::Superseded
                    &&& final(dispatcher)@ == d
                    &&& final(self)@ == c
                } else if d.slots[c.node_id].mailbox.queue.len() > 0 {
                    &&& r matches WriteStep::Send(f)
                    &&& f@ == d.slots[c.node_id].mailbox.queue[0]
                    &&& final(dispatcher)@ == d.take(c.node_id)
                    &&& final(self)@ == (ConnView { last_write: now, ..c })
                } else if now - c.last_write >= KEEP_ALIVE_INTERVAL_MICROS {
                    &&& r matches WriteStep::Send(f)
                    &&& f@ == FrameView::KeepAlive
                    &&& final(dispatcher)@ == d
                    &&& final(self)@ == (ConnView { last_write: now, ..c })
                } else {
                    &&& r matches WriteStep::Idle { until }
                    &&& until == later(c.last_write, KEEP_ALIVE_INTERVAL_MICROS)
                    &&& final(dispatcher)@ == d
                    &&& final(self)@ == c
                }
            }),
    {
        let id = self.node_id.as_bytes();
        match dispatcher.epoch_of(&id) {
            Some(e) => {
                if e != self.epoch {
                    return WriteStep::Close(CloseReason::Superseded);
                }
            },
            None => {
                return WriteStep::Close(CloseReason::Superseded);
            },
        }
        match dispatcher.next_outbound(&id, self.epoch) {
            Some(frame) => {
                self.last_write = now;
                WriteStep::Send(frame)
            },
            None => {
                assert(dispatcher@.slots =~= old(dispatcher)@.slots);
                if now >= self.last_write && now - self.last_write >= KEEP_ALIVE_INTERVAL_MICROS {
                    self.last_write = now;
                    WriteStep::Send(Frame::KeepAlive)
                } else {
                    let until = if self.last_write > u64::MAX - KEEP_ALIVE_INTERVAL_MICROS {
                        u64::MAX
                    } else {
                        self.last_write + KEEP_ALIVE_INTERVAL_MICROS
                    };
                    WriteStep::Idle { until }
                }
            },
        }
    }

    /// Takes note of how the write of a frame of `len` bytes ended. A write
    /// that timed out or failed closes the connection.
    pub fn after_write(&mut self, result: WriteResult, len: usize) -> (r: ReadAction)
        requires
            old(self).wf(),
        ensures
            final(self).wf(),
            r == match result {
                WriteResult::Done => ReadAction::Continue,
                WriteResult::TimedOut => ReadAction::Close(CloseReason::WriteTimeout),
                WriteResult::Failed => ReadAction::Close(CloseReason::Transport),
            },
            final(self)@ == (ConnView {
                bytes_sent: if result == WriteResult::Done {
                    if old(self)@.bytes_sent + len > u64::MAX {
                        u64::MAX
                    } else {
                        (old(self)@.bytes_sent + len) as u64
                    }
                } else {
                    old(self)@.bytes_sent
                },
                ..old(self)@
            }),
    {
        match result {
            WriteResult::Done => {
                self.bytes_sent = if len as u64 > u64::MAX - self.bytes_sent {
                    u64::MAX
                } else {
                    self.bytes_sent + len as u64
                };
                ReadAction::Continue
            },
            WriteResult::TimedOut => ReadAction::Close(CloseReason::WriteTimeout),
            WriteResult::Failed => ReadAction::Close(CloseReason::Transport),
        }
    }

    /// The message with which a connection that ends takes its leave of the
    /// dispatcher. It names the epoch, so that it cannot remove the slot of a
    /// newer connection with the same key.
    pub fn deregister(&self) -> (m: Message)
        ensures
            m matches Message::RemoveClient { node_id, epoch } && node_id@ == self@.node_id
                && epoch == self@.epoch,
    {
        Message::RemoveClient { node_id: self.node_id.as_bytes(), epoch: self.epoch }
    }
}

} // verus!
