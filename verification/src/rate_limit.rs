//! The receive rate limiter of a connection: a token bucket over the bytes
//! that the client sends. Time is counted in microseconds.

use vstd::prelude::*;

verus! {

/// The microseconds in a second. A token, the right to receive one byte, is
/// counted in millionths so that tokens accrue with every microsecond.
pub const MICROS_PER_SECOND: u64 = 1_000_000;

/// The limit on what one client may send: a sustained rate, and the most that
/// may arrive at once.
#[derive(Clone, Copy, Debug, PartialEq, Eq, Structural)]
pub struct ClientConnRateLimit {
    pub bytes_per_second: u32,
    pub max_burst_bytes: u32,
}

impl ClientConnRateLimit {
    /// A limit that lets traffic through at all: a rate and a burst above zero.
    pub open spec fn valid(self) -> bool {
        self.bytes_per_second > 0 && self.max_burst_bytes > 0
    }

    /// Tells whether this limit lets traffic through at all.
    pub fn is_valid(&self) -> (r: bool)
        ensures
            r == self.valid(),
    {
        self.bytes_per_second > 0 && self.max_burst_bytes > 0
    }
}

/// The mathematical content of a [`TokenBucket`].
pub struct BucketView {
    /// Bytes per second.
    pub rate: nat,
    /// The most bytes that the bucket holds.
    pub burst: nat,
    /// What the bucket holds, in millionths of a byte.
    pub credit: nat,
    /// The time up to which tokens have been added.
    pub last: nat,
}

/// What the bucket says to a frame.
#[derive(Clone, Copy, Debug, PartialEq, Eq, Structural)]
pub enum Acquire {
    /// The tokens were there and are taken: the frame passes.
    Granted,
    /// Not enough tokens yet: after so many microseconds there will be.
    Wait(u64),
    /// The frame is larger than the bucket: no wait would ever do.
    ExceedsBurst,
}

impl BucketView {
    pub open spec fn wf(self) -> bool {
        &&& 0 < self.rate <= u32::MAX
        &&& 0 < self.burst <= u32::MAX
        &&& self.credit <= self.full()
        &&& self.last <= u64::MAX
    }

    /// The credit of a full bucket.
    pub open spec fn full(self) -> nat {
        self.burst * (MICROS_PER_SECOND as nat)
    }

    /// The price of `n` bytes.
    pub open spec fn price(n: nat) -> nat {
        n * (MICROS_PER_SECOND as nat)
    }

    /// The bucket at the time `now`: every microsecond since the last refill
    /// has added `rate` millionths of a byte, up to a full bucket. A time in
    /// the past changes nothing.
    pub open spec fn refill(self, now: nat) -> BucketView {
        if now <= self.last {
            self
        } else {
            let credit = self.credit + (now - self.last) * self.rate;
            BucketView {
                credit: if credit >= self.full() { self.full() } else { credit as nat },
                last: now,
                ..self
            }
        }
    }

    /// The answer to a frame of `n` bytes that arrives at `now`.
    pub open spec fn answer(self, now: nat, n: nat) -> Acquire {
        let b = self.refill(now);
        if n > self.burst {
            Acquire::ExceedsBurst
        } else if Self::price(n) <= b.credit {
            Acquire::Granted
        } else {
            Acquire::Wait(b.wait_for(n) as u64)
        }
    }

    /// The microseconds until a bucket that lacks tokens for `n` bytes has them.
    pub open spec fn wait_for(self, n: nat) -> nat {
        let deficit = Self::price(n) - self.credit;
        ((deficit + self.rate - 1) / (self.rate as int)) as nat
    }

    /// The bucket after a frame of `n` bytes arrived at `now`: refilled, and
    /// lighter by the price of the frame if the frame passed.
    pub open spec fn acquire(self, now: nat, n: nat) -> BucketView {
        let b = self.refill(now);
        if self.answer(now, n) == Acquire::Granted {
            BucketView { credit: (b.credit - Self::price(n)) as nat, ..b }
        } else {
            b
        }
    }
}

/// A token bucket. It starts full.
#[derive(Clone, Copy, Debug)]
pub struct TokenBucket {
    rate: u32,
    burst: u32,
    credit: u64,
    last: u64,
}

impl View for TokenBucket {
    type V = BucketView;

    closed spec fn view(&self) -> BucketView {
        BucketView {
            rate: self.rate as nat,
            burst: self.burst as nat,
            credit: self.credit as nat,
            last: self.last as nat,
        }
    }
}

impl TokenBucket {
    pub open spec fn wf(&self) -> bool {
        self@.wf()
    }

    /// A full bucket for the limit `limit`, at the time `now`; `None` if the
    /// limit lets nothing through.
    pub fn new(limit: ClientConnRateLimit, now: u64) -> (r: Option<TokenBucket>)
        ensures
            match r {
                Some(b) => {
                    &&& limit.valid()
                    &&& b.wf()
                    &&& b@.rate == limit.bytes_per_second
                    &&& b@.burst == limit.max_burst_bytes
                    &&& b@.credit == b@.full()
                    &&& b@.last == now
                },
                None => !limit.valid(),
            },
    {
        if !limit.is_valid() {
            return None;
        }
        let credit: u64 = (limit.max_burst_bytes as u64) * MICROS_PER_SECOND;
        Some(
            TokenBucket {
                rate: limit.bytes_per_second,
                burst: limit.max_burst_bytes,
                credit,
                last: now,
            },
        )
    }

    /// The bytes that a frame arriving now may have at most and still pass.
    pub fn available(&self) -> (n: u64)
        requires
            self.wf(),
        ensures
            n == self@.credit / (MICROS_PER_SECOND as nat),
    {
        self.credit / MICROS_PER_SECOND
    }

    fn refill(&mut self, now: u64)
        requires
            old(self).wf(),
        ensures
            final(self).wf(),
            final(self)@ == old(self)@.refill(now as nat),
    {
        if now <= self.last {
            return ;
        }
        let full: u64 = (self.burst as u64) * MICROS_PER_SECOND;
        let elapsed: u64 = now - self.last;
        let room: u64 = full - self.credit;
        assert(elapsed * self.rate >= elapsed) by (nonlinear_arith)
            requires
                self.rate >= 1,
                elapsed >= 0,
        ;
        if elapsed >= room {
            self.credit = full;
        } else {
            assert(elapsed * self.rate <= room * 0x1_0000_0000) by (nonlinear_arith)
                requires
                    elapsed <= room,
                    self.rate <= 0xffff_ffff,
            ;
            let gain: u128 = (elapsed as u128) * (self.rate as u128);
            if gain >= room as u128 {
                self.credit = full;
            } else {
                self.credit = self.credit + (gain as u64);
            }
        }
        self.last = now;
    }

    /// Asks for the tokens of a frame of `n` bytes that arrived at `now`.
    /// Tokens for the time since the last call are added first. If enough
    /// are there, they are taken and the frame passes; if not, none is taken
    /// and the answer says how long to wait before asking again.
    pub fn try_acquire(&mut self, now: u64, n: usize) -> (r: Acquire)
        requires
            old(self).wf(),
        ensures
            final(self).wf(),
            r == old(self)@.answer(now as nat, n as nat),
            final(self)@ == old(self)@.acquire(now as nat, n as nat),
    {
        self.refill(now);
        if n as u64 > self.burst as u64 {
            return Acquire::ExceedsBurst;
        }
        let price: u64 = (n as u64) * MICROS_PER_SECOND;
        if price <= self.credit {
            self.credit = self.credit - price;
            return Acquire::Granted;
        }
        let deficit: u64 = price - self.credit;
        let wait: u64 = (deficit + (self.rate as u64) - 1) / (self.rate as u64);
        Acquire::Wait(wait)
    }
}

/// Tokens accrue with time alone: to refill at one time and then at a later
/// one gives the bucket that a single refill at the later time gives.
pub proof fn lemma_refill_composes(b: BucketView, t1: nat, t2: nat)
    requires
        b.wf(),
        b.last <= t1 <= t2,
    ensures
        b.refill(t1).refill(t2) == b.refill(t2),
{
    let r = b.rate;
    let d1 = (t1 - b.last) as nat;
    let d2 = (t2 - t1) as nat;
    assert((d1 + d2) * r == d1 * r + d2 * r) by (nonlinear_arith);
    assert(d1 * r >= 0 && d2 * r >= 0) by (nonlinear_arith);
    assert((t2 - b.last) == d1 + d2);
}

/// The wait that the bucket asks for is long enough, and no longer than
/// needed: a frame that was told to wait passes when it asks again after
/// that wait, and would not have passed a microsecond earlier.
pub proof fn lemma_wait_is_exact(b: BucketView, now: nat, n: nat)
    requires
        b.wf(),
        b.last <= now,
        b.answer(now, n) is Wait,
    ensures
        ({
            let w = b.refill(now).wait_for(n);
            &&& w > 0
            &&& b.answer(now, n) == Acquire::Wait(w as u64)
            &&& b.acquire(now, n).answer(now + w, n) == Acquire::Granted
            &&& b.acquire(now, n).answer((now + w - 1) as nat, n) is Wait
        }),
{
    let c = b.refill(now);
    let w = c.wait_for(n);
    let r = c.rate as int;
    let deficit = BucketView::price(n) - c.credit;
    assert(BucketView::price(n) <= c.full()) by (nonlinear_arith)
        requires
            n <= c.burst,
            BucketView::price(n) == n * 1_000_000,
            c.full() == c.burst * 1_000_000,
    ;
    assert(deficit > 0);
    assert(w == (deficit + r - 1) / r);
    assert(w * r >= deficit && (w - 1) * r < deficit && w > 0) by (nonlinear_arith)
        requires
            w == (deficit + r - 1) / r,
            r > 0,
            deficit > 0,
    ;
    assert(w <= deficit) by (nonlinear_arith)
        requires
            (w - 1) * r < deficit,
            r >= 1,
            w > 0,
    ;
    assert(c.full() <= 0xffff_ffff * 1_000_000) by (nonlinear_arith)
        requires
            c.burst <= 0xffff_ffff,
            c.full() == c.burst * 1_000_000,
    ;
    assert(b.acquire(now, n) == c);
    assert(c.last == now);
    let later = c.refill(now + w);
    assert((now + w - c.last) * c.rate == w * r);
    assert(later.credit >= BucketView::price(n));
    if w > 1 {
        let sooner = c.refill((now + w - 1) as nat);
        assert(((now + w - 1) as nat - c.last) * c.rate == (w - 1) * r);
        assert(sooner.credit < BucketView::price(n));
    } else {
        assert(c.refill(now) == c);
    }
}

/// The bucket after a run of requests, each a time and a number of bytes,
/// and the bytes that passed.
pub open spec fn run_requests(b: BucketView, requests: Seq<(nat, nat)>) -> (BucketView, nat)
    decreases requests.len(),
{
    if requests.len() == 0 {
        (b, 0)
    } else {
        let (before, passed) = run_requests(b, requests.drop_last());
        let (at, n) = requests.last();
        (
            before.acquire(at, n),
            if before.answer(at, n) == Acquire::Granted {
                passed + n
            } else {
                passed
            },
        )
    }
}

/// The limiter limits: whatever is asked of a bucket and whenever, the bytes
/// that pass are paid for by what the bucket held at the start and by what
/// accrued since, and a bucket never holds more than its burst. So in any
/// span of time at most the burst and the rate times the span pass.
pub proof fn lemma_throughput_is_bounded(b: BucketView, requests: Seq<(nat, nat)>)
    requires
        b.wf(),
    ensures
        ({
            let (after, passed) = run_requests(b, requests);
            &&& after.rate == b.rate
            &&& after.burst == b.burst
            &&& after.last >= b.last
            &&& after.credit <= after.full()
            &&& BucketView::price(passed) + after.credit <= b.credit + (after.last - b.last)
                * b.rate
            &&& BucketView::price(passed) <= BucketView::price(b.burst) + (after.last - b.last)
                * b.rate
        }),
    decreases requests.len(),
{
    if requests.len() > 0 {
        lemma_throughput_is_bounded(b, requests.drop_last());
        let (before, passed) = run_requests(b, requests.drop_last());
        let (at, n) = requests.last();
        let filled = before.refill(at);
        let r = b.rate as int;
        let l0 = b.last as int;
        let l1 = before.last as int;
        let l2 = filled.last as int;
        assert((l2 - l0) * r == (l1 - l0) * r + (l2 - l1) * r) by (nonlinear_arith);
        assert((l2 - l1) * r >= 0) by (nonlinear_arith)
            requires
                l2 >= l1,
                r > 0,
        ;
        assert(filled.credit <= before.credit + (l2 - l1) * r);
        assert(BucketView::price(passed + n) == BucketView::price(passed) + BucketView::price(n))
            by (nonlinear_arith)
            requires
                BucketView::price(passed + n) == (passed + n) * 1_000_000,
                BucketView::price(passed) == passed * 1_000_000,
                BucketView::price(n) == n * 1_000_000,
        ;
    }
}

} // verus!
