//! The sender engine: plays an encoded interval buffer tick by tick into
//! a carrier-enable line. Single-shot and cooperative: `load` arms a
//! frame, and each `tick` consumes one tick of the time base and returns
//! whether the carrier is on during it.

use vstd::prelude::*;
use crate::stream::{total_of, IntervalBuffer};

verus! {

/// Sum of the durations from interval `i` on.
pub open spec fn sum_from(iv: Seq<u32>, i: int) -> int
    decreases iv.len() - i,
{
    if i < 0 || i >= iv.len() {
        0
    } else {
        iv[i] + sum_from(iv, i + 1)
    }
}

/// The front-to-back sum agrees with the buffer total.
pub proof fn lemma_sum_from_total(iv: Seq<u32>)
    ensures
        sum_from(iv, 0) == total_of(iv),
    decreases iv.len(),
{
    if iv.len() > 0 {
        lemma_sum_from_total(iv.drop_last());
        lemma_sum_from_prefix(iv, 0);
    }
}

/// Dropping the last interval removes exactly its duration from every
/// suffix sum that reaches it.
proof fn lemma_sum_from_prefix(iv: Seq<u32>, i: int)
    requires
        iv.len() >= 1,
        0 <= i <= iv.len(),
    ensures
        sum_from(iv, i) == sum_from(iv.drop_last(), i) + if i < iv.len() {
            iv.last()
        } else {
            0
        },
    decreases iv.len() - i,
{
    if i < iv.len() {
        lemma_sum_from_prefix(iv, i + 1);
    }
}

/// How many ticks of playback are left before the engine goes idle.
pub open spec fn ticks_left(s: Sender) -> int {
    if !s.busy {
        0
    } else {
        s.remaining + sum_from(s.buf@, s.pos + 1)
    }
}

/// The tick-driven playback engine. While busy, `pos` is the interval in
/// flight — even intervals are carrier-on — and `remaining` the ticks
/// left of it.
pub struct Sender {
    pub buf: Vec<u32>,
    pub pos: usize,
    pub remaining: u32,
    pub carrier: bool,
    pub busy: bool,
}

impl Sender {
    pub open spec fn wf(self) -> bool {
        &&& self.busy ==> {
            &&& self.pos < self.buf@.len()
            &&& 1 <= self.remaining <= self.buf@[self.pos as int]
            &&& self.carrier == (self.pos % 2 == 0)
            &&& forall|i: int| 0 <= i < self.buf@.len() ==> #[trigger] self.buf@[i] >= 1
        }
        &&& !self.busy ==> !self.carrier
    }

    /// A fresh, idle engine with the carrier off.
    pub fn new() -> (r: Sender)
        ensures
            r.wf(),
            !r.busy,
            !r.carrier,
    {
        Sender { buf: Vec::new(), pos: 0, remaining: 0, carrier: false, busy: false }
    }

    /// True while a frame is in flight.
    pub fn is_busy(&self) -> (r: bool)
        ensures
            r == self.busy,
    {
        self.busy
    }

    /// The carrier-enable level of the tick in flight.
    pub fn carrier_on(&self) -> (r: bool)
        ensures
            r == self.carrier,
    {
        self.carrier
    }

    /// Arm a frame. Rejected while a send is in flight; an empty buffer
    /// is accepted and finishes at once. Every interval must last at
    /// least one tick (encoders guarantee that at any reasonable rate).
    pub fn load(&mut self, b: IntervalBuffer) -> (r: bool)
        requires
            old(self).wf(),
            forall|i: int| 0 <= i < b@.len() ==> #[trigger] b@[i] >= 1,
        ensures
            final(self).wf(),
            old(self).busy ==> !r && *final(self) == *old(self),
            !old(self).busy && b@.len() == 0 ==> r && *final(self) == *old(self),
            !old(self).busy && b@.len() > 0 ==> {
                &&& r
                &&& final(self).buf@ == b@
                &&& final(self).pos == 0
                &&& final(self).remaining == b@[0]
                &&& final(self).carrier
                &&& final(self).busy
                &&& ticks_left(*final(self)) == total_of(b@)
            },
    {
        proof {
            lemma_sum_from_total(b@);
            if b@.len() > 0 {
                assert(sum_from(b@, 0) == b@[0] + sum_from(b@, 1));
            }
        }
        if self.busy {
            return false;
        }
        if b.len() == 0 {
            return true;
        }
        let first = b.get(0);
        self.buf = b.intervals;
        self.pos = 0;
        self.remaining = first;
        self.carrier = true;
        self.busy = true;
        true
    }

    /// Consume one tick: returns the carrier level for this tick, then
    /// advances to the next interval when the current one is used up,
    /// toggling the carrier, and disables the carrier when the frame
    /// ends.
    pub fn tick(&mut self) -> (r: bool)
        requires
            old(self).wf(),
        ensures
            final(self).wf(),
            r == old(self).carrier,
            final(self).buf@ == old(self).buf@,
            !old(self).busy ==> !r && *final(self) == *old(self),
            old(self).busy && old(self).remaining > 1 ==> {
                &&& final(self).busy
                &&& final(self).pos == old(self).pos
                &&& final(self).remaining == old(self).remaining - 1
                &&& final(self).carrier == old(self).carrier
            },
            old(self).busy && old(self).remaining == 1 && old(self).pos + 1 < old(
                self,
            ).buf@.len() ==> {
                &&& final(self).busy
                &&& final(self).pos == old(self).pos + 1
                &&& final(self).remaining == old(self).buf@[old(self).pos + 1]
                &&& final(self).carrier == !old(self).carrier
            },
            old(self).busy && old(self).remaining == 1 && old(self).pos + 1 >= old(
                self,
            ).buf@.len() ==> {
                &&& !final(self).busy
                &&& !final(self).carrier
            },
            // Progress: a busy frame gives up exactly one tick per call.
            old(self).busy ==> ticks_left(*final(self)) == ticks_left(*old(self)) - 1,
    {
        proof {
            if old(self).busy {
                assert(sum_from(old(self).buf@, old(self).pos + 1) == (if old(self).pos + 1 < old(
                    self,
                ).buf@.len() {
                    old(self).buf@[old(self).pos + 1] + sum_from(old(self).buf@, old(self).pos + 2)
                } else {
                    0
                }));
            }
        }
        if !self.busy {
            return false;
        }
        let r = self.carrier;
        proof {
            assert(self.pos < self.buf@.len());
        }
        self.remaining = self.remaining - 1;
        if self.remaining == 0 {
            let n = self.buf.len();
            if self.pos + 1 < n {
                self.pos = self.pos + 1;
                self.remaining = self.buf[self.pos];
                self.carrier = !self.carrier;
            } else {
                self.busy = false;
                self.carrier = false;
            }
        }
        r
    }
}

/// Which protocol's frame the multi-sender is playing.
#[derive(Clone, Copy, Debug, PartialEq, Eq, Structural)]
pub enum SenderSlot {
    Nec,
    Rc5,
    Rc6,
    Sbp,
}

/// A multi-protocol sender: one playback engine and a tag for the
/// protocol in flight. At most one frame plays at a time; loading while
/// busy is rejected, whatever the slot.
pub struct MultiSender {
    pub engine: Sender,
    pub active: Option<SenderSlot>,
}

impl MultiSender {
    pub open spec fn wf(self) -> bool {
        &&& self.engine.wf()
        &&& self.active is Some <==> self.engine.busy
    }

    /// A fresh, idle multi-sender.
    pub fn new() -> (r: MultiSender)
        ensures
            r.wf(),
            r.active is None,
    {
        MultiSender { engine: Sender::new(), active: None }
    }

    /// The protocol in flight, if any.
    pub fn active_slot(&self) -> (r: Option<SenderSlot>)
        ensures
            r == self.active,
    {
        self.active
    }

    /// Arm one protocol's frame. Rejected while any frame is in flight;
    /// an empty buffer is accepted and finishes at once; otherwise the
    /// engine starts at the first interval with the carrier on.
    pub fn load(&mut self, slot: SenderSlot, b: IntervalBuffer) -> (r: bool)
        requires
            old(self).wf(),
            forall|i: int| 0 <= i < b@.len() ==> #[trigger] b@[i] >= 1,
        ensures
            final(self).wf(),
            old(self).engine.busy ==> !r && *final(self) == *old(self),
            !old(self).engine.busy && b@.len() == 0 ==> r && *final(self) == *old(self),
            !old(self).engine.busy && b@.len() > 0 ==> {
                &&& r
                &&& final(self).active == Some(slot)
                &&& final(self).engine.buf@ == b@
                &&& final(self).engine.pos == 0
                &&& final(self).engine.remaining == b@[0]
                &&& final(self).engine.carrier
                &&& final(self).engine.busy
                &&& ticks_left(final(self).engine) == total_of(b@)
            },
    {
        if self.engine.is_busy() {
            return false;
        }
        if b.len() == 0 {
            return true;
        }
        let ok = self.engine.load(b);
        self.active = Some(slot);
        ok
    }

    /// Consume one tick of whichever frame is in flight: returns the
    /// carrier level for this tick, advances the engine exactly as
    /// `Sender::tick` does, keeps the slot tag while the frame plays, and
    /// clears it when the frame ends.
    pub fn tick(&mut self) -> (r: bool)
        requires
            old(self).wf(),
        ensures
            final(self).wf(),
            r == old(self).engine.carrier,
            final(self).engine.buf@ == old(self).engine.buf@,
            !old(self).engine.busy ==> !r && *final(self) == *old(self),
            old(self).engine.busy && old(self).engine.remaining > 1 ==> {
                &&& final(self).engine.busy
                &&& final(self).engine.pos == old(self).engine.pos
                &&& final(self).engine.remaining == old(self).engine.remaining - 1
                &&& final(self).engine.carrier == old(self).engine.carrier
            },
            old(self).engine.busy && old(self).engine.remaining == 1 && old(self).engine.pos + 1
                < old(self).engine.buf@.len() ==> {
                &&& final(self).engine.busy
                &&& final(self).engine.pos == old(self).engine.pos + 1
                &&& final(self).engine.remaining == old(self).engine.buf@[old(self).engine.pos + 1]
                &&& final(self).engine.carrier == !old(self).engine.carrier
            },
            old(self).engine.busy && old(self).engine.remaining == 1 && old(self).engine.pos + 1
                >= old(self).engine.buf@.len() ==> {
                &&& !final(self).engine.busy
                &&& !final(self).engine.carrier
            },
            // Progress: a busy frame gives up exactly one tick per call.
            old(self).engine.busy ==> ticks_left(final(self).engine) == ticks_left(
                old(self).engine,
            ) - 1,
            final(self).active == (if final(self).engine.busy {
                old(self).active
            } else {
                None::<SenderSlot>
            }),
    {
        let r = self.engine.tick();
        if !self.engine.is_busy() {
            self.active = None;
        }
        r
    }
}

} // verus!
