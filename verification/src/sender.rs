use vstd::prelude::*;
use crate::frame::Frame;
use crate::keys::{key_model, lemma_key_unique};

verus! {

/// The producer half of the pipeline: hands out frames numbered 1, 2, 3, ...
/// and posts each to the named address without waiting for acknowledgment.
pub struct Sender {
    pub next_order: u64,
}

/// Lifecycle of the sender actor. There is no terminal `Stopped` state: the
/// generation loop is infinite by design, and termination is external.
#[derive(Clone, Copy, Debug, PartialEq, Eq, Structural)]
pub enum SenderStatus {
    Starting,
    Running,
    Crashed,
}

/// What the sender actor observes in one turn of its loop.
#[derive(Clone, Copy, Debug, PartialEq, Eq, Structural)]
pub enum SenderEvent {
    Started,
    SendAccepted,
    SendRejected,
}

/// The sender's lifecycle transition: it starts into its loop, keeps running
/// while posts are accepted, and a routing error is fatal to the actor body.
pub open spec fn sender_step_model(status: SenderStatus, event: SenderEvent) -> SenderStatus {
    match (status, event) {
        (SenderStatus::Starting, SenderEvent::Started) => SenderStatus::Running,
        (SenderStatus::Running, SenderEvent::SendAccepted) => SenderStatus::Running,
        (SenderStatus::Running, SenderEvent::SendRejected) => SenderStatus::Crashed,
        (s, _) => s,
    }
}

/// Advance the sender's lifecycle by one observed event.
pub fn sender_step(status: SenderStatus, event: SenderEvent) -> (next: SenderStatus)
    ensures
        next == sender_step_model(status, event),
{
    match (status, event) {
        (SenderStatus::Starting, SenderEvent::Started) => SenderStatus::Running,
        (SenderStatus::Running, SenderEvent::SendAccepted) => SenderStatus::Running,
        (SenderStatus::Running, SenderEvent::SendRejected) => SenderStatus::Crashed,
        (s, _) => s,
    }
}

impl Sender {
    /// Orders start at 1.
    pub open spec fn wf(self) -> bool {
        1 <= self.next_order
    }

    /// Every order this sender has handed out so far: exactly 1 up to
    /// `next_order - 1`, in order of emission.
    pub open spec fn emitted(self) -> Seq<u64> {
        Seq::new((self.next_order - 1) as nat, |i: int| (i + 1) as u64)
    }

    /// A fresh sender that has emitted nothing; its first frame is number 1.
    pub fn new() -> (s: Sender)
        ensures
            s.wf(),
            s.next_order == 1,
            s.emitted() == Seq::<u64>::empty(),
    {
        let s = Sender { next_order: 1 };
        proof {
            assert(s.emitted() =~= Seq::<u64>::empty());
        }
        s
    }

    /// Hand out the next frame, carrying the given payload and the next
    /// sequence number; the numbering advances by exactly one.
    pub fn next_frame(&mut self, payload: Vec<u8>) -> (f: Frame)
        requires
            old(self).wf(),
            old(self).next_order < u64::MAX,
        ensures
            final(self).wf(),
            f.order == old(self).next_order,
            f.payload == payload,
            final(self).next_order == old(self).next_order + 1,
            final(self).emitted() == old(self).emitted().push(f.order),
    {
        let f = Frame { order: self.next_order, payload };
        self.next_order = self.next_order + 1;
        proof {
            assert(self.emitted() =~= old(self).emitted().push(f.order));
        }
        f
    }
}

/// Order monotonicity: the orders a sender has emitted are exactly
/// 1, 2, 3, ... — a strictly increasing sequence starting at 1 with no gaps,
/// whatever happens downstream of the post.
pub proof fn lemma_order_monotonic(s: Sender)
    requires
        s.wf(),
    ensures
        forall|i: int| 0 <= i < s.emitted().len() ==> s.emitted()[i] == i + 1,
        s.emitted().len() > 0 ==> s.emitted()[0] == 1,
        forall|i: int, j: int| 0 <= i < j < s.emitted().len() ==> s.emitted()[i] < s.emitted()[j],
{
}

/// Key uniqueness: any two distinct frames emitted by one sender persist
/// under distinct keys, since the key is the order and orders never repeat.
pub proof fn lemma_persisted_keys_distinct(s: Sender, base: Seq<u8>, i: int, j: int)
    requires
        s.wf(),
        0 <= i < s.emitted().len(),
        0 <= j < s.emitted().len(),
        i != j,
    ensures
        s.emitted()[i] != s.emitted()[j],
        key_model(base, s.emitted()[i]) != key_model(base, s.emitted()[j]),
{
    lemma_key_unique(base, s.emitted()[i], s.emitted()[j]);
}

} // verus!
