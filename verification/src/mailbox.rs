use vstd::prelude::*;
use crate::errors::RoutingError;
use crate::frame::Frame;

verus! {

/// One named mailbox: how many receivers are registered under the name and
/// the frames posted to it, oldest first.
pub struct Mailbox {
    pub name: Vec<u8>,
    pub receivers: usize,
    pub queue: Vec<Frame>,
}

/// The process-wide named distributor: a registry mapping each bound name to
/// its receiver group and pending messages. Senders address receivers through
/// it by name alone, never by identity.
pub struct Registry {
    pub boxes: Vec<Mailbox>,
}

impl Registry {
    /// A name is bound at most once.
    pub open spec fn wf(self) -> bool {
        forall|i: int, j: int|
            0 <= i < j < self.boxes@.len() ==> self.boxes@[i].name@ != self.boxes@[j].name@
    }

    /// Whether some mailbox is bound under `name`.
    pub open spec fn has_box(self, name: Seq<u8>) -> bool {
        exists|i: int| 0 <= i < self.boxes@.len() && self.boxes@[i].name@ == name
    }

    /// The index of the mailbox bound under `name` (unique when `wf`).
    pub open spec fn box_at(self, name: Seq<u8>) -> int {
        choose|i: int| 0 <= i < self.boxes@.len() && self.boxes@[i].name@ == name
    }

    /// How many receivers are registered under `name`.
    pub open spec fn receivers_of(self, name: Seq<u8>) -> nat {
        if self.has_box(name) {
            self.boxes@[self.box_at(name)].receivers as nat
        } else {
            0
        }
    }

    /// The frames pending under `name`, oldest first.
    pub open spec fn queue_of(self, name: Seq<u8>) -> Seq<Frame> {
        if self.has_box(name) {
            self.boxes@[self.box_at(name)].queue@
        } else {
            Seq::empty()
        }
    }
}

/// Two registries look the same at name `n`.
pub open spec fn agrees_at(a: Registry, b: Registry, n: Seq<u8>) -> bool {
    &&& a.has_box(n) == b.has_box(n)
    &&& a.receivers_of(n) == b.receivers_of(n)
    &&& a.queue_of(n) == b.queue_of(n)
}

/// Two registries look the same at every name but `name`.
pub open spec fn unchanged_except(a: Registry, b: Registry, name: Seq<u8>) -> bool {
    forall|n: Seq<u8>| n != name ==> #[trigger] agrees_at(a, b, n)
}

/// When names are unique, the mailbox found at index `i` is the one that
/// every `name`-indexed spec function speaks of.
pub proof fn lemma_box_at_is(r: Registry, name: Seq<u8>, i: int)
    requires
        r.wf(),
        0 <= i < r.boxes@.len(),
        r.boxes@[i].name@ == name,
    ensures
        r.has_box(name),
        r.box_at(name) == i,
{
    assert(r.has_box(name));
    let j = r.box_at(name);
    if j < i {
        assert(r.boxes@[j].name@ != r.boxes@[i].name@);
    } else if j > i {
        assert(r.boxes@[i].name@ != r.boxes@[j].name@);
    }
}

/// Whether two byte strings hold the same bytes.
pub fn bytes_equal(a: &Vec<u8>, b: &Vec<u8>) -> (r: bool)
    ensures
        r <==> a@ == b@,
{
    if a.len() != b.len() {
        return false;
    }
    let mut i: usize = 0;
    while i < a.len()
        invariant
            a@.len() == b@.len(),
            i <= a@.len(),
            forall|k: int| 0 <= k < i ==> a@[k] == b@[k],
        decreases a@.len() - i,
    {
        if a[i] != b[i] {
            return false;
        }
        i = i + 1;
    }
    proof {
        assert(a@ =~= b@);
    }
    true
}

impl Registry {
    /// A fresh registry with no bound names.
    pub fn new() -> (r: Registry)
        ensures
            r.wf(),
            r.boxes@.len() == 0,
            forall|n: Seq<u8>| !(#[trigger] r.has_box(n)),
    {
        Registry { boxes: Vec::new() }
    }

    /// The index of the mailbox bound under `name`, if any.
    fn find(&self, name: &Vec<u8>) -> (r: Option<usize>)
        ensures
            match r {
                Some(i) => i < self.boxes@.len() && self.boxes@[i as int].name@ == name@,
                None => forall|i: int|
                    0 <= i < self.boxes@.len() ==> self.boxes@[i].name@ != name@,
            },
    {
        let mut i: usize = 0;
        while i < self.boxes.len()
            invariant
                i <= self.boxes@.len(),
                forall|k: int| 0 <= k < i ==> self.boxes@[k].name@ != name@,
            decreases self.boxes@.len() - i,
        {
            if bytes_equal(&self.boxes[i].name, name) {
                return Some(i);
            }
            i = i + 1;
        }
        None
    }

    /// Bind the caller as one more receiver under `name`, creating the
    /// mailbox on first registration. Pending frames are kept, so a restarted
    /// group re-registering under the same name finds the address intact.
    pub fn register(&mut self, name: &Vec<u8>)
        requires
            old(self).wf(),
            old(self).receivers_of(name@) < usize::MAX,
        ensures
            final(self).wf(),
            final(self).has_box(name@),
            final(self).receivers_of(name@) == old(self).receivers_of(name@) + 1,
            final(self).queue_of(name@) == old(self).queue_of(name@),
            unchanged_except(*old(self), *final(self), name@),
    {
        let found = self.find(name);
        match found {
            Some(i) => {
                proof {
                    lemma_box_at_is(*self, name@, i as int);
                }
                let mb = self.boxes.remove(i);
                let mb2 = Mailbox { name: mb.name, receivers: mb.receivers + 1, queue: mb.queue };
                self.boxes.insert(i, mb2);
                proof {
                    assert(self.boxes@ =~= old(self).boxes@.update(i as int, mb2));
                    lemma_update_same_names(*old(self), *self, i as int, name@);
                }
            }
            None => {
                let mb2 = Mailbox { name: clone_bytes(name), receivers: 1, queue: Vec::new() };
                let ghost n0 = self.boxes@.len() as int;
                self.boxes.push(mb2);
                proof {
                    assert(forall|i: int, j: int|
                        0 <= i < j < self.boxes@.len() && j < n0 ==> self.boxes@[i].name@
                            != self.boxes@[j].name@);
                    assert(forall|i: int|
                        0 <= i < n0 ==> self.boxes@[i].name@ != self.boxes@[n0].name@);
                    lemma_box_at_is(*self, name@, n0);
                    assert(self.queue_of(name@) =~= old(self).queue_of(name@));
                    lemma_push_unchanged(*old(self), *self, name@);
                }
            }
        }
    }

    /// Best-effort, non-blocking post of `frame` to `name`. Fails closed:
    /// exactly when no receiver is registered under the name, nothing is
    /// enqueued and a routing error comes back. Never blocks and never drops
    /// a message on success — the queue grows without bound by design.
    pub fn send_one(&mut self, name: &Vec<u8>, frame: Frame) -> (r: Result<(), RoutingError>)
        requires
            old(self).wf(),
        ensures
            final(self).wf(),
            r is Err <==> old(self).receivers_of(name@) == 0,
            r is Err ==> *final(self) == *old(self) && r == Err::<(), RoutingError>(
                RoutingError::NoReceiver,
            ),
            r is Ok ==> final(self).queue_of(name@) == old(self).queue_of(name@).push(frame),
            r is Ok ==> final(self).receivers_of(name@) == old(self).receivers_of(name@)
                && final(self).has_box(name@),
            unchanged_except(*old(self), *final(self), name@),
    {
        let found = self.find(name);
        match found {
            Some(i) => {
                proof {
                    lemma_box_at_is(*self, name@, i as int);
                }
                if self.boxes[i].receivers == 0 {
                    return Err(RoutingError::NoReceiver);
                }
                let mb = self.boxes.remove(i);
                let mut q = mb.queue;
                q.push(frame);
                let mb2 = Mailbox { name: mb.name, receivers: mb.receivers, queue: q };
                self.boxes.insert(i, mb2);
                proof {
                    assert(self.boxes@ =~= old(self).boxes@.update(i as int, mb2));
                    lemma_update_same_names(*old(self), *self, i as int, name@);
                }
                Ok(())
            }
            None => Err(RoutingError::NoReceiver),
        }
    }

    /// Dequeue the oldest frame pending under `name`, if any. Frames posted
    /// by one sender come out in the order they were posted.
    pub fn recv(&mut self, name: &Vec<u8>) -> (r: Option<Frame>)
        requires
            old(self).wf(),
        ensures
            final(self).wf(),
            r is Some <==> old(self).queue_of(name@).len() > 0,
            r is None ==> *final(self) == *old(self),
            r is Some ==> r.unwrap() == old(self).queue_of(name@)[0] && final(self).queue_of(
                name@,
            ) == old(self).queue_of(name@).drop_first() && final(self).receivers_of(name@) == old(
                self,
            ).receivers_of(name@) && final(self).has_box(name@) == old(self).has_box(name@),
            unchanged_except(*old(self), *final(self), name@),
    {
        let found = self.find(name);
        match found {
            Some(i) => {
                proof {
                    lemma_box_at_is(*self, name@, i as int);
                }
                if self.boxes[i].queue.len() == 0 {
                    return None;
                }
                let mb = self.boxes.remove(i);
                let mut q = mb.queue;
                let f = q.remove(0);
                let mb2 = Mailbox { name: mb.name, receivers: mb.receivers, queue: q };
                self.boxes.insert(i, mb2);
                proof {
                    assert(self.boxes@ =~= old(self).boxes@.update(i as int, mb2));
                    lemma_update_same_names(*old(self), *self, i as int, name@);
                    assert(self.queue_of(name@) =~= old(self).queue_of(name@).drop_first());
                }
                Some(f)
            }
            None => None,
        }
    }

    /// Take every frame pending under `name`, oldest first, leaving the
    /// mailbox empty but registered.
    pub fn drain(&mut self, name: &Vec<u8>) -> (fs: Vec<Frame>)
        requires
            old(self).wf(),
        ensures
            final(self).wf(),
            fs@ == old(self).queue_of(name@),
            final(self).queue_of(name@) == Seq::<Frame>::empty(),
            final(self).has_box(name@) == old(self).has_box(name@),
            final(self).receivers_of(name@) == old(self).receivers_of(name@),
            unchanged_except(*old(self), *final(self), name@),
    {
        let found = self.find(name);
        match found {
            Some(i) => {
                proof {
                    lemma_box_at_is(*self, name@, i as int);
                }
                let mb = self.boxes.remove(i);
                let fs = mb.queue;
                let mb2 = Mailbox { name: mb.name, receivers: mb.receivers, queue: Vec::new() };
                self.boxes.insert(i, mb2);
                proof {
                    assert(self.boxes@ =~= old(self).boxes@.update(i as int, mb2));
                    lemma_update_same_names(*old(self), *self, i as int, name@);
                }
                fs
            }
            None => {
                proof {
                    assert(old(self).queue_of(name@) =~= Seq::<Frame>::empty());
                }
                Vec::new()
            }
        }
    }
}

/// A copy of a byte string.
pub fn clone_bytes(a: &Vec<u8>) -> (r: Vec<u8>)
    ensures
        r@ == a@,
{
    let mut r: Vec<u8> = Vec::new();
    let mut i: usize = 0;
    while i < a.len()
        invariant
            i <= a@.len(),
            r@ == a@.subrange(0, i as int),
        decreases a@.len() - i,
    {
        r.push(a[i]);
        proof {
            assert(r@ =~= a@.subrange(0, i + 1));
        }
        i = i + 1;
    }
    proof {
        assert(r@ =~= a@);
    }
    r
}

/// Replacing the mailbox at `i` with one of the same name keeps the registry
/// well formed and leaves every other name's view of it unchanged.
proof fn lemma_update_same_names(a: Registry, b: Registry, i: int, name: Seq<u8>)
    requires
        a.wf(),
        0 <= i < a.boxes@.len(),
        b.boxes@.len() == a.boxes@.len(),
        forall|k: int| 0 <= k < a.boxes@.len() ==> #[trigger] b.boxes@[k].name@ == a.boxes@[k].name@,
        a.boxes@[i].name@ == name,
        forall|k: int| 0 <= k < a.boxes@.len() && k != i ==> #[trigger] b.boxes@[k] == a.boxes@[k],
    ensures
        b.wf(),
        b.has_box(name),
        b.box_at(name) == i,
        unchanged_except(a, b, name),
{
    lemma_box_at_is(b, name, i);
    assert forall|n: Seq<u8>| n != name implies #[trigger] agrees_at(a, b, n) by {
        if a.has_box(n) {
            let j = a.box_at(n);
            lemma_box_at_is(a, n, j);
            assert(j != i);
            assert(b.boxes@[j].name@ == n);
            lemma_box_at_is(b, n, j);
        } else {
            if b.has_box(n) {
                let j = b.box_at(n);
                assert(a.boxes@[j].name@ == n);
                assert(a.has_box(n));
            }
        }
    }
}

/// Pushing a mailbox under a fresh name leaves every other name's view of the
/// registry unchanged.
proof fn lemma_push_unchanged(a: Registry, b: Registry, name: Seq<u8>)
    requires
        a.wf(),
        b.wf(),
        b.boxes@.len() == a.boxes@.len() + 1,
        forall|k: int| 0 <= k < a.boxes@.len() ==> #[trigger] b.boxes@[k] == a.boxes@[k],
        b.boxes@[a.boxes@.len() as int].name@ == name,
    ensures
        unchanged_except(a, b, name),
{
    assert forall|n: Seq<u8>| n != name implies #[trigger] agrees_at(a, b, n) by {
        if a.has_box(n) {
            let j = a.box_at(n);
            lemma_box_at_is(a, n, j);
            assert(b.boxes@[j].name@ == n);
            lemma_box_at_is(b, n, j);
        } else {
            if b.has_box(n) {
                let j = b.box_at(n);
                assert(j < a.boxes@.len() ==> a.boxes@[j].name@ == n && a.has_box(n));
                assert(j == a.boxes@.len() ==> b.boxes@[j].name@ == name);
            }
        }
    }
}

} // verus!
