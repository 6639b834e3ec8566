//! Waiting for acknowledgements. The client sends requests in order, so the
//! first request of its kind that waits is the one that an acknowledgement is
//! for.
use vstd::prelude::*;

verus! {

/// What an acknowledgement is for: a subscription, a message that arrives at
/// least once, or one that arrives exactly once.
#[derive(Debug, Clone, Copy, PartialEq, Eq, Structural)]
pub enum AckKind {
    Sub,
    Qos1,
    Qos2,
}

/// Who waits for an acknowledgement, a queue for each kind of it.
pub struct Waiters<T> {
    sub: Vec<T>,
    qos1: Vec<T>,
    qos2: Vec<T>,
}

impl<T> Waiters<T> {
    /// Who waits for a kind of acknowledgement, the longest waiting first.
    pub closed spec fn queue(&self, kind: AckKind) -> Seq<T> {
        match kind {
            AckKind::Sub => self.sub@,
            AckKind::Qos1 => self.qos1@,
            AckKind::Qos2 => self.qos2@,
        }
    }

    /// Nobody waits.
    pub fn new() -> (r: Self)
        ensures
            forall|kind: AckKind| (#[trigger] r.queue(kind)).len() == 0,
    {
        Waiters { sub: Vec::new(), qos1: Vec::new(), qos2: Vec::new() }
    }

    /// Joins the queue.
    pub fn push(&mut self, kind: AckKind, waiter: T)
        ensures
            final(self).queue(kind) == old(self).queue(kind).push(waiter),
            forall|other: AckKind|
                other != kind ==> #[trigger] final(self).queue(other) == old(self).queue(other),
    {
        match kind {
            AckKind::Sub => self.sub.push(waiter),
            AckKind::Qos1 => self.qos1.push(waiter),
            AckKind::Qos2 => self.qos2.push(waiter),
        }
    }

    /// Takes the one who has waited longest.
    pub fn pop(&mut self, kind: AckKind) -> (r: Option<T>)
        ensures
            match r {
                Some(w) => old(self).queue(kind).len() > 0 && w == old(self).queue(kind)[0]
                    && final(self).queue(kind) == old(self).queue(kind).skip(1),
                None => old(self).queue(kind).len() == 0 && final(self).queue(kind) == old(
                    self,
                ).queue(kind),
            },
            forall|other: AckKind|
                other != kind ==> #[trigger] final(self).queue(other) == old(self).queue(other),
    {
        match kind {
            AckKind::Sub => pop_first(&mut self.sub),
            AckKind::Qos1 => pop_first(&mut self.qos1),
            AckKind::Qos2 => pop_first(&mut self.qos2),
        }
    }

    /// Takes back the one who joined last.
    pub fn withdraw(&mut self, kind: AckKind) -> (r: Option<T>)
        ensures
            match r {
                Some(w) => old(self).queue(kind).len() > 0 && w == old(self).queue(kind).last()
                    && final(self).queue(kind) == old(self).queue(kind).drop_last(),
                None => old(self).queue(kind).len() == 0 && final(self).queue(kind) == old(
                    self,
                ).queue(kind),
            },
            forall|other: AckKind|
                other != kind ==> #[trigger] final(self).queue(other) == old(self).queue(other),
    {
        match kind {
            AckKind::Sub => self.sub.pop(),
            AckKind::Qos1 => self.qos1.pop(),
            AckKind::Qos2 => self.qos2.pop(),
        }
    }

    /// Takes everyone who waits, kind by kind.
    pub fn drain(&mut self) -> (r: Vec<T>)
        ensures
            r@ == old(self).queue(AckKind::Sub) + old(self).queue(AckKind::Qos1) + old(self).queue(
                AckKind::Qos2,
            ),
            forall|kind: AckKind| (#[trigger] final(self).queue(kind)).len() == 0,
    {
        let mut all: Vec<T> = Vec::new();
        all.append(&mut self.sub);
        all.append(&mut self.qos1);
        all.append(&mut self.qos2);
        all
    }
}

/// Takes the first item.
fn pop_first<T>(queue: &mut Vec<T>) -> (r: Option<T>)
    ensures
        match r {
            Some(w) => old(queue)@.len() > 0 && w == old(queue)@[0] && final(queue)@ == old(
                queue,
            )@.skip(1),
            None => old(queue)@.len() == 0 && final(queue)@ == old(queue)@,
        },
{
    if queue.len() == 0 {
        None
    } else {
        let first: T = queue.remove(0);
        proof {
            assert(queue@ =~= old(queue)@.skip(1));
        }
        Some(first)
    }
}

/// A queue after a number of acknowledgements.
pub open spec fn after_pops<T>(queue: Seq<T>, n: nat) -> Seq<T>
    decreases n,
{
    if n == 0 {
        queue
    } else {
        after_pops(queue, (n - 1) as nat).skip(1)
    }
}

/// Acknowledgements find the waiting in the order in which they joined.
pub proof fn law_first_in_first_out<T>(queue: Seq<T>, n: nat)
    requires
        n < queue.len(),
    ensures
        after_pops(queue, n).len() > 0,
        after_pops(queue, n)[0] == queue[n as int],
{
    lemma_after_pops(queue, n);
}

proof fn lemma_after_pops<T>(queue: Seq<T>, n: nat)
    requires
        n <= queue.len(),
    ensures
        after_pops(queue, n) == queue.skip(n as int),
    decreases n,
{
    if n == 0 {
        assert(queue.skip(0) =~= queue);
    } else {
        lemma_after_pops(queue, (n - 1) as nat);
        assert(queue.skip(n - 1).skip(1) =~= queue.skip(n as int));
    }
}

/// Waiters of one kind are woken in the order in which they came: the first that
/// came is the first to go, whoever comes after it.
pub proof fn law_first_waiter_goes_first<T>(
    waiters: &mut Waiters<T>,
    kind: AckKind,
    waiter: T,
    after: &mut Waiters<T>,
    r: Option<T>,
)
    requires
        call_ensures(Waiters::<T>::push, (waiters, kind, waiter), ()),
        *final(waiters) == *old(after),
        call_ensures(Waiters::<T>::pop, (after, kind), r),
    ensures
        old(waiters).queue(kind).len() == 0 ==> r == Some(waiter),
        old(waiters).queue(kind).len() > 0 ==> r == Some(old(waiters).queue(kind)[0])
            && final(after).queue(kind).last() == waiter,
        forall|other: AckKind|
            other != kind ==> #[trigger] final(after).queue(other) == old(waiters).queue(other),
{
}

/// A waiter that came last can be taken back, and all is as before.
pub proof fn law_last_waiter_can_be_withdrawn<T>(
    waiters: &mut Waiters<T>,
    kind: AckKind,
    waiter: T,
    after: &mut Waiters<T>,
    r: Option<T>,
)
    requires
        call_ensures(Waiters::<T>::push, (waiters, kind, waiter), ()),
        *final(waiters) == *old(after),
        call_ensures(Waiters::<T>::withdraw, (after, kind), r),
    ensures
        r == Some(waiter),
        forall|k: AckKind| #[trigger] final(after).queue(k) == old(waiters).queue(k),
{
    assert(old(waiters).queue(kind).push(waiter).drop_last() =~= old(waiters).queue(kind));
}

/// Draining hands out every waiter of every kind, and leaves none.
pub proof fn law_drained_waiters_are_all<T>(
    waiters: &mut Waiters<T>,
    r: Vec<T>,
    kind: AckKind,
    i: int,
)
    requires
        call_ensures(Waiters::<T>::drain, (waiters,), r),
    ensures
        0 <= i < old(waiters).queue(kind).len() ==> r@.contains(old(waiters).queue(kind)[i]),
        r@.len() == old(waiters).queue(AckKind::Sub).len() + old(waiters).queue(AckKind::Qos1).len()
            + old(waiters).queue(AckKind::Qos2).len(),
        final(waiters).queue(kind).len() == 0,
{
    let a = old(waiters).queue(AckKind::Sub);
    let b = old(waiters).queue(AckKind::Qos1);
    let c = old(waiters).queue(AckKind::Qos2);
    if 0 <= i < old(waiters).queue(kind).len() {
        match kind {
            AckKind::Sub => {
                assert((a + b + c)[i] == a[i]);
            },
            AckKind::Qos1 => {
                assert((a + b + c)[a.len() + i] == b[i]);
            },
            AckKind::Qos2 => {
                assert((a + b + c)[a.len() + b.len() + i] == c[i]);
            },
        }
    }
}

} // verus!
