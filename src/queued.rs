use vstd::prelude::*;
use crate::error::{Error, ErrorView};

verus! {

/// What a queued client is, as a mathematical value.
pub enum QueueModel<C, H> {
    /// Calls wait here, oldest first, for the backing hook.
    Pending(Seq<C>),
    /// Calls go straight to the backing hook.
    Resolved(H),
    /// Calls fail with the error.
    Broken(ErrorView),
}

/// An event that a queued client sees.
pub enum QueueEvent<C, H> {
    Call(C),
    Resolve(H),
    Fail(ErrorView),
}

/// One event: the next state and the calls handed to the backing hook.
pub open spec fn queue_step<C, H>(m: QueueModel<C, H>, e: QueueEvent<C, H>) -> (QueueModel<C, H>, Seq<C>) {
    match e {
        QueueEvent::Call(c) => match m {
            QueueModel::Pending(q) => (QueueModel::Pending(q.push(c)), Seq::empty()),
            QueueModel::Resolved(h) => (QueueModel::Resolved(h), seq![c]),
            QueueModel::Broken(err) => (QueueModel::Broken(err), Seq::empty()),
        },
        QueueEvent::Resolve(h) => match m {
            QueueModel::Pending(q) => (QueueModel::Resolved(h), q),
            _ => (m, Seq::empty()),
        },
        QueueEvent::Fail(err) => match m {
            QueueModel::Pending(q) => (QueueModel::Broken(err), Seq::empty()),
            _ => (m, Seq::empty()),
        },
    }
}

/// A run of events: the final state and every call handed to the backing
/// hook, in the order of handing.
pub open spec fn queue_run<C, H>(m: QueueModel<C, H>, es: Seq<QueueEvent<C, H>>) -> (QueueModel<C, H>, Seq<C>)
    decreases es.len(),
{
    if es.len() == 0 {
        (m, Seq::empty())
    } else {
        let (m1, d1) = queue_run(m, es.drop_last());
        let (m2, d2) = queue_step(m1, es.last());
        (m2, d1 + d2)
    }
}

/// The events of a sequence of calls.
pub open spec fn calls_of<C, H>(cs: Seq<C>) -> Seq<QueueEvent<C, H>> {
    cs.map_values(|c: C| QueueEvent::<C, H>::Call(c))
}

/// Running `a` then `b` is running `a + b`.
pub proof fn lemma_queue_run_append<C, H>(m: QueueModel<C, H>, a: Seq<QueueEvent<C, H>>, b: Seq<QueueEvent<C, H>>)
    ensures
        queue_run(m, a + b) == ({
            let (m1, d1) = queue_run(m, a);
            let (m2, d2) = queue_run(m1, b);
            (m2, d1 + d2)
        }),
    decreases b.len(),
{
    if b.len() == 0 {
        assert(a + b =~= a);
        let d1 = queue_run(m, a).1;
        assert(d1 + Seq::<C>::empty() =~= d1);
    } else {
        let ab = a + b;
        assert(ab.drop_last() =~= a + b.drop_last());
        assert(ab.last() == b.last());
        lemma_queue_run_append(m, a, b.drop_last());
        let (m1, d1) = queue_run(m, a);
        let (m2, d2) = queue_run(m1, b.drop_last());
        let (m3, d3) = queue_step(m2, b.last());
        assert(d1 + d2 + d3 =~= d1 + (d2 + d3));
    }
}

/// Calls on a pending client are queued in order and nothing is handed on.
pub proof fn lemma_pending_calls<C, H>(q: Seq<C>, cs: Seq<C>)
    ensures
        queue_run(QueueModel::<C, H>::Pending(q), calls_of::<C, H>(cs)) == (QueueModel::<C, H>::Pending(q + cs), Seq::<C>::empty()),
    decreases cs.len(),
{
    if cs.len() == 0 {
        assert(calls_of::<C, H>(cs) =~= Seq::empty());
        assert(q + cs =~= q);
    } else {
        assert(calls_of::<C, H>(cs).drop_last() =~= calls_of::<C, H>(cs.drop_last()));
        lemma_pending_calls::<C, H>(q, cs.drop_last());
        assert((q + cs.drop_last()).push(cs.last()) =~= q + cs);
        assert(Seq::<C>::empty() + Seq::<C>::empty() =~= Seq::<C>::empty());
    }
}

/// Calls on a resolved client are handed on one by one, in order.
pub proof fn lemma_resolved_calls<C, H>(h: H, cs: Seq<C>)
    ensures
        queue_run(QueueModel::<C, H>::Resolved(h), calls_of::<C, H>(cs)) == (QueueModel::<C, H>::Resolved(h), cs),
    decreases cs.len(),
{
    if cs.len() == 0 {
        assert(calls_of::<C, H>(cs) =~= Seq::empty());
        assert(cs =~= Seq::<C>::empty());
    } else {
        assert(calls_of::<C, H>(cs).drop_last() =~= calls_of::<C, H>(cs.drop_last()));
        lemma_resolved_calls::<C, H>(h, cs.drop_last());
        assert(cs.drop_last() + seq![cs.last()] =~= cs);
    }
}

/// Queue preservation: the calls made on a fresh queued client before its
/// resolution reach the backing hook in the order they were made, and all
/// of them before any call made after the resolution.
pub proof fn lemma_queue_preservation<C, H>(before: Seq<C>, h: H, after: Seq<C>)
    ensures
        queue_run(
            QueueModel::<C, H>::Pending(Seq::empty()),
            calls_of::<C, H>(before) + seq![QueueEvent::Resolve(h)] + calls_of::<C, H>(after),
        ) == (QueueModel::<C, H>::Resolved(h), before + after),
{
    let m0 = QueueModel::<C, H>::Pending(Seq::empty());
    let pre = calls_of::<C, H>(before);
    let mid = seq![QueueEvent::<C, H>::Resolve(h)];
    let post = calls_of::<C, H>(after);
    lemma_pending_calls::<C, H>(Seq::empty(), before);
    assert(Seq::<C>::empty() + before =~= before);
    lemma_queue_run_append(m0, pre, mid);
    assert(mid.drop_last() =~= Seq::<QueueEvent<C, H>>::empty());
    let m1 = QueueModel::<C, H>::Pending(before);
    assert(queue_run(m1, mid.drop_last()) == (m1, Seq::<C>::empty()));
    assert(queue_run(m1, mid) == (QueueModel::<C, H>::Resolved(h), Seq::<C>::empty() + before));
    assert(Seq::<C>::empty() + before =~= before);
    assert(queue_run(m0, pre + mid) == (QueueModel::<C, H>::Resolved(h), Seq::<C>::empty() + before));
    lemma_queue_run_append(m0, pre + mid, post);
    lemma_resolved_calls::<C, H>(h, after);
}

/// The state of a queued client.
pub enum QueuedState<C, H> {
    Pending(Vec<C>),
    Resolved(H),
    Broken(Error),
}

/// What became of one call on a queued client.
pub enum Delivery<C> {
    /// The call waits in the queue.
    Queued,
    /// The call goes to the backing hook now.
    Forward(C),
    /// The call fails with the client's error.
    Fail(C),
}

/// A client whose backing hook is not known yet: calls made before the
/// resolution are kept and replayed in their order once it comes.
pub struct QueuedClient<C, H> {
    pub state: QueuedState<C, H>,
}

impl<C, H> View for QueuedClient<C, H> {
    type V = QueueModel<C, H>;

    open spec fn view(&self) -> QueueModel<C, H> {
        match self.state {
            QueuedState::Pending(q) => QueueModel::Pending(q@),
            QueuedState::Resolved(h) => QueueModel::Resolved(h),
            QueuedState::Broken(e) => QueueModel::Broken(e@),
        }
    }
}

impl<C, H> QueuedClient<C, H> {
    pub fn new() -> (r: Self)
        ensures
            r@ == QueueModel::<C, H>::Pending(Seq::empty()),
    {
        QueuedClient { state: QueuedState::Pending(Vec::new()) }
    }

    /// Makes a call on the client.
    pub fn call(&mut self, c: C) -> (r: Delivery<C>)
        ensures
            ({
                let (m, handed) = queue_step(old(self)@, QueueEvent::Call(c));
                &&& final(self)@ == m
                &&& match r {
                    Delivery::Queued => old(self)@ is Pending && handed.len() == 0,
                    Delivery::Forward(f) => old(self)@ is Resolved && f == c && handed == seq![c],
                    Delivery::Fail(f) => old(self)@ is Broken && f == c && handed.len() == 0,
                }
            }),
    {
        match &mut self.state {
            QueuedState::Pending(q) => {
                q.push(c);
                Delivery::Queued
            },
            QueuedState::Resolved(_) => Delivery::Forward(c),
            QueuedState::Broken(_) => Delivery::Fail(c),
        }
    }

    /// Resolves the client to its backing hook; returns the queued calls, to
    /// be handed to that hook in this order. A client that is no longer
    /// pending stays as it was.
    pub fn resolve(&mut self, h: H) -> (r: Vec<C>)
        ensures
            (final(self)@, r@) == queue_step(old(self)@, QueueEvent::Resolve(h)),
    {
        if let QueuedState::Pending(_) = &self.state {
            let mut st = QueuedState::Resolved(h);
            std::mem::swap(&mut self.state, &mut st);
            match st {
                QueuedState::Pending(q) => q,
                _ => Vec::new(),
            }
        } else {
            Vec::new()
        }
    }

    /// Breaks the client; returns the queued calls, which fail with `err`.
    /// A client that is no longer pending stays as it was.
    pub fn fail(&mut self, err: Error) -> (r: Vec<C>)
        ensures
            final(self)@ == queue_step(old(self)@, QueueEvent::Fail(err@)).0,
            match old(self)@ {
                QueueModel::Pending(q) => r@ == q,
                _ => r@.len() == 0,
            },
    {
        if let QueuedState::Pending(_) = &self.state {
            let mut st = QueuedState::Broken(err);
            std::mem::swap(&mut self.state, &mut st);
            match st {
                QueuedState::Pending(q) => q,
                _ => Vec::new(),
            }
        } else {
            Vec::new()
        }
    }
}

} // verus!
