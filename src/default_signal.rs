use vstd::prelude::*;

use crate::poll::{absorbs, may_report, PollSignal, SignalPoll};

verus! {

/// A signal of `value_signal` when there is one; otherwise a signal that
/// produces `default` once and then ends.
pub struct DefaultSignal<S, T> {
    /// Holds the default until it has been handed out.
    default: Option<T>,
    value_signal: Option<S>,
}

impl<S, T> DefaultSignal<S, T> {
    /// The default, while it has not been handed out.
    pub closed spec fn pending_default(&self) -> Option<T> {
        self.default
    }

    /// The wrapped signal, if any.
    pub closed spec fn inner(&self) -> Option<S> {
        self.value_signal
    }

    pub fn new(default: T, value_signal: Option<S>) -> (r: Self)
        ensures
            r.pending_default() == Some(default),
            r.inner() == value_signal,
    {
        DefaultSignal { default: Some(default), value_signal }
    }
}

impl<S: PollSignal<Item = T>, T> PollSignal for DefaultSignal<S, T> {
    type Item = T;

    /// With a wrapped signal, a poll is a poll of it; without one, the first
    /// poll hands out the default and every later one reports `Finished`.
    open spec fn poll_step(&self, r: SignalPoll<T>, next: Self) -> bool {
        match self.inner() {
            Some(s) => {
                &&& next.pending_default() == self.pending_default()
                &&& next.inner() is Some
                &&& s.poll_step(r, next.inner()->Some_0)
            },
            None => {
                &&& next.inner() is None
                &&& next.pending_default() is None
                &&& r == match self.pending_default() {
                    Some(d) => SignalPoll::Changed(d),
                    None => SignalPoll::Finished,
                }
            },
        }
    }

    open spec fn finished(&self) -> bool {
        match self.inner() {
            Some(s) => s.finished(),
            None => self.pending_default() is None,
        }
    }

    fn poll_change(&mut self, waker: &std::task::Waker) -> (r: SignalPoll<T>) {
        match &mut self.value_signal {
            Some(s) => s.poll_change(waker),
            None => match self.default.take() {
                Some(d) => SignalPoll::Changed(d),
                None => SignalPoll::Finished,
            },
        }
    }
}

/// Without a wrapped signal, the first poll produces the default and every
/// later poll reports `Finished`.
pub proof fn lemma_default_without_signal<S: PollSignal<Item = T>, T>(
    d: T,
    s: DefaultSignal<S, T>,
    rs: Seq<SignalPoll<T>>,
)
    requires
        s.inner() is None,
        s.pending_default() == Some(d),
        may_report(s, rs),
        rs.len() > 0,
    ensures
        rs[0] == SignalPoll::Changed(d),
        forall|i: int| 1 <= i < rs.len() ==> rs[i] is Finished,
{
    let n = choose|n: DefaultSignal<S, T>| #[trigger]
        s.poll_step(rs[0], n) && may_report(n, rs.drop_first());
    assert forall|i: int| 1 <= i < rs.len() implies rs[i] is Finished by {
        lemma_spent_default_run(n, rs.drop_first(), i - 1);
    }
}

/// Once the default has been handed out, with no wrapped signal, every
/// report is `Finished`.
proof fn lemma_spent_default_run<S: PollSignal<Item = T>, T>(
    s: DefaultSignal<S, T>,
    rs: Seq<SignalPoll<T>>,
    j: int,
)
    requires
        s.inner() is None,
        s.pending_default() is None,
        may_report(s, rs),
        0 <= j < rs.len(),
    ensures
        rs[j] is Finished,
    decreases rs.len(),
{
    let n = choose|n: DefaultSignal<S, T>| #[trigger]
        s.poll_step(rs[0], n) && may_report(n, rs.drop_first());
    if j > 0 {
        lemma_spent_default_run(n, rs.drop_first(), j - 1);
    }
}

/// With a wrapped signal, the runs of reports are exactly those of the
/// wrapped signal polled directly.
pub proof fn lemma_default_forwards<S: PollSignal<Item = T>, T>(
    s: DefaultSignal<S, T>,
    rs: Seq<SignalPoll<T>>,
)
    requires
        s.inner() is Some,
    ensures
        may_report(s, rs) <==> may_report(s.inner()->Some_0, rs),
    decreases rs.len(),
{
    if rs.len() > 0 {
        let i = s.inner()->Some_0;
        if may_report(s, rs) {
            let n = choose|n: DefaultSignal<S, T>| #[trigger]
                s.poll_step(rs[0], n) && may_report(n, rs.drop_first());
            lemma_default_forwards(n, rs.drop_first());
            assert(i.poll_step(rs[0], n.inner()->Some_0));
        }
        if may_report(i, rs) {
            let ni = choose|ni: S| #[trigger] i.poll_step(rs[0], ni) && may_report(ni, rs.drop_first());
            let n = DefaultSignal { default: s.default, value_signal: Some(ni) };
            lemma_default_forwards(n, rs.drop_first());
            assert(s.poll_step(rs[0], n));
        }
    }
}

/// Over wrapped signals that never come back from their end, a
/// `DefaultSignal` never does either.
pub proof fn lemma_default_absorbs<S: PollSignal<Item = T>, T>()
    requires
        absorbs::<S>(),
    ensures
        absorbs::<DefaultSignal<S, T>>(),
{
    assert forall|s: DefaultSignal<S, T>, r: SignalPoll<T>, n: DefaultSignal<S, T>| #[trigger]
        s.poll_step(r, n) implies (r is Finished ==> n.finished()) && (s.finished() ==> r is Finished
        && n.finished()) by {
        if s.inner() is Some {
            assert(s.inner()->Some_0.poll_step(r, n.inner()->Some_0));
        }
    }
}

} // verus!
