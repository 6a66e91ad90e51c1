use vstd::prelude::*;

use crate::poll::{absorbs, may_report, PollSignal, SignalPoll};

verus! {

/// A signal of `Some(v)` for each value `v` of `value_signal` when there is
/// one; otherwise a signal that produces `None` once and then ends.
#[verifier::reject_recursive_types(T)]
pub struct OptionSignal<S, T> where S: PollSignal<Item = T> {
    value_signal: Option<S>,
    const_has_fired: bool,
}

/// The report of an `OptionSignal` for a report `r` of its wrapped signal.
pub open spec fn lift_report<T>(r: SignalPoll<T>) -> SignalPoll<Option<T>> {
    match r {
        SignalPoll::Changed(v) => SignalPoll::Changed(Some(v)),
        SignalPoll::Pending => SignalPoll::Pending,
        SignalPoll::Finished => SignalPoll::Finished,
    }
}

impl<S, T> OptionSignal<S, T> where S: PollSignal<Item = T> {
    /// The wrapped signal, if any.
    pub closed spec fn inner(&self) -> Option<S> {
        self.value_signal
    }

    /// Whether the lone `None` has been handed out.
    pub closed spec fn fired(&self) -> bool {
        self.const_has_fired
    }

    pub fn new(value_signal: Option<S>) -> (r: Self)
        ensures
            r.inner() == value_signal,
            !r.fired(),
    {
        OptionSignal { value_signal, const_has_fired: false }
    }
}

impl<S, T> PollSignal for OptionSignal<S, T> where S: PollSignal<Item = T> {
    type Item = Option<T>;

    /// With a wrapped signal, a poll is a poll of it with each value `v` put
    /// in `Some`; without one, the first poll produces `None` and every
    /// later one reports `Finished`.
    open spec fn poll_step(&self, r: SignalPoll<Option<T>>, next: Self) -> bool {
        match self.inner() {
            Some(s) => {
                &&& next.fired() == self.fired()
                &&& next.inner() is Some
                &&& match r {
                    SignalPoll::Changed(Some(v)) => s.poll_step(
                        SignalPoll::Changed(v),
                        next.inner()->Some_0,
                    ),
                    SignalPoll::Changed(None) => false,
                    SignalPoll::Pending => s.poll_step(SignalPoll::Pending, next.inner()->Some_0),
                    SignalPoll::Finished => s.poll_step(SignalPoll::Finished, next.inner()->Some_0),
                }
            },
            None => {
                &&& next.inner() is None
                &&& next.fired()
                &&& r == if self.fired() {
                    SignalPoll::<Option<T>>::Finished
                } else {
                    SignalPoll::Changed(None)
                }
            },
        }
    }

    open spec fn finished(&self) -> bool {
        match self.inner() {
            Some(s) => s.finished(),
            None => self.fired(),
        }
    }

    fn poll_change(&mut self, waker: &std::task::Waker) -> (r: SignalPoll<Option<T>>) {
        match &mut self.value_signal {
            Some(s) => match s.poll_change(waker) {
                SignalPoll::Changed(v) => SignalPoll::Changed(Some(v)),
                SignalPoll::Pending => SignalPoll::Pending,
                SignalPoll::Finished => SignalPoll::Finished,
            },
            None => {
                if self.const_has_fired {
                    SignalPoll::Finished
                } else {
                    self.const_has_fired = true;
                    SignalPoll::Changed(None)
                }
            },
        }
    }
}

/// The reports of an `OptionSignal` for a run `rs` of its wrapped signal.
pub open spec fn lift_run<T>(rs: Seq<SignalPoll<T>>) -> Seq<SignalPoll<Option<T>>> {
    rs.map_values(|r: SignalPoll<T>| lift_report(r))
}

/// Without a wrapped signal, the first poll produces `None` and every later
/// poll reports `Finished`.
pub proof fn lemma_option_without_signal<S: PollSignal<Item = T>, T>(
    s: OptionSignal<S, T>,
    rs: Seq<SignalPoll<Option<T>>>,
)
    requires
        s.inner() is None,
        !s.fired(),
        may_report(s, rs),
        rs.len() > 0,
    ensures
        rs[0] == SignalPoll::<Option<T>>::Changed(None),
        forall|i: int| 1 <= i < rs.len() ==> rs[i] is Finished,
{
    let n = choose|n: OptionSignal<S, T>| #[trigger]
        s.poll_step(rs[0], n) && may_report(n, rs.drop_first());
    assert forall|i: int| 1 <= i < rs.len() implies rs[i] is Finished by {
        lemma_fired_run(n, rs.drop_first(), i - 1);
    }
}

/// Once the lone `None` has been handed out, with no wrapped signal, every
/// report is `Finished`.
proof fn lemma_fired_run<S: PollSignal<Item = T>, T>(
    s: OptionSignal<S, T>,
    rs: Seq<SignalPoll<Option<T>>>,
    j: int,
)
    requires
        s.inner() is None,
        s.fired(),
        may_report(s, rs),
        0 <= j < rs.len(),
    ensures
        rs[j] is Finished,
    decreases rs.len(),
{
    let n = choose|n: OptionSignal<S, T>| #[trigger]
        s.poll_step(rs[0], n) && may_report(n, rs.drop_first());
    if j > 0 {
        lemma_fired_run(n, rs.drop_first(), j - 1);
    }
}

/// With a wrapped signal, the runs of reports are exactly the runs of the
/// wrapped signal with each value `v` turned into `Some(v)`.
pub proof fn lemma_option_lifts<S: PollSignal<Item = T>, T>(
    s: OptionSignal<S, T>,
    rs: Seq<SignalPoll<T>>,
)
    requires
        s.inner() is Some,
    ensures
        may_report(s, lift_run(rs)) <==> may_report(s.inner()->Some_0, rs),
    decreases rs.len(),
{
    if rs.len() > 0 {
        let i = s.inner()->Some_0;
        let lifted = lift_run(rs);
        assert(lifted.drop_first() =~= lift_run(rs.drop_first()));
        assert(lifted[0] == lift_report(rs[0]));
        if may_report(s, lifted) {
            let n = choose|n: OptionSignal<S, T>| #[trigger]
                s.poll_step(lifted[0], n) && may_report(n, lifted.drop_first());
            lemma_option_lifts(n, rs.drop_first());
            assert(i.poll_step(rs[0], n.inner()->Some_0));
        }
        if may_report(i, rs) {
            let ni = choose|ni: S| #[trigger] i.poll_step(rs[0], ni) && may_report(ni, rs.drop_first());
            let n = OptionSignal { value_signal: Some(ni), const_has_fired: s.const_has_fired };
            lemma_option_lifts(n, rs.drop_first());
            assert(s.poll_step(lifted[0], n));
        }
    }
}

/// With a wrapped signal, no poll produces a bare `None`.
pub proof fn lemma_option_never_bare_none<S: PollSignal<Item = T>, T>(
    s: OptionSignal<S, T>,
    rs: Seq<SignalPoll<Option<T>>>,
    j: int,
)
    requires
        s.inner() is Some,
        may_report(s, rs),
        0 <= j < rs.len(),
    ensures
        rs[j] != SignalPoll::<Option<T>>::Changed(None),
    decreases rs.len(),
{
    let n = choose|n: OptionSignal<S, T>| #[trigger]
        s.poll_step(rs[0], n) && may_report(n, rs.drop_first());
    if j > 0 {
        lemma_option_never_bare_none(n, rs.drop_first(), j - 1);
    }
}

/// Over wrapped signals that never come back from their end, an
/// `OptionSignal` never does either.
pub proof fn lemma_option_absorbs<S: PollSignal<Item = T>, T>()
    requires
        absorbs::<S>(),
    ensures
        absorbs::<OptionSignal<S, T>>(),
{
    assert forall|s: OptionSignal<S, T>, r: SignalPoll<Option<T>>, n: OptionSignal<S, T>|
        #[trigger] s.poll_step(r, n) implies (r is Finished ==> n.finished()) && (s.finished()
        ==> r is Finished && n.finished()) by {
        if s.inner() is Some {
            let i = s.inner()->Some_0;
            let ni = n.inner()->Some_0;
            match r {
                SignalPoll::Changed(Some(v)) => {
                    assert(i.poll_step(SignalPoll::Changed(v), ni));
                },
                SignalPoll::Changed(None) => {},
                SignalPoll::Pending => {
                    assert(i.poll_step(SignalPoll::Pending, ni));
                },
                SignalPoll::Finished => {
                    assert(i.poll_step(SignalPoll::Finished, ni));
                },
            }
        }
    }
}

} // verus!
