use vstd::prelude::*;

verus! {

/// What one poll of a signal reports.
#[derive(Debug, Clone, PartialEq, Eq)]
pub enum SignalPoll<T> {
    /// The signal produced a new value.
    Changed(T),
    /// No value yet; the waker handed to the poll is woken when there is one.
    Pending,
    /// The signal has ended and produces nothing more.
    Finished,
}

/// `std::task::Waker`, which polls hand on to the signals they drive;
/// it is carried through and never looked into.
#[verifier::external_type_specification]
#[verifier::external_body]
pub struct ExWaker(std::task::Waker);

/// A signal: a producer of values over time that is driven by polling.
///
/// `poll_step` is the model of one poll: it holds of a state before the poll,
/// the report, and the state after it. A signal that is driven by the outside
/// world may allow several outcomes from one state.
///
/// A signal that has reported `Finished` is not meant to be polled again;
/// where it is, the signals of this library report `Finished` once more
/// (the combinators do so whenever the signals they wrap do).
pub trait PollSignal: Sized {
    type Item;

    /// One poll of `self` may report `r` and leave the signal as `next`.
    /// A signal that states nothing of itself allows every outcome.
    open spec fn poll_step(&self, r: SignalPoll<Self::Item>, next: Self) -> bool {
        true
    }

    /// The signal is past its end: polls report nothing but `Finished`.
    open spec fn finished(&self) -> bool {
        false
    }

    /// Polls once; `waker` is woken when a `Pending` signal has news.
    fn poll_change(&mut self, waker: &std::task::Waker) -> (r: SignalPoll<Self::Item>)
        ensures
            old(self).poll_step(r, *final(self)),
    ;
}

/// `rs` is a run of reports that successive polls of `s` may give.
pub open spec fn may_report<S: PollSignal>(s: S, rs: Seq<SignalPoll<S::Item>>) -> bool
    decreases rs.len(),
{
    rs.len() == 0 || exists|n: S| #[trigger]
        s.poll_step(rs[0], n) && may_report(n, rs.drop_first())
}

/// Signals of type `S` never come back from their end: a poll that reports
/// `Finished` leaves the signal finished, and a finished signal reports
/// `Finished` again.
pub open spec fn absorbs<S: PollSignal>() -> bool {
    forall|s: S, r: SignalPoll<S::Item>, n: S| #[trigger]
        s.poll_step(r, n) ==> (r is Finished ==> n.finished()) && (s.finished() ==> r is Finished
            && n.finished())
}

/// In a run of a signal whose type never comes back from its end, every
/// report after a `Finished` is `Finished` too.
pub proof fn lemma_finished_stays<S: PollSignal>(s: S, rs: Seq<SignalPoll<S::Item>>, i: int, j: int)
    requires
        absorbs::<S>(),
        may_report(s, rs),
        0 <= i <= j < rs.len(),
        rs[i] is Finished,
    ensures
        rs[j] is Finished,
    decreases rs.len(),
{
    let n = choose|n: S| #[trigger] s.poll_step(rs[0], n) && may_report(n, rs.drop_first());
    if i > 0 {
        lemma_finished_stays(n, rs.drop_first(), i - 1, j - 1);
    } else if j > 0 {
        lemma_finished_run(n, rs.drop_first(), j - 1);
    }
}

/// A run of a finished signal whose type never comes back from its end
/// reports `Finished` throughout.
proof fn lemma_finished_run<S: PollSignal>(s: S, rs: Seq<SignalPoll<S::Item>>, j: int)
    requires
        absorbs::<S>(),
        may_report(s, rs),
        s.finished(),
        0 <= j < rs.len(),
    ensures
        rs[j] is Finished,
    decreases rs.len(),
{
    let n = choose|n: S| #[trigger] s.poll_step(rs[0], n) && may_report(n, rs.drop_first());
    if j > 0 {
        lemma_finished_run(n, rs.drop_first(), j - 1);
    }
}

} // verus!
