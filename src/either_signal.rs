use vstd::prelude::*;

use crate::poll::{absorbs, may_report, PollSignal, SignalPoll};

verus! {

/// One of two signals with the same item type; polls go to the one held.
pub enum EitherSignal<Left, Right> {
    Left(Left),
    Right(Right),
}

impl<Left, Right> PollSignal for EitherSignal<Left, Right> where
    Left: PollSignal,
    Right: PollSignal<Item = Left::Item>,
 {
    type Item = Left::Item;

    /// A poll is a poll of the signal held, and the variant stays.
    open spec fn poll_step(&self, r: SignalPoll<Left::Item>, next: Self) -> bool {
        match (*self, next) {
            (EitherSignal::Left(a), EitherSignal::Left(b)) => a.poll_step(r, b),
            (EitherSignal::Right(a), EitherSignal::Right(b)) => a.poll_step(r, b),
            _ => false,
        }
    }

    open spec fn finished(&self) -> bool {
        match *self {
            EitherSignal::Left(a) => a.finished(),
            EitherSignal::Right(a) => a.finished(),
        }
    }

    fn poll_change(&mut self, waker: &std::task::Waker) -> (r: SignalPoll<Left::Item>) {
        match self {
            EitherSignal::Left(x) => x.poll_change(waker),
            EitherSignal::Right(x) => x.poll_change(waker),
        }
    }
}

/// Polling an `EitherSignal` gives exactly the runs of the signal it holds
/// polled directly.
pub proof fn lemma_either_forwards<Left, Right>(
    s: EitherSignal<Left, Right>,
    rs: Seq<SignalPoll<Left::Item>>,
) where Left: PollSignal, Right: PollSignal<Item = Left::Item>
    ensures
        match s {
            EitherSignal::Left(a) => may_report(s, rs) <==> may_report(a, rs),
            EitherSignal::Right(b) => may_report(s, rs) <==> may_report(b, rs),
        },
    decreases rs.len(),
{
    if rs.len() > 0 {
        if may_report(s, rs) {
            let n = choose|n: EitherSignal<Left, Right>| #[trigger]
                s.poll_step(rs[0], n) && may_report(n, rs.drop_first());
            lemma_either_forwards(n, rs.drop_first());
            match (s, n) {
                (EitherSignal::Left(a), EitherSignal::Left(na)) => {
                    assert(a.poll_step(rs[0], na));
                },
                (EitherSignal::Right(b), EitherSignal::Right(nb)) => {
                    assert(b.poll_step(rs[0], nb));
                },
                _ => {},
            }
        }
        match s {
            EitherSignal::Left(a) => {
                if may_report(a, rs) {
                    let na = choose|na: Left| #[trigger]
                        a.poll_step(rs[0], na) && may_report(na, rs.drop_first());
                    let n = EitherSignal::<Left, Right>::Left(na);
                    lemma_either_forwards(n, rs.drop_first());
                    assert(s.poll_step(rs[0], n));
                }
            },
            EitherSignal::Right(b) => {
                if may_report(b, rs) {
                    let nb = choose|nb: Right| #[trigger]
                        b.poll_step(rs[0], nb) && may_report(nb, rs.drop_first());
                    let n = EitherSignal::<Left, Right>::Right(nb);
                    lemma_either_forwards(n, rs.drop_first());
                    assert(s.poll_step(rs[0], n));
                }
            },
        }
    }
}

/// When neither kind of signal comes back from its end, an `EitherSignal`
/// over them does not either.
pub proof fn lemma_either_absorbs<Left, Right>() where
    Left: PollSignal,
    Right: PollSignal<Item = Left::Item>,

    requires
        absorbs::<Left>(),
        absorbs::<Right>(),
    ensures
        absorbs::<EitherSignal<Left, Right>>(),
{
    assert forall|s: EitherSignal<Left, Right>, r: SignalPoll<Left::Item>, n: EitherSignal<
        Left,
        Right,
    >| #[trigger] s.poll_step(r, n) implies (r is Finished ==> n.finished()) && (s.finished() ==> r
        is Finished && n.finished()) by {
        match (s, n) {
            (EitherSignal::Left(a), EitherSignal::Left(na)) => {
                assert(a.poll_step(r, na));
            },
            (EitherSignal::Right(b), EitherSignal::Right(nb)) => {
                assert(b.poll_step(r, nb));
            },
            _ => {},
        }
    }
}

} // verus!
