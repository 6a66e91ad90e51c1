use std::task::Waker;

use dominator_helpers::{
    box_signal_fn, rc_signal_fn, DefaultSignal, EitherSignal, OptionSignal, PollSignal,
    SignalPoll,
};

/// Produces its value once, then ends.
struct ConstSignal<T> {
    value: Option<T>,
}

impl<T> ConstSignal<T> {
    fn new(value: T) -> Self {
        ConstSignal { value: Some(value) }
    }
}

impl<T> PollSignal for ConstSignal<T> {
    type Item = T;

    fn poll_change(&mut self, _waker: &Waker) -> SignalPoll<T> {
        match self.value.take() {
            Some(v) => SignalPoll::Changed(v),
            None => SignalPoll::Finished,
        }
    }
}

/// Reports the given polls in order, then `Finished` for ever.
struct Scripted<T> {
    polls: Vec<SignalPoll<T>>,
    next: usize,
}

impl<T: Clone> PollSignal for Scripted<T> {
    type Item = T;

    fn poll_change(&mut self, _waker: &Waker) -> SignalPoll<T> {
        if self.next < self.polls.len() {
            self.next += 1;
            self.polls[self.next - 1].clone()
        } else {
            SignalPoll::Finished
        }
    }
}

fn scripted<T>(polls: Vec<SignalPoll<T>>) -> Scripted<T> {
    Scripted { polls, next: 0 }
}

fn signal_emitting<T>(values: Vec<T>) -> Scripted<T> {
    scripted(values.into_iter().map(SignalPoll::Changed).collect())
}

fn run<S: PollSignal>(s: &mut S, n: usize) -> Vec<SignalPoll<S::Item>> {
    let waker = Waker::noop();
    (0..n).map(|_| s.poll_change(waker)).collect()
}

#[test]
fn default_without_signal_gives_default_then_finishes() {
    let mut s = DefaultSignal::new(42, None::<ConstSignal<i32>>);
    assert_eq!(
        run(&mut s, 2),
        vec![SignalPoll::Changed(42), SignalPoll::Finished]
    );
}

#[test]
fn default_without_signal_stays_finished() {
    let mut s = DefaultSignal::new("d".to_string(), None::<ConstSignal<String>>);
    assert_eq!(
        run(&mut s, 5),
        vec![
            SignalPoll::Changed("d".to_string()),
            SignalPoll::Finished,
            SignalPoll::Finished,
            SignalPoll::Finished,
            SignalPoll::Finished,
        ]
    );
}

#[test]
fn default_with_signal_passes_every_poll_through() {
    let script = vec![
        SignalPoll::Changed(1),
        SignalPoll::Pending,
        SignalPoll::Changed(2),
        SignalPoll::Pending,
        SignalPoll::Finished,
    ];
    let mut direct = scripted(script.clone());
    let mut s = DefaultSignal::new(42, Some(scripted(script.clone())));
    let through = run(&mut s, 7);
    assert_eq!(through, run(&mut direct, 7));
    assert_eq!(&through[..5], &script[..]);
    assert!(!through.contains(&SignalPoll::Changed(42)));
}

#[test]
fn option_without_signal_gives_none_then_finishes() {
    let mut s = OptionSignal::new(None::<ConstSignal<i32>>);
    assert_eq!(
        run(&mut s, 3),
        vec![
            SignalPoll::Changed(None),
            SignalPoll::Finished,
            SignalPoll::Finished,
        ]
    );
}

#[test]
fn option_with_signal_emitting_two_values() {
    let mut s = OptionSignal::new(Some(signal_emitting(vec![1, 2])));
    assert_eq!(
        run(&mut s, 3),
        vec![
            SignalPoll::Changed(Some(1)),
            SignalPoll::Changed(Some(2)),
            SignalPoll::Finished,
        ]
    );
}

#[test]
fn option_with_signal_keeps_pending_and_finish() {
    let mut s = OptionSignal::new(Some(scripted(vec![
        SignalPoll::Pending,
        SignalPoll::Changed('a'),
        SignalPoll::Pending,
    ])));
    assert_eq!(
        run(&mut s, 5),
        vec![
            SignalPoll::Pending,
            SignalPoll::Changed(Some('a')),
            SignalPoll::Pending,
            SignalPoll::Finished,
            SignalPoll::Finished,
        ]
    );
}

#[test]
fn either_left_polls_like_its_signal() {
    let script = vec![SignalPoll::Changed(5), SignalPoll::Pending, SignalPoll::Changed(6)];
    let mut direct = scripted(script.clone());
    let mut s: EitherSignal<Scripted<i32>, ConstSignal<i32>> =
        EitherSignal::Left(scripted(script));
    assert_eq!(run(&mut s, 5), run(&mut direct, 5));
}

#[test]
fn either_right_polls_like_its_signal() {
    let mut s: EitherSignal<Scripted<i32>, ConstSignal<i32>> =
        EitherSignal::Right(ConstSignal::new(9));
    assert_eq!(
        run(&mut s, 3),
        vec![SignalPoll::Changed(9), SignalPoll::Finished, SignalPoll::Finished]
    );
}

type Picked = EitherSignal<ConstSignal<u8>, DefaultSignal<Scripted<u8>, u8>>;

fn pick(source: Option<Vec<u8>>) -> Picked {
    match source {
        None => EitherSignal::Left(ConstSignal::new(0)),
        Some(values) => EitherSignal::Right(DefaultSignal::new(0, Some(signal_emitting(values)))),
    }
}

#[test]
fn either_picks_constant_or_derived() {
    let mut constant = pick(None);
    assert_eq!(run(&mut constant, 2), vec![SignalPoll::Changed(0), SignalPoll::Finished]);
    let mut derived = pick(Some(vec![7, 8]));
    assert_eq!(
        run(&mut derived, 3),
        vec![SignalPoll::Changed(7), SignalPoll::Changed(8), SignalPoll::Finished]
    );
}

#[test]
fn rc_factory_makes_independent_signals() {
    let f = rc_signal_fn(|| signal_emitting(vec![true]));
    let g = f.clone();
    let mut a = f.call();
    let mut b = g.call();
    assert_eq!(run(&mut a, 1), vec![SignalPoll::Changed(true)]);
    assert_eq!(run(&mut b, 2), vec![SignalPoll::Changed(true), SignalPoll::Finished]);
    assert_eq!(run(&mut a, 2), vec![SignalPoll::Finished, SignalPoll::Finished]);
}

#[test]
fn box_factory_makes_fresh_signals() {
    let f = box_signal_fn(|| signal_emitting(vec![3, 4]));
    let mut a = f.call();
    assert_eq!(run(&mut a, 1), vec![SignalPoll::Changed(3)]);
    let mut b = f.call();
    let mut direct = signal_emitting(vec![3, 4]);
    assert_eq!(run(&mut b, 3), run(&mut direct, 3));
    assert_eq!(run(&mut a, 2), vec![SignalPoll::Changed(4), SignalPoll::Finished]);
}

#[test]
fn combinators_stay_finished() {
    let mut d = DefaultSignal::new(0, Some(ConstSignal::new(1)));
    assert_eq!(
        run(&mut d, 4),
        vec![
            SignalPoll::Changed(1),
            SignalPoll::Finished,
            SignalPoll::Finished,
            SignalPoll::Finished,
        ]
    );
    let mut o = OptionSignal::new(Some(DefaultSignal::new(8, None::<ConstSignal<i32>>)));
    assert_eq!(
        run(&mut o, 3),
        vec![SignalPoll::Changed(Some(8)), SignalPoll::Finished, SignalPoll::Finished]
    );
    let mut e: EitherSignal<ConstSignal<i32>, ConstSignal<i32>> =
        EitherSignal::Left(ConstSignal::new(2));
    assert_eq!(
        run(&mut e, 3),
        vec![SignalPoll::Changed(2), SignalPoll::Finished, SignalPoll::Finished]
    );
}
