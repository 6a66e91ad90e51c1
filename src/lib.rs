//! Combinators over polled signals: a default value in place of a missing
//! signal, a signal lifted to optional values, a two-way choice of signals,
//! and factories that make a fresh signal on each call.

pub mod default_signal;
pub mod either_signal;
pub mod factory;
pub mod option_signal;
pub mod poll;

pub use default_signal::DefaultSignal;
pub use either_signal::EitherSignal;
pub use factory::{box_signal_fn, rc_signal_fn, BoxSignalFn, RcSignalFn};
pub use option_signal::OptionSignal;
pub use poll::{PollSignal, SignalPoll};
