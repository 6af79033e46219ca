//! Verified core of a bridge from publish/subscribe channels to a live
//! packet-capture stream.
//!
//! A capture subscribes to a list of channels, turns every message that a
//! channel delivers into one packet record and appends the records to a
//! single sink, which opens with the global header of the capture format.
//! One subscriber works for each channel; all of them feed one queue, and one
//! sink writer empties it. A controller waits for the stop signal, cancels
//! the workers and waits for them to end.
//!
//! The crate holds the decisions and the framing; the caller holds the
//! sockets, the queue, the sink and the clock. Each worker is a value with a
//! `step` function from an event to an action: the caller waits for the
//! event, hands it in and carries the action out.
//!
//! - [`format`]: the bytes of the global header and of a packet record.
//! - [`clock`]: readings of the monotonic clock and the time between two.
//! - [`startup`]: the steps before the workers run, and how they fail.
//! - [`subscriber`]: the channel subscriber.
//! - [`writer`]: the sink writer.
//! - [`controller`]: the lifecycle controller.
//! - [`pipeline`]: how a capture starts, and what holds of the pipeline as a
//!   whole: one header, order within a channel, nothing lost, fault
//!   isolation, shutdown.
//! - [`cli`]: the options of the capture program.

pub mod cli;
pub mod clock;
pub mod controller;
pub mod format;
pub mod pipeline;
pub mod startup;
pub mod subscriber;
pub mod worker;
pub mod writer;
