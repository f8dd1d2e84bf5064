//! Fan-in draining of many channels into one consuming loop.
//!
//! A [`registry::ChannelRegistry`] holds the receivers, each under a fixed slot
//! index. A [`waiter::MultiplexedWaiter`] blocks until one of the slots that are
//! still active is ready. A [`engine::DrainEngine`] decides what each read means:
//! hand the message to the slot's handler, retire the slot once its channel is
//! closed and empty, or wait again. The session is done once every slot has
//! been retired.
pub mod engine;
pub mod registry;
pub mod waiter;
