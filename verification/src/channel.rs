//! What the library takes from outside crates: channel ends, shared pointers
//! and random numbers.

use crate::stream::Stream;
use futures::channel::{mpsc, oneshot};
use std::sync::Arc;
use vstd::prelude::*;

verus! {

/// The sending end of a bounded channel, `futures::channel::mpsc::Sender`.
///
/// A sender is identified with the channel that it feeds. What is waiting in
/// that channel is not part of its value.
#[verifier::external_type_specification]
#[verifier::external_body]
#[verifier::reject_recursive_types(T)]
pub struct ExMpscSender<T>(mpsc::Sender<T>);

/// The receiving end of a bounded channel, `futures::channel::mpsc::Receiver`.
#[verifier::external_type_specification]
#[verifier::external_body]
#[verifier::reject_recursive_types(T)]
pub struct ExMpscReceiver<T>(mpsc::Receiver<T>);

/// The end of a one-message channel that a reply is put into,
/// `futures::channel::oneshot::Sender`.
#[verifier::external_type_specification]
#[verifier::external_body]
#[verifier::reject_recursive_types(T)]
pub struct ExOneshotSender<T>(oneshot::Sender<T>);

/// The number of messages that a channel holds beyond one for each sender.
pub const CHANNEL_SIZE: usize = 10;

/// Whether `tx` and `rx` are the two ends of one data channel that was made
/// with this buffer: what is put into `tx` comes out of `rx`.
pub uninterp spec fn data_channel_ends(
    buffer: usize,
    tx: mpsc::Sender<Vec<u8>>,
    rx: mpsc::Receiver<Vec<u8>>,
) -> bool;

/// Whether `tx` and `rx` are the two ends of one channel of streams that was
/// made with this buffer: what is put into `tx` comes out of `rx`.
pub uninterp spec fn stream_channel_ends(
    buffer: usize,
    tx: mpsc::Sender<Stream>,
    rx: mpsc::Receiver<Stream>,
) -> bool;

/// `futures::channel::mpsc::channel` makes a new bounded channel, here one for
/// data, and returns its two ends.
///
/// It panics on a buffer of a quarter of `usize::MAX` or more, which the
/// precondition leaves out. That no other channel has these ends is left
/// unsaid.
#[verifier::external_body]
pub(crate) fn data_channel(buffer: usize) -> (ends: (
    mpsc::Sender<Vec<u8>>,
    mpsc::Receiver<Vec<u8>>,
))
    requires
        buffer < usize::MAX / 4,
    ensures
        data_channel_ends(buffer, ends.0, ends.1),
{
    mpsc::channel(buffer)
}

/// `futures::channel::mpsc::channel` makes a new bounded channel, here one for
/// streams, and returns its two ends. As with [`data_channel`], a buffer on
/// which it panics is left out, and that the channel is a new one is left
/// unsaid.
#[verifier::external_body]
pub(crate) fn stream_channel(buffer: usize) -> (ends: (
    mpsc::Sender<Stream>,
    mpsc::Receiver<Stream>,
))
    requires
        buffer < usize::MAX / 4,
    ensures
        stream_channel_ends(buffer, ends.0, ends.1),
{
    mpsc::channel(buffer)
}

/// `clone` of `futures::channel::mpsc::Sender` returns another sending end of
/// the same channel.
///
/// It panics when the channel has as many senders as it can count, about half
/// of `usize::MAX`; memory runs out long before.
pub assume_specification<T>[ <mpsc::Sender<T> as Clone>::clone ](sender: &mpsc::Sender<T>) -> (other:
    mpsc::Sender<T>)
    ensures
        other == *sender,
;

/// `Arc::clone` returns another pointer to the same value.
#[verifier::external_body]
pub(crate) fn share<T>(value: &Arc<T>) -> (other: Arc<T>)
    ensures
        other == *value,
{
    Arc::clone(value)
}

/// `rand::random` returns a random number. Nothing is promised of it.
///
/// It panics where the operating system gives no randomness to seed the
/// generator with, which no argument decides.
#[verifier::external_body]
pub(crate) fn random_u32() -> (n: u32) {
    rand::random()
}

} // verus!
