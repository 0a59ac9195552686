//! The bounded channels and the signal of `embassy_sync` that the layer keeps
//! its pending work in.
//!
//! Each is held in a private field of a type of this crate and is reached
//! through `&mut` only, so between two calls nobody else sends or receives:
//! what a channel holds is then a sequence that only these calls change.
use crate::hci::PacketKind;
use embassy_sync::blocking_mutex::raw::CriticalSectionRawMutex;
use embassy_sync::channel::Channel;
use embassy_sync::signal::Signal;
use vstd::prelude::*;

verus! {

/// How many events one backing channel holds.
pub const EVENT_CHANNEL_DEPTH: usize = 16;

/// The backing channel of an event queue: an `embassy_sync` `Channel` of
/// capacity sixteen that holds event handles in the order in which they were
/// sent. Nothing is known of it but what the functions below state.
#[verifier::external_body]
pub struct EventChannel {
    inner: Channel<CriticalSectionRawMutex, usize, 16>,
}

/// The notification channel of the read buffer: an `embassy_sync` `Channel` of
/// capacity one that holds packet kinds. Nothing is known of it but what the
/// functions below state.
#[verifier::external_body]
pub struct ReadChannel {
    inner: Channel<CriticalSectionRawMutex, PacketKind, 1>,
}

/// The command-completion signal: an `embassy_sync` `Signal` without payload,
/// raised or not. Nothing is known of it but what the functions below state.
#[verifier::external_body]
pub struct CommandSignal {
    inner: Signal<CriticalSectionRawMutex, ()>,
}

/// The handles that an event channel holds, oldest first.
pub uninterp spec fn event_channel_items(ch: EventChannel) -> Seq<usize>;

/// The kinds that a read channel holds, oldest first.
pub uninterp spec fn read_channel_items(ch: ReadChannel) -> Seq<PacketKind>;

/// Whether a command signal is raised.
pub uninterp spec fn command_signal_raised(sig: CommandSignal) -> bool;

/// Calls `Channel::new`, which makes an empty channel.
#[verifier::external_body]
pub(crate) fn event_channel_new() -> (ch: EventChannel)
    ensures
        event_channel_items(ch) == Seq::<usize>::empty(),
{
    EventChannel { inner: Channel::new() }
}

/// Calls `Channel::try_send`: below capacity the message goes to the back of the
/// queue; at capacity the channel refuses it and stays as it was.
#[verifier::external_body]
pub(crate) fn event_channel_try_send(ch: &mut EventChannel, item: usize) -> (sent: bool)
    ensures
        sent == (event_channel_items(*old(ch)).len() < EVENT_CHANNEL_DEPTH),
        sent ==> event_channel_items(*final(ch)) == event_channel_items(*old(ch)).push(item),
        !sent ==> event_channel_items(*final(ch)) == event_channel_items(*old(ch)),
{
    ch.inner.try_send(item).is_ok()
}

/// Calls `Channel::try_receive`: the message at the front leaves the queue and
/// is returned; an empty channel gives nothing and stays empty.
#[verifier::external_body]
pub(crate) fn event_channel_try_receive(ch: &mut EventChannel) -> (item: Option<usize>)
    ensures
        event_channel_items(*old(ch)).len() == 0 ==> item.is_none() && event_channel_items(
            *final(ch),
        ) == event_channel_items(*old(ch)),
        event_channel_items(*old(ch)).len() > 0 ==> item == Some(event_channel_items(*old(ch))[0])
            && event_channel_items(*final(ch)) == event_channel_items(*old(ch)).drop_first(),
{
    ch.inner.try_receive().ok()
}

/// Calls `Channel::new`, which makes an empty channel.
#[verifier::external_body]
pub(crate) fn read_channel_new() -> (ch: ReadChannel)
    ensures
        read_channel_items(ch) == Seq::<PacketKind>::empty(),
{
    ReadChannel { inner: Channel::new() }
}

/// Calls `Channel::try_send` on the channel of capacity one: an empty channel
/// takes the message; an occupied one refuses it and stays as it was.
#[verifier::external_body]
pub(crate) fn read_channel_try_send(ch: &mut ReadChannel, kind: PacketKind) -> (sent: bool)
    ensures
        sent == (read_channel_items(*old(ch)).len() < 1),
        sent ==> read_channel_items(*final(ch)) == read_channel_items(*old(ch)).push(kind),
        !sent ==> read_channel_items(*final(ch)) == read_channel_items(*old(ch)),
{
    ch.inner.try_send(kind).is_ok()
}

/// Calls `Channel::try_receive`: the message at the front leaves the queue and
/// is returned; an empty channel gives nothing and stays empty.
#[verifier::external_body]
pub(crate) fn read_channel_try_receive(ch: &mut ReadChannel) -> (kind: Option<PacketKind>)
    ensures
        read_channel_items(*old(ch)).len() == 0 ==> kind.is_none() && read_channel_items(
            *final(ch),
        ) == read_channel_items(*old(ch)),
        read_channel_items(*old(ch)).len() > 0 ==> kind == Some(read_channel_items(*old(ch))[0])
            && read_channel_items(*final(ch)) == read_channel_items(*old(ch)).drop_first(),
{
    ch.inner.try_receive().ok()
}

/// Calls `Channel::is_full`: whether the channel holds as many messages as its
/// capacity, here one.
#[verifier::external_body]
pub(crate) fn read_channel_is_full(ch: &ReadChannel) -> (full: bool)
    ensures
        full == (read_channel_items(*ch).len() >= 1),
{
    ch.inner.is_full()
}

/// Calls `Signal::new`, which makes a signal that is not raised.
#[verifier::external_body]
pub(crate) fn command_signal_new() -> (sig: CommandSignal)
    ensures
        !command_signal_raised(sig),
{
    CommandSignal { inner: Signal::new() }
}

/// Calls `Signal::signal`, which leaves the signal raised.
#[verifier::external_body]
pub(crate) fn command_signal_raise(sig: &mut CommandSignal)
    ensures
        command_signal_raised(*final(sig)),
{
    sig.inner.signal(());
}

/// Calls `Signal::try_take`: a raised signal is taken and lowered; one that is
/// not raised stays so.
#[verifier::external_body]
pub(crate) fn command_signal_try_take(sig: &mut CommandSignal) -> (taken: bool)
    ensures
        taken == command_signal_raised(*old(sig)),
        !command_signal_raised(*final(sig)),
{
    sig.inner.try_take().is_some()
}

} // verus!
