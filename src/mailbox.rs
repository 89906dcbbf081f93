//! The mailbox: the send side of a message channel that background work
//! reports through, and the wake-up that makes the host run another frame.
use std::sync::mpsc::{Receiver, Sender};
use vstd::prelude::*;

verus! {

#[verifier::external_type_specification]
#[verifier::external_body]
#[verifier::reject_recursive_types(T)]
pub struct ExSender<T>(Sender<T>);

#[verifier::external_type_specification]
#[verifier::external_body]
#[verifier::reject_recursive_types(T)]
pub struct ExReceiver<T>(Receiver<T>);

#[verifier::external_type_specification]
#[verifier::external_body]
pub struct ExContext(egui::Context);

/// Relies on `std::sync::mpsc::channel`: a new channel, as its send and
/// receive sides.
#[verifier::external_body]
pub(crate) fn open_channel<T>() -> (Sender<T>, Receiver<T>) {
    std::sync::mpsc::channel()
}

/// Relies on `Sender::send`: it never blocks, and when the receiver is gone
/// the message comes back inside the `SendError`.
#[verifier::external_body]
fn channel_send<T>(tx: &Sender<T>, msg: T) -> (r: Result<(), T>)
    ensures
        r.is_err() ==> r->Err_0 == msg,
{
    match tx.send(msg) {
        Ok(()) => Ok(()),
        Err(e) => Err(e.0),
    }
}

/// Relies on `Sender::clone`: another send side of the same channel.
#[verifier::external_body]
fn clone_sender<T>(tx: &Sender<T>) -> (r: Sender<T>)
    ensures
        r == *tx,
{
    tx.clone()
}

/// Relies on `egui::Context::clone`: another handle on the same context
/// (the derived clone of its shared pointer).
#[verifier::external_body]
fn clone_context(ctx: &egui::Context) -> (r: egui::Context)
    ensures
        r == *ctx,
{
    ctx.clone()
}

/// Relies on `egui::Context::request_repaint`: asks the host for one more
/// frame; requests made before that frame coalesce into one.
#[verifier::external_body]
fn request_repaint(ctx: &egui::Context) {
    ctx.request_repaint()
}

/// Relies on `Receiver::try_iter`: the messages waiting on the channel,
/// oldest first, taken without blocking.
#[verifier::external_body]
pub(crate) fn take_pending<T>(rx: &Receiver<T>) -> Vec<T> {
    rx.try_iter().collect()
}

/// A send on a mailbox whose receiver has been torn down. It holds the
/// message, which was not delivered.
pub struct ChannelClosed<T>(pub T);

/// What a send reports for the channel's answer `sent`: success when the
/// channel took the message, and `ChannelClosed` with the message it handed
/// back when the receiver was gone.
pub fn closed_from<T>(sent: Result<(), T>) -> (r: Result<(), ChannelClosed<T>>)
    ensures
        r.is_ok() == sent.is_ok(),
        r.is_err() ==> r->Err_0.0 == sent->Err_0,
{
    match sent {
        Ok(()) => Ok(()),
        Err(m) => Err(ChannelClosed(m)),
    }
}

/// A cloneable mailbox handle: the send side of the message channel, and,
/// once installed, the host context to wake on each send.
#[verifier::reject_recursive_types(T)]
pub struct ChaiSender<T> {
    tx: Sender<T>,
    ctx: Option<egui::Context>,
}

impl<T> ChaiSender<T> {
    /// Whether a send on this handle also asks the host for a new frame.
    pub closed spec fn wakes(&self) -> bool {
        self.ctx.is_some()
    }

    /// The send side that this handle delivers through.
    pub closed spec fn channel(&self) -> Sender<T> {
        self.tx
    }

    /// The host context that sends wake, once installed.
    pub closed spec fn context(&self) -> Option<egui::Context> {
        self.ctx
    }

    /// Whether a wake-up is installed.
    pub fn wakes_now(&self) -> (r: bool)
        ensures
            r == self.wakes(),
    {
        self.ctx.is_some()
    }

    /// A handle on the channel of `tx`, with no wake-up installed yet.
    pub fn new(tx: Sender<T>) -> (r: Self)
        ensures
            r.channel() == tx,
            r.context() == None::<egui::Context>,
            !r.wakes(),
    {
        ChaiSender { tx, ctx: None }
    }

    /// Installs the wake-up: from now on, sends on this handle ask `ctx`
    /// for a new frame.
    pub fn set_ctx(&mut self, ctx: &egui::Context)
        ensures
            final(self).wakes(),
            final(self).context() == Some(*ctx),
            final(self).channel() == old(self).channel(),
    {
        self.ctx = Some(clone_context(ctx));
    }

    /// Sends `msg`, then asks the host for a new frame if a wake-up is
    /// installed. Fails, handing `msg` back, once the receiver is gone.
    pub fn send(&self, msg: T) -> (r: Result<(), ChannelClosed<T>>)
        ensures
            r.is_err() ==> r->Err_0.0 == msg,
    {
        if let Some(ctx) = &self.ctx {
            request_repaint(ctx);
        }
        self.send_repaintless(msg)
    }

    /// Sends `msg` without waking the host. Fails, handing `msg` back, once
    /// the receiver is gone.
    pub fn send_repaintless(&self, msg: T) -> (r: Result<(), ChannelClosed<T>>)
        ensures
            r.is_err() ==> r->Err_0.0 == msg,
    {
        closed_from(channel_send(&self.tx, msg))
    }
}

impl<T> std::ops::Deref for ChaiSender<T> {
    type Target = Sender<T>;

    fn deref(&self) -> (r: &Sender<T>)
        ensures
            *r == self.channel(),
    {
        &self.tx
    }
}

impl<T> Clone for ChaiSender<T> {
    fn clone(&self) -> (r: Self)
        ensures
            r.wakes() == self.wakes(),
            r.channel() == self.channel(),
            r.context() == self.context(),
    {
        let ctx = match &self.ctx {
            Some(c) => Some(clone_context(c)),
            None => None,
        };
        ChaiSender { tx: clone_sender(&self.tx), ctx }
    }
}

} // verus!
