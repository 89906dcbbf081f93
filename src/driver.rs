//! The frame drivers: the per-frame cycle that the host toolkit runs. Each
//! owns the one live model between frames and replaces it, never mutates
//! it, on every message.
use crate::mailbox::{open_channel, take_pending, ChaiSender};
use crate::reduce::{folds_plain_to, folds_to, reduce_batch, reduce_plain};
use std::marker::PhantomData;
use std::sync::mpsc::Receiver;
use vstd::prelude::*;

verus! {

/// The driver of an app without commands: its reducer folds each message
/// into the model and requests no background work.
pub struct ChaiTeaApp<M, Msg, Fupdate> {
    model: Option<M>,
    update: Fupdate,
    _msg: PhantomData<Msg>,
}

impl<M, Msg, Fupdate: Fn(M, Msg) -> M> ChaiTeaApp<M, Msg, Fupdate> {
    /// The model is present between frames.
    pub closed spec fn wf(&self) -> bool {
        self.model.is_some()
    }

    /// The current model.
    pub closed spec fn current(&self) -> M {
        self.model->0
    }

    /// The reducer that each frame folds messages with.
    pub closed spec fn reducer(&self) -> Fupdate {
        self.update
    }

    /// A driver that starts from `model` and reduces with `update`.
    pub fn new(model: M, update: Fupdate) -> (r: Self)
        ensures
            r.wf(),
            r.current() == model,
            r.reducer() == update,
    {
        ChaiTeaApp { model: Some(model), update, _msg: PhantomData }
    }

    /// The current model, for the view to render.
    pub fn model(&self) -> (r: &M)
        requires
            self.wf(),
        ensures
            *r == self.current(),
    {
        self.model.as_ref().unwrap()
    }

    /// One frame: folds the messages that the view produced, in order, into
    /// the model.
    pub fn update(&mut self, view_msgs: Vec<Msg>)
        requires
            old(self).wf(),
            forall|m: M, msg: Msg| call_requires(old(self).reducer(), (m, msg)),
        ensures
            final(self).wf(),
            final(self).reducer() == old(self).reducer(),
            folds_plain_to(old(self).reducer(), old(self).current(), view_msgs@, final(self).current()),
    {
        let model = self.model.take().unwrap();
        assert(self.update == old(self).reducer());
        let next = reduce_plain(&self.update, model, view_msgs);
        self.model = Some(next);
    }
}

/// The driver of an app with commands: each frame reduces the view's
/// messages and then those that background work sent since the last frame,
/// and hands back the commands to dispatch.
#[verifier::reject_recursive_types(Msg)]
pub struct ChaiTeaAppAsync<M, S, Cmd, Msg, Fupdate> {
    model: Option<M>,
    /// Cross-command state, lent to one dispatch at a time.
    pub sync_state: S,
    update: Fupdate,
    chai_tx: ChaiSender<Msg>,
    msg_rx: Receiver<Msg>,
    _cmd: PhantomData<Cmd>,
}

impl<M, S, Cmd, Msg, Fupdate: Fn(M, Msg) -> (M, Option<Cmd>)> ChaiTeaAppAsync<
    M,
    S,
    Cmd,
    Msg,
    Fupdate,
> {
    /// The model is present between frames.
    pub closed spec fn wf(&self) -> bool {
        self.model.is_some()
    }

    /// The current model.
    pub closed spec fn current(&self) -> M {
        self.model->0
    }

    /// The reducer that each frame folds messages with.
    pub closed spec fn reducer(&self) -> Fupdate {
        self.update
    }

    /// The cross-command state.
    pub closed spec fn shared_state(&self) -> S {
        self.sync_state
    }

    /// The mailbox handle that this driver clones for each command.
    pub closed spec fn mailbox(&self) -> ChaiSender<Msg> {
        self.chai_tx
    }

    /// Whether the wake-up is installed: sends on the mailbox then ask the
    /// host for a new frame.
    pub closed spec fn wakes(&self) -> bool {
        self.chai_tx.wakes()
    }

    /// How a frame run with host context `ctx` may change the wake-up: it
    /// is installed afterwards, an installed one is left exactly as it was,
    /// and a first install binds `ctx`.
    pub open spec fn wake_step(&self, next: Self, ctx: egui::Context) -> bool {
        &&& next.wakes()
        &&& self.wakes() ==> next.mailbox() == self.mailbox()
        &&& !self.wakes() ==> next.mailbox().context() == Some(ctx)
    }

    /// Over any run of frames from a driver with no wake-up, where frame `i`
    /// runs with `ctxs[i]`, the wake-up is installed once, by the first
    /// frame: every later state's mailbox carries the first frame's context.
    pub proof fn lemma_wake_installs_once(states: Seq<Self>, ctxs: Seq<egui::Context>)
        requires
            states.len() == ctxs.len() + 1,
            !states[0].wakes(),
            forall|i: int|
                0 <= i < ctxs.len() ==> #[trigger] states[i].wake_step(states[i + 1], ctxs[i]),
        ensures
            forall|i: int|
                1 <= i < states.len() ==> (#[trigger] states[i].mailbox()).context() == Some(
                    ctxs[0],
                ) && states[i].wakes(),
    {
        assert forall|i: int| 1 <= i < states.len() implies (#[trigger] states[i].mailbox()).context()
            == Some(ctxs[0]) && states[i].wakes() by {
            Self::lemma_wake_kept(states, ctxs, i);
        }
    }

    proof fn lemma_wake_kept(states: Seq<Self>, ctxs: Seq<egui::Context>, i: int)
        requires
            states.len() == ctxs.len() + 1,
            !states[0].wakes(),
            forall|j: int|
                0 <= j < ctxs.len() ==> #[trigger] states[j].wake_step(states[j + 1], ctxs[j]),
            1 <= i < states.len(),
        ensures
            states[i].mailbox().context() == Some(ctxs[0]),
            states[i].wakes(),
        decreases i,
    {
        let j = i - 1;
        assert(states[j].wake_step(states[j + 1], ctxs[j]));
        assert(j + 1 == i);
        if i > 1 {
            Self::lemma_wake_kept(states, ctxs, i - 1);
        }
    }

    /// A driver that starts from `model` and `sync_state`, reduces with
    /// `update`, and owns a new mailbox with no wake-up installed.
    pub fn new(model: M, sync_state: S, update: Fupdate) -> (r: Self)
        ensures
            r.wf(),
            r.current() == model,
            r.shared_state() == sync_state,
            r.reducer() == update,
            !r.wakes(),
            r.mailbox().context() == None::<egui::Context>,
    {
        let (tx, rx) = open_channel();
        ChaiTeaAppAsync {
            model: Some(model),
            sync_state,
            update,
            chai_tx: ChaiSender::new(tx),
            msg_rx: rx,
            _cmd: PhantomData,
        }
    }

    /// The current model, for the view to render.
    pub fn model(&self) -> (r: &M)
        requires
            self.wf(),
        ensures
            *r == self.current(),
    {
        self.model.as_ref().unwrap()
    }

    /// A fresh handle on this driver's mailbox, for one dispatched command.
    pub fn sender(&self) -> (r: ChaiSender<Msg>)
        ensures
            r.wakes() == self.wakes(),
            r.channel() == self.mailbox().channel(),
            r.context() == self.mailbox().context(),
    {
        self.chai_tx.clone()
    }

    /// Installs the wake-up on the first call, binding it to `ctx`; every
    /// later call leaves the driver exactly as it was.
    pub fn install_wake(&mut self, ctx: &egui::Context)
        ensures
            final(self).wakes(),
            old(self).wakes() ==> *final(self) == *old(self),
            !old(self).wakes() ==> final(self).mailbox().context() == Some(*ctx),
            final(self).mailbox().channel() == old(self).mailbox().channel(),
            final(self).wf() == old(self).wf(),
            final(self).current() == old(self).current(),
            final(self).reducer() == old(self).reducer(),
            final(self).shared_state() == old(self).shared_state(),
    {
        if !self.chai_tx.wakes_now() {
            self.chai_tx.set_ctx(ctx);
        }
    }

    /// Reduces `view_msgs` and then `mailbox_msgs`, in order, into the
    /// model, and returns the commands that the reducer emitted, in order.
    pub fn reduce_frame(&mut self, view_msgs: Vec<Msg>, mailbox_msgs: Vec<Msg>) -> (cmds: Vec<Cmd>)
        requires
            old(self).wf(),
            forall|m: M, msg: Msg| call_requires(old(self).reducer(), (m, msg)),
        ensures
            final(self).wf(),
            final(self).reducer() == old(self).reducer(),
            final(self).wakes() == old(self).wakes(),
            final(self).mailbox() == old(self).mailbox(),
            final(self).shared_state() == old(self).shared_state(),
            folds_to(
                old(self).reducer(),
                old(self).current(),
                view_msgs@ + mailbox_msgs@,
                final(self).current(),
                cmds@,
            ),
    {
        let mut batch = view_msgs;
        let mut pending = mailbox_msgs;
        batch.append(&mut pending);
        let model = self.model.take().unwrap();
        assert(self.update == old(self).reducer());
        let (next, cmds) = reduce_batch(&self.update, model, batch);
        self.model = Some(next);
        cmds
    }

    /// One frame, after the view has produced `view_msgs`: installs the
    /// wake-up if this is the first frame, takes what background work sent
    /// since the last frame, reduces the view's messages and then those, and
    /// returns the commands to dispatch, in emission order. Messages that
    /// these commands send reach a later frame.
    pub fn update(&mut self, ctx: &egui::Context, view_msgs: Vec<Msg>) -> (cmds: Vec<Cmd>)
        requires
            old(self).wf(),
            forall|m: M, msg: Msg| call_requires(old(self).reducer(), (m, msg)),
        ensures
            final(self).wf(),
            old(self).wake_step(*final(self), *ctx),
            final(self).mailbox().channel() == old(self).mailbox().channel(),
            final(self).reducer() == old(self).reducer(),
            final(self).shared_state() == old(self).shared_state(),
            exists|drained: Seq<Msg>|
                folds_to(
                    old(self).reducer(),
                    old(self).current(),
                    view_msgs@ + drained,
                    final(self).current(),
                    cmds@,
                ),
    {
        self.install_wake(ctx);
        let drained = take_pending(&self.msg_rx);
        self.reduce_frame(view_msgs, drained)
    }
}

} // verus!
