//! An Elm-style runtime for immediate-mode UI apps: a model, a pure reducer
//! that folds messages into it, and a view that emits new messages.
//!
//! The verified core is the per-frame cycle: render messages and mailbox
//! messages are reduced in order, the reducer's commands are collected for
//! dispatch, and background work reports back through a mailbox that wakes
//! the host toolkit.

mod counter;
mod driver;
mod mailbox;
mod reduce;

pub use counter::{step, update, Model, Msg};
pub use driver::{ChaiTeaApp, ChaiTeaAppAsync};
pub use mailbox::{closed_from, ChaiSender, ChannelClosed};
pub use reduce::{
    emitted, emitted_all, folds_plain_to, folds_to, is_functional, is_plain_functional,
    is_plain_trace, is_trace, lemma_batch_splits, lemma_emitted_all_append, lemma_fold_unique,
    lemma_frames_compose, lemma_frames_fold, lemma_frames_match_batch, lemma_plain_fold_unique,
    lemma_plain_frames_compose, lemma_plain_frames_fold, lemma_plain_frames_match_batch,
    reduce_batch, reduce_plain,
};
