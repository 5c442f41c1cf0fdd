//! The signals that the log hands back to the protocol driver.

use vstd::prelude::*;
use crate::message::{BlockView, PbftBlock};

verus! {

/// A signal from the log. Neither is a crash: the driver decides what follows.
#[derive(Debug, PartialEq, Eq)]
pub enum PbftError {
    /// The BlockNew and the PrePrepare of one sequence number and view name
    /// different blocks: first the BlockNew's block, then the PrePrepare's.
    BlockMismatch(PbftBlock, PbftBlock),
    /// The message was put aside or filed as history, and cannot be acted on
    /// in this round.
    NotReadyForMessage,
}

/// What a [`PbftError`] holds.
pub ghost enum ErrorView {
    BlockMismatch(BlockView, BlockView),
    NotReadyForMessage,
}

impl View for PbftError {
    type V = ErrorView;

    open spec fn view(&self) -> ErrorView {
        match self {
            PbftError::BlockMismatch(announced, proposed) => ErrorView::BlockMismatch(
                announced@,
                proposed@,
            ),
            PbftError::NotReadyForMessage => ErrorView::NotReadyForMessage,
        }
    }
}

impl Clone for PbftError {
    fn clone(&self) -> (copy: Self)
        ensures
            copy@ == self@,
    {
        match self {
            PbftError::BlockMismatch(announced, proposed) => PbftError::BlockMismatch(
                announced.clone(),
                proposed.clone(),
            ),
            PbftError::NotReadyForMessage => PbftError::NotReadyForMessage,
        }
    }
}

} // verus!
