//! What the consensus layer last declared as head, safe and finalized.
use vstd::prelude::*;
use crate::engine_types::ForkchoiceState;

verus! {

/// How the engine answered a forkchoice state.
#[derive(Clone, Copy, Debug, PartialEq, Eq, Structural)]
pub enum ForkchoiceStatus {
    Valid,
    Invalid,
    Syncing,
}

/// A forkchoice state with the status it was answered with.
#[derive(Clone, Copy, Debug, PartialEq, Eq, Structural)]
pub struct ReceivedForkchoiceState {
    pub state: ForkchoiceState,
    pub status: ForkchoiceStatus,
}

/// Records the forkchoice states received from the consensus layer: the latest
/// one, the latest one answered `VALID`, and the latest one answered `SYNCING`,
/// which is the target that sync works towards.
#[derive(Clone, Copy, Debug, PartialEq, Eq, Structural)]
pub struct ForkchoiceStateTracker {
    pub latest: Option<ReceivedForkchoiceState>,
    pub last_valid: Option<ForkchoiceState>,
    pub last_syncing: Option<ForkchoiceState>,
}

impl ForkchoiceStateTracker {
    /// A tracker that has received nothing.
    pub fn new() -> (r: ForkchoiceStateTracker)
        ensures
            r.latest is None && r.last_valid is None && r.last_syncing is None,
    {
        ForkchoiceStateTracker { latest: None, last_valid: None, last_syncing: None }
    }

    /// Records that `state` was received and answered with `status`.
    pub fn set_latest(&mut self, state: ForkchoiceState, status: ForkchoiceStatus)
        ensures
            final(self).latest == Some(ReceivedForkchoiceState { state, status }),
            final(self).last_valid == (if status is Valid { Some(state) } else { old(self).last_valid }),
            final(self).last_syncing == (if status is Syncing { Some(state) } else { old(self).last_syncing }),
    {
        self.latest = Some(ReceivedForkchoiceState { state, status });
        match status {
            ForkchoiceStatus::Valid => {
                self.last_valid = Some(state);
            },
            ForkchoiceStatus::Syncing => {
                self.last_syncing = Some(state);
            },
            ForkchoiceStatus::Invalid => {},
        }
    }

    /// The state that sync works towards: the latest one answered `SYNCING`.
    pub fn sync_target_state(&self) -> (r: Option<ForkchoiceState>)
        ensures
            r == self.last_syncing,
    {
        self.last_syncing
    }

    /// The latest state answered `VALID`.
    pub fn last_valid_state(&self) -> (r: Option<ForkchoiceState>)
        ensures
            r == self.last_valid,
    {
        self.last_valid
    }
}

} // verus!
