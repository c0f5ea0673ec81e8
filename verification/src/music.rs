use vstd::prelude::*;

verus! {

/// Where a call to the music player stands.
#[derive(Clone, Copy, Debug, PartialEq, Eq, Structural)]
pub enum CallStage {
    /// The command has been sent once.
    FirstCall,
    /// The command failed and the client has tried to connect again.
    Reconnect,
    /// The command has been sent again on the new connection.
    SecondCall,
}

/// What to do after a stage ended.
#[derive(Clone, Copy, Debug, PartialEq, Eq, Structural)]
pub enum CallNext {
    /// Carry out this stage next.
    Run(CallStage),
    /// The call succeeded.
    Succeed,
    /// The call failed with the error of the last stage.
    Fail,
}

/// A failed command gets one more try after the client connects again; a
/// failed reconnection or a second failure ends the call with that error.
pub open spec fn next_after(stage: CallStage, ok: bool) -> CallNext {
    match stage {
        CallStage::FirstCall => if ok {
            CallNext::Succeed
        } else {
            CallNext::Run(CallStage::Reconnect)
        },
        CallStage::Reconnect => if ok {
            CallNext::Run(CallStage::SecondCall)
        } else {
            CallNext::Fail
        },
        CallStage::SecondCall => if ok {
            CallNext::Succeed
        } else {
            CallNext::Fail
        },
    }
}

/// Decides what follows a stage of a call to the music player, given
/// whether the stage succeeded.
pub fn after_stage(stage: CallStage, ok: bool) -> (next: CallNext)
    ensures
        next == next_after(stage, ok),
{
    match stage {
        CallStage::FirstCall => {
            if ok {
                CallNext::Succeed
            } else {
                CallNext::Run(CallStage::Reconnect)
            }
        },
        CallStage::Reconnect => {
            if ok {
                CallNext::Run(CallStage::SecondCall)
            } else {
                CallNext::Fail
            }
        },
        CallStage::SecondCall => {
            if ok {
                CallNext::Succeed
            } else {
                CallNext::Fail
            }
        },
    }
}

/// A call never sends the command more than twice: after the second
/// sending it is over, whatever the outcome.
pub proof fn lemma_at_most_two_sends(ok: bool)
    ensures
        !(next_after(CallStage::SecondCall, ok) is Run),
        next_after(CallStage::FirstCall, ok) != CallNext::Run(CallStage::SecondCall),
{
}

} // verus!
