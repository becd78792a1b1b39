use vstd::prelude::*;

verus! {

/// The movement state of an agent, as far as terrain rules care about it.
#[derive(Debug, Clone, Copy, PartialEq, Eq, Structural)]
pub enum AgentState {
    Idle,
    Moving,
    Arrived,
    Swimming,
}

} // verus!
