//! What the workers of the pipeline have in common.

use vstd::prelude::*;

verus! {

/// Where a worker stands in its life. A worker starts running and stops once;
/// it never runs again.
#[derive(Clone, Copy, Debug, PartialEq, Eq, Structural)]
pub enum WorkerState {
    Running,
    Stopped,
}

/// A message as it arrives from a channel: the payload, byte for byte.
#[derive(Debug, PartialEq, Eq)]
pub struct InboundMessage {
    pub payload: Vec<u8>,
}

impl View for InboundMessage {
    type V = Seq<u8>;

    open spec fn view(&self) -> Seq<u8> {
        self.payload@
    }
}

} // verus!
