//! A message addressed to a named receiver.
use vstd::prelude::*;

verus! {

/// Content for a named receiver.
#[derive(Clone, Debug, PartialEq, Eq)]
pub struct MessagePacket {
    pub receiver: String,
    pub content: Vec<u8>,
}

} // verus!
