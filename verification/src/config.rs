//! The settings that the log reads when it is created.

use vstd::prelude::*;
use crate::bytes::bytes_copy;

verus! {

/// The node's settings, as far as the log consults them.
#[derive(Debug)]
pub struct PbftConfig {
    /// The peers of the network, this node included.
    pub peers: Vec<Vec<u8>>,
    /// How many BlockNew messages lie between two checkpoints.
    pub checkpoint_period: u64,
    /// The width of the window of sequence numbers that the log admits.
    pub max_log_size: u64,
}

/// What a [`PbftConfig`] holds.
pub ghost struct ConfigView {
    pub peers: Seq<Seq<u8>>,
    pub checkpoint_period: u64,
    pub max_log_size: u64,
}

impl View for PbftConfig {
    type V = ConfigView;

    open spec fn view(&self) -> ConfigView {
        ConfigView {
            peers: Seq::new(self.peers@.len(), |i: int| self.peers@[i]@),
            checkpoint_period: self.checkpoint_period,
            max_log_size: self.max_log_size,
        }
    }
}

impl Clone for PbftConfig {
    fn clone(&self) -> (copy: Self)
        ensures
            copy@ == self@,
    {
        let mut peers: Vec<Vec<u8>> = Vec::new();
        let mut i: usize = 0;
        while i < self.peers.len()
            invariant
                i <= self.peers.len(),
                peers@.len() == i,
                forall|j: int| 0 <= j < i ==> (#[trigger] peers@[j])@ == self.peers@[j]@,
            decreases self.peers.len() - i,
        {
            peers.push(bytes_copy(&self.peers[i]));
            i += 1;
        }
        let copy = PbftConfig {
            peers,
            checkpoint_period: self.checkpoint_period,
            max_log_size: self.max_log_size,
        };
        assert(copy@.peers =~= self@.peers);
        copy
    }
}

} // verus!
