use vstd::prelude::*;

use crate::node::{NodeInfo, NodeType, NodeUid};
use crate::units::NumChannels;

verus! {

/// The way a multichannel signal is folded into fewer channels.
#[derive(Copy, Clone, Debug, PartialEq, Eq, PartialOrd, Ord, Hash, Structural)]
pub enum Downmixer {
    PanningFast,
    Panning,
    Simple,
}

impl Default for Downmixer {
    fn default() -> (r: Self)
        ensures
            r == Downmixer::Simple,
    {
        Downmixer::Simple
    }
}

/// A node that copies its one input to its one output.
#[derive(Debug, Default, Copy, Clone, PartialEq, PartialOrd, Hash, Eq, Ord)]
pub struct PassThrough;

impl PassThrough {
    pub fn node_type(&self) -> (r: NodeType)
        ensures
            r == NodeType::Effect,
    {
        NodeType::Effect
    }

    pub fn num_inputs(&self) -> (r: usize)
        ensures
            r == 1,
    {
        1
    }

    pub fn num_outputs(&self) -> (r: usize)
        ensures
            r == 1,
    {
        1
    }
}

/// The processor's description of a node: its uid, name, role, and the
/// shape of its connections.
pub open spec fn node_info_of(
    uid: NodeUid,
    name: Seq<char>,
    node_type: NodeType,
    num_input_connections: usize,
    num_output_connections: usize,
    num_incoming_channels: nat,
    num_outgoing_channels: nat,
    info: NodeInfo,
) -> bool {
    &&& info.uid == uid
    &&& info.name@ == name
    &&& info.node_type == node_type
    &&& info.num_input_connections == num_input_connections
    &&& info.num_output_connections == num_output_connections
    &&& info.num_incoming_channels@ == num_incoming_channels
    &&& info.num_outgoing_channels@ == num_outgoing_channels
    &&& !info.is_dac
    &&& !info.requires_audio_updates
}

/// Folds a signal of `m` channels into one of `n` channels, where `n <= m`.
#[derive(Debug, Clone, Copy, PartialEq, PartialOrd)]
pub struct DownmixNode {
    uid: NodeUid,
    num_incoming_channels: NumChannels,
    num_outgoing_channels: NumChannels,
    downmixer: Downmixer,
}

impl DownmixNode {
    /// The node's uid.
    pub closed spec fn spec_uid(&self) -> NodeUid {
        self.uid
    }

    /// The number of channels it takes in.
    pub closed spec fn incoming(&self) -> nat {
        self.num_incoming_channels@
    }

    /// The number of channels it gives out.
    pub closed spec fn outgoing(&self) -> nat {
        self.num_outgoing_channels@
    }

    /// The way it folds channels.
    pub closed spec fn spec_downmixer(&self) -> Downmixer {
        self.downmixer
    }

    pub fn new(num_incoming_channels: NumChannels, num_outgoing_channels: NumChannels, downmixer: Downmixer) -> (r:
        Self)
        ensures
            r.spec_uid() == 0,
            r.incoming() == num_incoming_channels@,
            r.outgoing() == num_outgoing_channels@,
            r.spec_downmixer() == downmixer,
    {
        Self::new_with_uid(0, num_incoming_channels, num_outgoing_channels, downmixer)
    }

    pub fn new_with_uid(
        uid: NodeUid,
        num_incoming_channels: NumChannels,
        num_outgoing_channels: NumChannels,
        downmixer: Downmixer,
    ) -> (r: Self)
        ensures
            r.spec_uid() == uid,
            r.incoming() == num_incoming_channels@,
            r.outgoing() == num_outgoing_channels@,
            r.spec_downmixer() == downmixer,
    {
        DownmixNode { uid, num_incoming_channels, num_outgoing_channels, downmixer }
    }

    pub fn downmixer(&self) -> (r: Downmixer)
        ensures
            r == self.spec_downmixer(),
    {
        self.downmixer
    }

    pub fn node_type(&self) -> (r: NodeType)
        ensures
            r == NodeType::Effect,
    {
        NodeType::Effect
    }

    pub fn num_input_connections(&self) -> (r: usize)
        ensures
            r == 1,
    {
        1
    }

    pub fn num_output_connections(&self) -> (r: usize)
        ensures
            r == 1,
    {
        1
    }

    pub fn num_incoming_channels(&self) -> (r: NumChannels)
        ensures
            r@ == self.incoming(),
    {
        self.num_incoming_channels
    }

    pub fn num_outgoing_channels(&self) -> (r: NumChannels)
        ensures
            r@ == self.outgoing(),
    {
        self.num_outgoing_channels
    }

    pub fn uid(&self) -> (r: NodeUid)
        ensures
            r == self.spec_uid(),
    {
        self.uid
    }

    pub fn set_uid(&mut self, uid: NodeUid)
        ensures
            final(self).spec_uid() == uid,
            final(self).incoming() == old(self).incoming(),
            final(self).outgoing() == old(self).outgoing(),
            final(self).spec_downmixer() == old(self).spec_downmixer(),
    {
        self.uid = uid;
    }

    pub fn name(&self) -> (r: String)
        ensures
            r@ == "DownmixNode"@,
    {
        String::from_str("DownmixNode")
    }

    /// What the processor needs to know of this node.
    pub fn info(&self) -> (r: NodeInfo)
        ensures
            node_info_of(self.spec_uid(), "DownmixNode"@, NodeType::Effect, 1, 1, self.incoming(), self.outgoing(), r),
    {
        NodeInfo {
            uid: self.uid,
            name: self.name(),
            node_type: NodeType::Effect,
            num_input_connections: 1,
            num_output_connections: 1,
            num_incoming_channels: self.num_incoming_channels,
            num_outgoing_channels: self.num_outgoing_channels,
            is_dac: false,
            requires_audio_updates: false,
        }
    }
}

/// Combines many single-channel connections into one connection with one
/// channel per input.
#[derive(Debug, Clone, Copy, PartialEq, PartialOrd)]
pub struct MulticoreNode {
    uid: NodeUid,
    num_input_connections: u32,
}

impl MulticoreNode {
    /// The node's uid.
    pub closed spec fn spec_uid(&self) -> NodeUid {
        self.uid
    }

    /// The number of single-channel connections it combines.
    pub closed spec fn inputs(&self) -> u32 {
        self.num_input_connections
    }

    pub fn new(num_input_connections: u32) -> (r: Self)
        ensures
            r.spec_uid() == 0,
            r.inputs() == num_input_connections,
    {
        Self::new_with_uid(0, num_input_connections)
    }

    pub fn new_with_uid(uid: NodeUid, num_input_connections: u32) -> (r: Self)
        ensures
            r.spec_uid() == uid,
            r.inputs() == num_input_connections,
    {
        MulticoreNode { uid, num_input_connections }
    }

    pub fn node_type(&self) -> (r: NodeType)
        ensures
            r == NodeType::Effect,
    {
        NodeType::Effect
    }

    pub fn num_input_connections(&self) -> (r: usize)
        ensures
            r == self.inputs(),
    {
        self.num_input_connections as usize
    }

    pub fn num_output_connections(&self) -> (r: usize)
        ensures
            r == 1,
    {
        1
    }

    /// Each input carries one channel.
    pub fn num_incoming_channels(&self) -> (r: NumChannels)
        ensures
            r@ == 1,
    {
        NumChannels::new(1)
    }

    /// The output carries one channel per input.
    pub fn num_outgoing_channels(&self) -> (r: NumChannels)
        ensures
            r@ == self.inputs(),
    {
        NumChannels::new(self.num_input_connections as usize)
    }

    pub fn uid(&self) -> (r: NodeUid)
        ensures
            r == self.spec_uid(),
    {
        self.uid
    }

    pub fn set_uid(&mut self, uid: NodeUid)
        ensures
            final(self).spec_uid() == uid,
            final(self).inputs() == old(self).inputs(),
    {
        self.uid = uid;
    }

    pub fn name(&self) -> (r: String)
        ensures
            r@ == "MulticoreNode"@,
    {
        String::from_str("MulticoreNode")
    }

    /// What the processor needs to know of this node.
    pub fn info(&self) -> (r: NodeInfo)
        ensures
            node_info_of(
                self.spec_uid(),
                "MulticoreNode"@,
                NodeType::Effect,
                self.inputs() as usize,
                1,
                1,
                self.inputs() as nat,
                r,
            ),
    {
        NodeInfo {
            uid: self.uid,
            name: self.name(),
            node_type: NodeType::Effect,
            num_input_connections: self.num_input_connections(),
            num_output_connections: 1,
            num_incoming_channels: self.num_incoming_channels(),
            num_outgoing_channels: self.num_outgoing_channels(),
            is_dac: false,
            requires_audio_updates: false,
        }
    }
}

/// A node that passes its signal of `num_channels` channels on unaltered.
#[derive(Debug, Clone, Copy, PartialEq, PartialOrd, Hash, Eq, Ord)]
pub struct PassThroughNode {
    uid: u32,
    num_channels: NumChannels,
}

impl PassThroughNode {
    /// The node's uid.
    pub closed spec fn spec_uid(&self) -> NodeUid {
        self.uid
    }

    /// The number of channels it passes on.
    pub closed spec fn channels(&self) -> nat {
        self.num_channels@
    }

    pub fn new(num_channels: NumChannels) -> (r: Self)
        ensures
            r.spec_uid() == 0,
            r.channels() == num_channels@,
    {
        PassThroughNode { uid: 0, num_channels }
    }

    pub fn new_with_uid(uid: u32, num_channels: NumChannels) -> (r: Self)
        ensures
            r.spec_uid() == uid,
            r.channels() == num_channels@,
    {
        PassThroughNode { uid, num_channels }
    }

    pub fn node_type(&self) -> (r: NodeType)
        ensures
            r == NodeType::Effect,
    {
        NodeType::Effect
    }

    pub fn num_input_connections(&self) -> (r: usize)
        ensures
            r == 1,
    {
        1
    }

    pub fn num_output_connections(&self) -> (r: usize)
        ensures
            r == 1,
    {
        1
    }

    pub fn num_incoming_channels(&self) -> (r: NumChannels)
        ensures
            r@ == self.channels(),
    {
        self.num_channels
    }

    pub fn num_outgoing_channels(&self) -> (r: NumChannels)
        ensures
            r@ == self.channels(),
    {
        self.num_channels
    }

    pub fn uid(&self) -> (r: NodeUid)
        ensures
            r == self.spec_uid(),
    {
        self.uid
    }

    pub fn set_uid(&mut self, uid: NodeUid)
        ensures
            final(self).spec_uid() == uid,
            final(self).channels() == old(self).channels(),
    {
        self.uid = uid;
    }

    pub fn name(&self) -> (r: String)
        ensures
            r@ == "PassThroughNode"@,
    {
        String::from_str("PassThroughNode")
    }

    /// What the processor needs to know of this node.
    pub fn info(&self) -> (r: NodeInfo)
        ensures
            node_info_of(
                self.spec_uid(),
                "PassThroughNode"@,
                NodeType::Effect,
                1,
                1,
                self.channels(),
                self.channels(),
                r,
            ),
    {
        NodeInfo {
            uid: self.uid,
            name: self.name(),
            node_type: NodeType::Effect,
            num_input_connections: 1,
            num_output_connections: 1,
            num_incoming_channels: self.num_channels,
            num_outgoing_channels: self.num_channels,
            is_dac: false,
            requires_audio_updates: false,
        }
    }
}

/// Marker for an audio context whose audio thread has been started.
#[derive(Debug, Copy, Clone, PartialEq, Eq, PartialOrd, Ord)]
pub struct AudioInit;

/// Marker for an audio context whose audio thread has not been started yet.
#[derive(Debug, Copy, Clone, PartialEq, Eq, PartialOrd, Ord)]
pub struct AudioUninit;

} // verus!
