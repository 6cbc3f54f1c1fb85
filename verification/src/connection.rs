use vstd::prelude::*;

use crate::units::NumChannels;

verus! {

/// Identifier of a connection.
pub type ConnectionUid = u32;

/// An edge of the audio graph: which output of the parent feeds which input
/// of the child, and how many channels it carries.
#[derive(Debug, Clone, Copy, PartialEq, Eq, Structural)]
pub struct Connection {
    /// where the connection is coming from
    pub from_index: usize,
    /// where the connection is going to
    pub to_index: usize,
    pub num_channels: NumChannels,
    pub uid: ConnectionUid,
}

impl Connection {
    pub fn new(num_channels: NumChannels) -> (r: Self)
        ensures
            r == (Connection { from_index: 0, to_index: 0, num_channels, uid: 0 }),
    {
        Self::from_indexes(num_channels, 0, 0)
    }

    pub fn from_indexes(num_channels: NumChannels, from_index: usize, to_index: usize) -> (r: Self)
        ensures
            r == (Connection { from_index, to_index, num_channels, uid: 0 }),
    {
        Connection { num_channels, from_index, to_index, uid: 0 }
    }

    pub fn num_channels(&self) -> (r: NumChannels)
        ensures
            r == self.num_channels,
    {
        self.num_channels
    }

    pub fn from_index(&self) -> (r: usize)
        ensures
            r == self.from_index,
    {
        self.from_index
    }

    pub fn to_index(&self) -> (r: usize)
        ensures
            r == self.to_index,
    {
        self.to_index
    }

    pub fn uid(&self) -> (r: &ConnectionUid)
        ensures
            *r == self.uid,
    {
        &self.uid
    }
}

} // verus!
