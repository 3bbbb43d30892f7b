//! The packet header as a record, and the known packet kinds by name.
use crate::guid::Guid;
use vstd::prelude::*;

verus! {

/// The kinds of packets, by name.
#[derive(Debug, Clone, Copy, PartialEq, Eq, Structural)]
pub enum PacketType {
    Unknown,
    Init,
    Player,
    Cap,
    Game,
    Tag,
    Connect,
    Disconnect,
    Costume,
    Shine,
    Capture,
    ChangeStage,
    Command,
}

/// The fields of a packet header.
#[derive(Debug, Clone, Copy)]
pub struct PacketHeader {
    pub id: Guid,
    pub p_type: PacketType,
    pub data_size: u16,
}

} // verus!
