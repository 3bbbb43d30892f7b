use crate::guid::Guid;
use vstd::prelude::*;

verus! {

/// Failures of the wire codec and of the connection underneath it.
#[derive(Debug, Clone, Copy, PartialEq, Eq, Structural)]
pub enum EncodingError {
    NotEnoughData,
    BadUtf8,
    IntConversion,
    HexConversion,
    BodyTooShort,
    ConnectionReset,
    ConnectionClose,
    CustomError,
}

/// Reasons a new session is refused.
#[derive(Debug, Clone, Copy, PartialEq, Eq, Structural)]
pub enum ClientInitError {
    TooManyPlayers,
    BannedIP,
    BannedID,
    DuplicateClient,
    BadHandshake,
}

/// Failures of the message channels between tasks.
#[derive(Debug, Clone, Copy, PartialEq, Eq, Structural)]
pub enum ChannelError {
    SendChannel,
    SendClientChannel,
    SendClientBroadcastChannel,
    SendServerBroadcastChannel,
    RecvBroadcastChannel,
    ReplyChannel,
    RecvChannel,
}

/// How far an error reaches.
#[derive(Debug, Clone, Copy, PartialEq, Eq, Structural)]
pub enum ErrorSeverity {
    ServerFatal,
    ClientFatal,
    NonCritical,
}

/// Every error the relay core reports.
#[derive(Debug, Clone, PartialEq, Eq)]
pub enum SMOError {
    InvalidID(Guid),
    InvalidName(String),
    InvalidConsoleArg(String),
    Encoding(EncodingError),
    Io(String),
    Clap(String),
    Channel(ChannelError),
    ThreadJoin,
    ClientInit(ClientInitError),
    JsonError(String),
    UdpNotInit,
    ServerShutdown,
    Other(String),
}

/// Closed or reset streams, failed or lagging receives and a dropped reply
/// end the session; the rest, failed sends included, is reported and the
/// session goes on.
pub open spec fn spec_severity(e: SMOError) -> ErrorSeverity {
    match e {
        SMOError::Encoding(EncodingError::ConnectionClose) => ErrorSeverity::ClientFatal,
        SMOError::Encoding(EncodingError::ConnectionReset) => ErrorSeverity::ClientFatal,
        SMOError::Channel(ChannelError::RecvChannel) => ErrorSeverity::ClientFatal,
        SMOError::Channel(ChannelError::RecvBroadcastChannel) => ErrorSeverity::ClientFatal,
        SMOError::Channel(ChannelError::ReplyChannel) => ErrorSeverity::ClientFatal,
        _ => ErrorSeverity::NonCritical,
    }
}

impl SMOError {
    pub fn severity(&self) -> (r: ErrorSeverity)
        ensures
            r == spec_severity(*self),
    {
        match self {
            SMOError::Encoding(EncodingError::ConnectionClose) => ErrorSeverity::ClientFatal,
            SMOError::Encoding(EncodingError::ConnectionReset) => ErrorSeverity::ClientFatal,
            SMOError::Channel(ChannelError::RecvChannel) => ErrorSeverity::ClientFatal,
            SMOError::Channel(ChannelError::RecvBroadcastChannel) => ErrorSeverity::ClientFatal,
            SMOError::Channel(ChannelError::ReplyChannel) => ErrorSeverity::ClientFatal,
            _ => ErrorSeverity::NonCritical,
        }
    }
}

} // verus!
