//! Errors of the networking core. All of these are internal: none is sent
//! on the wire verbatim.

use vstd::prelude::*;

use crate::downloader::DownloaderErr;

verus! {

/// Why a networking operation failed.
#[derive(Clone, Copy, Debug, PartialEq, Eq, Structural)]
pub enum NetworkErr {
    /// The format of the packet is invalid.
    BadFormat,
    /// The packet has an invalid signature.
    BadSignature,
    /// The connection attempt has failed.
    ConnectFailed,
    /// The received connect packet is invalid.
    InvalidConnectPacket,
    /// The received packet could not be parsed.
    PacketParseErr,
    /// We are not connected to the given peer.
    PeerNotFound,
    /// We cannot add more peers: we are already at the maximum.
    MaximumPeersReached,
    /// We are not connected to any peer.
    NoPeers,
    /// We received peers without having asked for them.
    DidntAskForPeers,
    /// We received more peers than we requested.
    TooManyPeers,
    /// The encryption was not valid.
    EncryptionErr,
    /// The packet's checksum was invalid.
    BadCRC32,
    /// The provided header is invalid.
    BadHeader,
    /// The network version found in the packet is invalid.
    BadVersion,
    /// We have connected to ourselves.
    SelfConnect,
    /// Could not send a packet: the outbound buffer is full.
    CouldNotSend,
    /// Could not acknowledge the packet.
    AckErr,
    /// The sender is in an invalid state for this operation.
    SenderStateErr,
    /// The receiver is in an invalid state for this operation.
    ReceiverStateErr,
    /// The peer's session has expired.
    SessionExpired,
    /// The entry is already stored in the bootstrap cache.
    AlreadyStored,
    /// An error inside the downloader.
    DownloadErr(DownloaderErr),
    /// The packet cannot start a protocol flow.
    CannotStartProtocolFlow,
    /// Encryption keys were not found for the peer: still connecting.
    NoKeys,
    /// Writing to the socket failed.
    WriteErr,
    /// Generic input/output error.
    IoErr,
}

impl From<DownloaderErr> for NetworkErr {
    fn from(err: DownloaderErr) -> (r: Self) {
        NetworkErr::DownloadErr(err)
    }
}

impl vstd::std_specs::convert::FromSpecImpl<DownloaderErr> for NetworkErr {
    open spec fn obeys_from_spec() -> bool {
        true
    }

    open spec fn from_spec(err: DownloaderErr) -> NetworkErr {
        NetworkErr::DownloadErr(err)
    }
}

} // verus!
