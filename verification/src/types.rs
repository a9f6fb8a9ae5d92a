//! Shared vocabulary of the controller: endpoint roles, stream directions,
//! stream classes, admission outcomes, and the error values that the
//! controller returns.

use vstd::prelude::*;

verus! {

/// Largest value representable in QUIC's variable-length integer encoding.
pub const VARINT_MAX: u64 = 0x3FFF_FFFF_FFFF_FFFF;

/// Largest ordinal a stream of any class can carry: a stream id packs the
/// ordinal in the bits above the two class-tag bits, so the ordinal of a
/// representable id never exceeds `VARINT_MAX / 4`.
pub const MAX_ORDINAL: u64 = 0x0FFF_FFFF_FFFF_FFFF;

/// Which endpoint of the connection initiated a stream.
#[derive(Clone, Copy, Debug, PartialEq, Eq, Structural)]
pub enum EndpointRole {
    Client,
    Server,
}

impl EndpointRole {
    /// The role of the other endpoint of the connection.
    pub fn peer(self) -> (r: EndpointRole)
        ensures
            r == self.spec_peer(),
    {
        match self {
            EndpointRole::Client => EndpointRole::Server,
            EndpointRole::Server => EndpointRole::Client,
        }
    }

    pub open spec fn spec_peer(self) -> EndpointRole {
        match self {
            EndpointRole::Client => EndpointRole::Server,
            EndpointRole::Server => EndpointRole::Client,
        }
    }
}

/// Whether a stream carries data both ways or one way only.
#[derive(Clone, Copy, Debug, PartialEq, Eq, Structural)]
pub enum StreamDirection {
    Bidirectional,
    Unidirectional,
}

/// The initiator of a stream, expressed relative to the local endpoint.
#[derive(Clone, Copy, Debug, PartialEq, Eq, Structural)]
pub enum RelativeInitiator {
    Local,
    Remote,
}

/// One of the four disjoint stream classes: (initiator relative to the local
/// endpoint, direction).
#[derive(Clone, Copy, Debug, PartialEq, Eq, Structural)]
pub struct StreamClass {
    pub initiator: RelativeInitiator,
    pub direction: StreamDirection,
}

/// Result of a local open attempt: either the ordinal was admitted, or the
/// attempt was suspended and its handle registered for resumption on the next
/// limit increase.
#[derive(Clone, Copy, Debug, PartialEq, Eq, Structural)]
pub enum OpenOutcome {
    Admitted,
    Suspended,
}

/// An ordinal or id computation would exceed the representable range of the
/// variable-length integer encoding.
#[derive(Clone, Copy, Debug, PartialEq, Eq, Structural)]
pub struct EncodingOverflow;

/// The peer opened a stream beyond the locally-advertised limit; fatal at the
/// connection level.
#[derive(Clone, Copy, Debug, PartialEq, Eq, Structural)]
pub struct LimitViolation;

/// The peer advertised a limit lower than the current one; the update is
/// reported and never applied.
#[derive(Clone, Copy, Debug, PartialEq, Eq, Structural)]
pub struct LimitDecreaseRejected;

/// The local call site closed a stream that was never admitted (or closed it
/// twice); a usage error of the embedding code, not a protocol error.
#[derive(Clone, Copy, Debug, PartialEq, Eq, Structural)]
pub struct CloseOfUnopenedStream;

} // verus!
