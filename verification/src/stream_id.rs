//! Stream identifier arithmetic.
//!
//! A stream id is a non-negative integer, representable as a QUIC
//! variable-length integer, whose two low-order bits tag the class (initiator
//! role and direction) and whose remaining bits carry the zero-based ordinal
//! of the stream within that class: `id = 4 * ordinal + tag`.  The functions
//! here classify an id, extract its ordinal, and build the id of the nth
//! stream of a class; they partition the id space exactly into the four
//! classes.

use vstd::prelude::*;

use crate::types::{
    EncodingOverflow, EndpointRole, RelativeInitiator, StreamClass, StreamDirection, MAX_ORDINAL,
    VARINT_MAX,
};

verus! {

/// The two low-order bits of an id of the given class: the initiator role in
/// bit 0 (client = 0, server = 1) and the direction in bit 1
/// (bidirectional = 0, unidirectional = 1).
pub open spec fn spec_class_tag(initiator: EndpointRole, direction: StreamDirection) -> u64 {
    match (initiator, direction) {
        (EndpointRole::Client, StreamDirection::Bidirectional) => 0,
        (EndpointRole::Server, StreamDirection::Bidirectional) => 1,
        (EndpointRole::Client, StreamDirection::Unidirectional) => 2,
        (EndpointRole::Server, StreamDirection::Unidirectional) => 3,
    }
}

/// A validated stream identifier: a value representable as a QUIC
/// variable-length integer.
#[derive(Clone, Copy, Debug, PartialEq, Eq, Structural)]
pub struct StreamId {
    pub id: u64,
}

impl StreamId {
    /// A stream id is well-formed when it fits the variable-length integer
    /// encoding.
    pub open spec fn wf(self) -> bool {
        self.id <= VARINT_MAX
    }

    /// The class tag carried in the two low-order bits.
    pub open spec fn spec_tag(self) -> u64 {
        self.id % 4
    }

    /// Zero-based position of this stream within its class.
    pub open spec fn spec_ordinal(self) -> u64 {
        self.id / 4
    }

    /// The endpoint role that initiated this stream, from bit 0 of the tag.
    pub open spec fn spec_initiator_role(self) -> EndpointRole {
        if self.id % 4 == 0 || self.id % 4 == 2 {
            EndpointRole::Client
        } else {
            EndpointRole::Server
        }
    }

    /// The direction of this stream, from bit 1 of the tag.
    pub open spec fn spec_direction(self) -> StreamDirection {
        if self.id % 4 < 2 {
            StreamDirection::Bidirectional
        } else {
            StreamDirection::Unidirectional
        }
    }

    /// The class of this stream relative to `local_role`: locally initiated
    /// when the initiating role is `local_role`, remotely initiated otherwise.
    pub open spec fn spec_classify(self, local_role: EndpointRole) -> StreamClass {
        StreamClass {
            initiator: if self.spec_initiator_role() == local_role {
                RelativeInitiator::Local
            } else {
                RelativeInitiator::Remote
            },
            direction: self.spec_direction(),
        }
    }

    /// The raw integer value of the id.
    pub fn value(self) -> (r: u64)
        ensures
            r == self.id,
    {
        self.id
    }

    /// Validates a raw integer as a stream id; classification is total on the
    /// representable range and rejects only values beyond it.
    pub fn from_value(v: u64) -> (r: Result<StreamId, EncodingOverflow>)
        ensures
            v <= VARINT_MAX <==> r is Ok,
            r is Ok ==> r->Ok_0 == (StreamId { id: v }) && r->Ok_0.wf(),
    {
        if v <= VARINT_MAX {
            Ok(StreamId { id: v })
        } else {
            Err(EncodingOverflow)
        }
    }

    /// The ordinal of this stream within its class; never exceeds
    /// `MAX_ORDINAL` for a well-formed id.
    pub fn ordinal(self) -> (r: u64)
        requires
            self.wf(),
        ensures
            r == self.spec_ordinal(),
            r <= MAX_ORDINAL,
    {
        self.id / 4
    }

    /// The endpoint role that initiated this stream.
    pub fn initiator_role(self) -> (r: EndpointRole)
        ensures
            r == self.spec_initiator_role(),
    {
        let tag: u64 = self.id % 4;
        if tag == 0 || tag == 2 {
            EndpointRole::Client
        } else {
            EndpointRole::Server
        }
    }

    /// The direction of this stream.
    pub fn direction(self) -> (r: StreamDirection)
        ensures
            r == self.spec_direction(),
    {
        if self.id % 4 < 2 {
            StreamDirection::Bidirectional
        } else {
            StreamDirection::Unidirectional
        }
    }

    /// Classifies this stream relative to the local endpoint's role.
    pub fn classify(self, local_role: EndpointRole) -> (r: StreamClass)
        ensures
            r == self.spec_classify(local_role),
    {
        let initiator = self.initiator_role();
        StreamClass {
            initiator: if initiator == local_role {
                RelativeInitiator::Local
            } else {
                RelativeInitiator::Remote
            },
            direction: self.direction(),
        }
    }

    /// The id of the stream with the given ordinal in the given class; fails
    /// exactly when the ordinal exceeds the representable maximum.
    pub fn nth(initiator: EndpointRole, direction: StreamDirection, index: u64) -> (r: Result<
        StreamId,
        EncodingOverflow,
    >)
        ensures
            index <= MAX_ORDINAL <==> r is Ok,
            r is Ok ==> {
                let id = r->Ok_0;
                &&& id.wf()
                &&& id.id == 4 * index + spec_class_tag(initiator, direction)
                &&& id.spec_ordinal() == index
                &&& id.spec_initiator_role() == initiator
                &&& id.spec_direction() == direction
            },
    {
        if index > MAX_ORDINAL {
            return Err(EncodingOverflow);
        }
        let tag: u64 = match (initiator, direction) {
            (EndpointRole::Client, StreamDirection::Bidirectional) => 0,
            (EndpointRole::Server, StreamDirection::Bidirectional) => 1,
            (EndpointRole::Client, StreamDirection::Unidirectional) => 2,
            (EndpointRole::Server, StreamDirection::Unidirectional) => 3,
        };
        let id: u64 = 4 * index + tag;
        proof {
            lemma_pack_unpack(index, tag);
        }
        Ok(StreamId { id })
    }

    /// The id of the first (ordinal 0) stream of the given class.
    pub fn first_of_class(initiator: EndpointRole, direction: StreamDirection) -> (r: StreamId)
        ensures
            r.wf(),
            r.spec_ordinal() == 0,
            r.spec_initiator_role() == initiator,
            r.spec_direction() == direction,
    {
        match StreamId::nth(initiator, direction, 0) {
            Ok(id) => id,
            Err(_) => StreamId { id: 0 },  // unreachable: ordinal 0 is always representable
        }
    }

    /// The id of the next stream of the same class; fails exactly at the
    /// representable maximum of the class.
    pub fn next_in_class(self) -> (r: Result<StreamId, EncodingOverflow>)
        requires
            self.wf(),
        ensures
            self.spec_ordinal() < MAX_ORDINAL <==> r is Ok,
            r is Ok ==> {
                let id = r->Ok_0;
                &&& id.wf()
                &&& id.spec_ordinal() == self.spec_ordinal() + 1
                &&& id.spec_initiator_role() == self.spec_initiator_role()
                &&& id.spec_direction() == self.spec_direction()
            },
    {
        let n = self.ordinal();
        if n >= MAX_ORDINAL {
            return Err(EncodingOverflow);
        }
        StreamId::nth(self.initiator_role(), self.direction(), n + 1)
    }
}

/// Packing an ordinal and a tag into an id inverts exactly: division and
/// remainder by 4 recover the two parts.
proof fn lemma_pack_unpack(index: u64, tag: u64)
    requires
        index <= MAX_ORDINAL,
        tag <= 3,
    ensures
        4 * index + tag <= VARINT_MAX,
        (4 * index + tag) as u64 % 4 == tag,
        (4 * index + tag) as u64 / 4 == index,
{
    assert((4 * index + tag) as u64 % 4 == tag && (4 * index + tag) as u64 / 4 == index)
        by (nonlinear_arith)
        requires
            index <= MAX_ORDINAL,
            tag <= 3,
    ;
}

/// Every well-formed id is exactly the nth id of its own class: no gaps in
/// the partition of the id space into the four classes.
pub proof fn lemma_classification_covers(id: StreamId)
    requires
        id.wf(),
    ensures
        id.id == 4 * id.spec_ordinal() + spec_class_tag(
            id.spec_initiator_role(),
            id.spec_direction(),
        ),
        id.spec_ordinal() <= MAX_ORDINAL,
{
    vstd::arithmetic::div_mod::lemma_fundamental_div_mod(id.id as int, 4);
    assert(id.id % 4 < 4);
}

/// A well-formed id belongs to one class and ordinal only: no overlap in the
/// partition of the id space into the four classes.
pub proof fn lemma_classification_unique(
    id: StreamId,
    initiator: EndpointRole,
    direction: StreamDirection,
    index: u64,
)
    requires
        id.wf(),
        index <= MAX_ORDINAL,
        id.id == 4 * index + spec_class_tag(initiator, direction),
    ensures
        initiator == id.spec_initiator_role(),
        direction == id.spec_direction(),
        index == id.spec_ordinal(),
{
    lemma_pack_unpack(index, spec_class_tag(initiator, direction));
}

} // verus!
