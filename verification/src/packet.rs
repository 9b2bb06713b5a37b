//! Data packets and the marks that say where in a message a packet stands.

use crate::payload::bytes_content;
use crate::seq_number::SeqNumber;
use bytes::Bytes;
use std::ops::BitOr;
use vstd::prelude::*;
use vstd::std_specs::ops::BitOrSpecImpl;

verus! {

/// Where in its message a packet stands: a set of the two marks `FIRST` and
/// `LAST`, one variant for each of the four sets.
#[derive(Clone, Copy, Debug, PartialEq, Eq, Structural)]
pub enum PacketLocation {
    /// Neither mark: the packet stands inside a message.
    Middle,
    /// `LAST` alone: the packet closes a message that another one opened.
    Last,
    /// `FIRST` alone: the packet opens a message that another one closes.
    First,
    /// Both marks: the packet is a whole message.
    Only,
}

impl PacketLocation {
    /// The mark of a packet that opens a message.
    pub const FIRST: PacketLocation = PacketLocation::First;

    /// The mark of a packet that closes a message.
    pub const LAST: PacketLocation = PacketLocation::Last;

    /// Whether the set holds the mark `FIRST`.
    pub open spec fn opens(self) -> bool {
        self is First || self is Only
    }

    /// Whether the set holds the mark `LAST`.
    pub open spec fn closes(self) -> bool {
        self is Last || self is Only
    }

    /// The set that holds `FIRST` if `first` says so and `LAST` if `last`
    /// says so.
    pub open spec fn of_marks(first: bool, last: bool) -> PacketLocation {
        if first {
            if last {
                PacketLocation::Only
            } else {
                PacketLocation::First
            }
        } else {
            if last {
                PacketLocation::Last
            } else {
                PacketLocation::Middle
            }
        }
    }

    /// Whether every mark of `other` is among the marks of `self`.
    pub open spec fn spec_contains(&self, other: PacketLocation) -> bool {
        &&& other.opens() ==> self.opens()
        &&& other.closes() ==> self.closes()
    }

    /// The marks of `self` and of `other` together.
    pub open spec fn spec_union(self, other: PacketLocation) -> PacketLocation {
        PacketLocation::of_marks(self.opens() || other.opens(), self.closes() || other.closes())
    }

    /// The set with no mark.
    pub fn empty() -> (loc: PacketLocation)
        ensures
            loc == PacketLocation::Middle,
    {
        PacketLocation::Middle
    }

    /// Whether the set holds the mark `FIRST`.
    pub fn has_first(&self) -> (held: bool)
        ensures
            held == self.opens(),
    {
        match self {
            PacketLocation::First | PacketLocation::Only => true,
            PacketLocation::Middle | PacketLocation::Last => false,
        }
    }

    /// Whether the set holds the mark `LAST`.
    pub fn has_last(&self) -> (held: bool)
        ensures
            held == self.closes(),
    {
        match self {
            PacketLocation::Last | PacketLocation::Only => true,
            PacketLocation::Middle | PacketLocation::First => false,
        }
    }

    /// Whether every mark of `other` is among the marks of `self`.
    #[verifier::when_used_as_spec(spec_contains)]
    pub fn contains(&self, other: PacketLocation) -> (held: bool)
        ensures
            held == self.spec_contains(other),
    {
        (!other.has_first() || self.has_first()) && (!other.has_last() || self.has_last())
    }

    /// The marks of `self` and of `other` together.
    pub fn union(self, other: PacketLocation) -> (both: PacketLocation)
        ensures
            both == self.spec_union(other),
    {
        let first: bool = self.has_first() || other.has_first();
        let last: bool = self.has_last() || other.has_last();
        if first {
            if last {
                PacketLocation::Only
            } else {
                PacketLocation::First
            }
        } else {
            if last {
                PacketLocation::Last
            } else {
                PacketLocation::Middle
            }
        }
    }
}

impl BitOr for PacketLocation {
    type Output = PacketLocation;

    fn bitor(self, other: PacketLocation) -> (both: PacketLocation) {
        self.union(other)
    }
}

impl BitOrSpecImpl for PacketLocation {
    open spec fn obeys_bitor_spec() -> bool {
        true
    }

    open spec fn bitor_req(self, other: PacketLocation) -> bool {
        true
    }

    open spec fn bitor_spec(self, other: PacketLocation) -> PacketLocation {
        self.spec_union(other)
    }
}

/// The number of the message that a packet belongs to.
#[derive(Clone, Copy, Debug, PartialEq, Eq, Structural)]
pub struct MsgNumber(pub u32);

/// The identity of the socket that a packet is addressed to.
#[derive(Clone, Copy, Debug, PartialEq, Eq, Structural)]
pub struct SocketID(pub u32);

/// One packet of the stream: a slice of one message with its place in the
/// stream and in the message.
#[derive(Debug)]
pub struct DataPacket {
    /// The packet's place in the stream.
    pub seq_number: SeqNumber,
    /// The packet's place in its message.
    pub message_loc: PacketLocation,
    /// Whether the message asks for delivery in order. The window carries
    /// this along and never reads it.
    pub in_order_delivery: bool,
    /// The number of the message.
    pub message_number: MsgNumber,
    /// When the packet was sent.
    pub timestamp: i32,
    /// The socket that the packet is addressed to.
    pub dest_sockid: SocketID,
    /// The packet's slice of the message.
    pub payload: Bytes,
}

/// A packet as a mathematical value: its sequence number as a natural
/// number, its payload as a sequence of bytes.
pub ghost struct PacketView {
    pub seq_number: nat,
    pub message_loc: PacketLocation,
    pub in_order_delivery: bool,
    pub message_number: MsgNumber,
    pub timestamp: i32,
    pub dest_sockid: SocketID,
    pub payload: Seq<u8>,
}

impl View for DataPacket {
    type V = PacketView;

    open spec fn view(&self) -> PacketView {
        PacketView {
            seq_number: self.seq_number@,
            message_loc: self.message_loc,
            in_order_delivery: self.in_order_delivery,
            message_number: self.message_number,
            timestamp: self.timestamp,
            dest_sockid: self.dest_sockid,
            payload: bytes_content(&self.payload),
        }
    }
}

} // verus!
