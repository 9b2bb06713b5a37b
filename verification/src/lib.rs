//! A receive-side reorder window for a packetized, message-oriented transport.
//!
//! Packets arrive in any order, each under a wraparound sequence number. The
//! window buffers them and hands complete messages out in order, one
//! contiguous run of packets at a time.

mod deque;
pub mod packet;
pub mod payload;
pub mod recv_buffer;
pub mod seq_number;
pub mod window;

pub use packet::{DataPacket, MsgNumber, PacketLocation, SocketID};
pub use recv_buffer::RecvBuffer;
pub use seq_number::SeqNumber;
pub use window::WindowFault;
