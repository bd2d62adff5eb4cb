//! A minimal TCP endpoint: sequence-number arithmetic, the receive and
//! acknowledgment acceptability tests of RFC 793, the passive-open handshake
//! and the demultiplexing of incoming IPv4 datagrams onto connections.
pub mod seqnum;
pub mod sequence_space;
pub mod state;
pub mod tcpheaderinfo;
pub mod wire;

pub use seqnum::wrapped_cmp_lt;
pub use sequence_space::{ReciverSequenceSpace, SenderSequenceSpace};
pub use state::State;
pub use tcpheaderinfo::TcpHeaderInfo;
pub mod connection;

pub use connection::{Connection, PacketOutcome};
pub mod table;

pub use table::{ConnectionTable, DatagramOutcome, Quad};
