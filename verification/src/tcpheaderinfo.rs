use vstd::prelude::*;
use crate::wire::{etherparse_tcp_new, TcpHeaderFields};

verus! {

/// The fixed part of the TCP headers a connection sends: its ports, its
/// initial sequence number and its window.
#[derive(Clone, Copy, Debug, PartialEq, Eq, Structural)]
pub struct TcpHeaderInfo {
    pub src: u16,
    pub dst: u16,
    pub wnd: u16,
    pub seq_number: u32,
}

impl TcpHeaderInfo {
    pub fn new(src: u16, dst: u16, seq_number: u32, wnd: u16) -> (r: TcpHeaderInfo)
        ensures
            r == (TcpHeaderInfo { src, dst, wnd, seq_number }),
    {
        Self { src, dst, wnd, seq_number }
    }

    /// The header `build` yields: ports, sequence number and window from
    /// `self`, everything else zero or clear.
    pub open spec fn built(self) -> TcpHeaderFields {
        TcpHeaderFields {
            source_port: self.src,
            destination_port: self.dst,
            sequence_number: self.seq_number,
            acknowledgment_number: 0,
            fin: false,
            syn: false,
            rst: false,
            ack: false,
            window_size: self.wnd,
            checksum: 0,
        }
    }

    /// A TCP header carrying this information, built by `etherparse`.
    pub fn build(&self) -> (r: TcpHeaderFields)
        ensures
            r == self.built(),
    {
        etherparse_tcp_new(self.src, self.dst, self.seq_number, self.wnd)
    }
}

} // verus!
