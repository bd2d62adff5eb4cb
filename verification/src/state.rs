use vstd::prelude::*;

verus! {

/// The states a connection opened passively can be in.
#[derive(Clone, Copy, Debug, PartialEq, Eq, Structural)]
pub enum State {
    /// A SYN was received and answered with a SYN-ACK; waiting for its acknowledgment.
    SynRcvd,
    /// The handshake is complete.
    Estab,
}

impl State {
    /// Whether the state is a synchronized one (in RFC 793 terms, not LISTEN,
    /// SYN-SENT or SYN-RECEIVED).
    pub open spec fn synchronized(self) -> bool {
        self == State::Estab
    }

    /// Whether the connection has reached a synchronized state; LISTEN,
    /// SYN-SENT and SYN-RECEIVED are the non-synchronized ones.
    pub fn is_state_syncronized(&self) -> (r: bool)
        ensures
            r == self.synchronized(),
    {
        match self {
            State::SynRcvd => false,
            State::Estab => true,
        }
    }
}

} // verus!
