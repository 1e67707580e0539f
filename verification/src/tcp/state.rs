//! The RFC 9293 connection states.

use vstd::prelude::*;

verus! {

/// The RFC 9293 TCP connection state.
#[derive(Debug, Clone, Copy, PartialEq, Eq, Structural)]
pub enum State {
    Closed,
    Listen,
    SynSent,
    SynReceived,
    Established,
    FinWait1,
    FinWait2,
    Closing,
    TimeWait,
    CloseWait,
    LastAck,
}

impl State {
    /// The conventional name of the state.
    pub fn name(&self) -> String {
        match self {
            State::Closed => "CLOSED".to_string(),
            State::Listen => "LISTEN".to_string(),
            State::SynSent => "SYN-SENT".to_string(),
            State::SynReceived => "SYN-RECEIVED".to_string(),
            State::Established => "ESTABLISHED".to_string(),
            State::FinWait1 => "FIN-WAIT-1".to_string(),
            State::FinWait2 => "FIN-WAIT-2".to_string(),
            State::Closing => "CLOSING".to_string(),
            State::TimeWait => "TIME-WAIT".to_string(),
            State::CloseWait => "CLOSE-WAIT".to_string(),
            State::LastAck => "LAST-ACK".to_string(),
        }
    }
}

} // verus!
