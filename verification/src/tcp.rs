//! TCP: wire codec, connection state machine, per-socket engine and the
//! socket table that drives them.

pub mod segment;
pub mod socket;
pub mod state;
pub mod wire;

pub use socket::IpEndpoint;
pub use socket::Socket;
pub use socket::Tcp;
pub use state::State;
