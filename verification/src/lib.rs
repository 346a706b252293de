//! Handshake core of the Noise Protocol Framework (revision 34): a
//! pattern-driven state machine that negotiates an authenticated session
//! between two parties, accumulating a transcript hash and deriving a pair
//! of transport cipher states.

pub mod error;
pub mod params;
pub mod crypto;
pub mod cipherstate;
pub mod symmetricstate;
pub mod handshakestate;
pub mod laws;
