//! A small user-space TCP engine: the connection state machine of RFC 793,
//! wrap-around sequence arithmetic and the construction of outbound frames.

pub mod seq;
pub mod wire;
pub mod tcp;
pub mod engine;
