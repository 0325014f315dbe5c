//! Chunk bookkeeping, frame arithmetic and ring decisions for AF_XDP sockets.
pub mod error;
pub mod socket;
pub mod umem;
pub mod veth;
