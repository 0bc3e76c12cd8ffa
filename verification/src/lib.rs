//! A decentralized message exchange in which every participant decides for
//! itself whether to accept an incoming message, based on cryptographic
//! integrity, causal history, and a dynamically adjusted trust score for the
//! sender.
//!
//! The crate is organised leaves first: identity and digest primitives
//! (`types`), the canonical content model (`content`, `blob`), the canonical
//! byte codec that digesting and the wire form rest on (`codec`), evidence
//! collapse (`phi`), fusion of retinal observations (`fuse`), the two
//! verification predicates (`verify`), the per-identity trust book
//! (`reputation`), the shared in-memory delivery bus (`transport`,
//! `transport_mem`), the wire envelope (`wire`), and the per-participant
//! orchestrator (`node`). `laws` states and proves the properties that
//! relate several of these components.

pub mod types;
pub mod assoc;
pub mod blob;
pub mod content;
pub mod codec;
pub mod reputation;
pub mod verify;
pub mod phi;
pub mod fuse;
pub mod transport;
pub mod transport_mem;
pub mod wire;
pub mod node;
pub mod laws;
