//! KZG commitments and opening proofs over EIP-4844 blobs.
//!
//! The field and pairing arithmetic is done by the `c-kzg` library; this crate
//! holds the protocol layer around it: blob validation, trusted-setup loading,
//! commitment, point and blob openings, verification and sidecar assembly.
use vstd::prelude::*;

pub mod codec;
pub mod setup;
pub mod kzg;
pub mod sidecar;
