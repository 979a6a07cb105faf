//! Authority-chain core of a credential-management system.
//!
//! The library models a five-tier key hierarchy (Skull, Master, Repo,
//! Ignition, Distro), derives fingerprints for key material, maintains a
//! registry of keys with parent/child authority relationships, signs and
//! verifies authority proofs, seals affected-key manifests with digests,
//! wraps ignition keys under a passphrase, and enforces key policies.
//! Every operation carries a contract; filesystem and command-line glue
//! live outside the library.

pub mod chain;
pub mod clock;
pub mod crypto;
pub mod entropy;
pub mod errors;
pub mod hierarchy;
pub mod ignition;
pub mod keys;
pub mod manifests;
pub mod material;
pub mod policy;
pub mod proofs;
pub mod storage;
pub mod text;
