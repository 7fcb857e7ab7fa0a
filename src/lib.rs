//! Verification, extraction and predicate logic for attested TLS responses,
//! and the host-side decisions that turn a run into a proof fixture.

pub mod amount;
pub mod error;
pub mod fixture;
pub mod json;
pub mod pipeline;
pub mod predicate;
pub mod prover;
pub mod query;
pub mod text;
