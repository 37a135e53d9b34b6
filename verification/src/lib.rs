//! Auditing of validator votes: retry policy, leader schedule expansion,
//! vote transaction filtering, vote instruction decoding and the per-slot
//! report, each with a machine-checked contract.

pub mod text;
pub mod json;

pub mod retry;
pub mod vote;
pub mod block;
pub mod leader;
pub mod scan;
pub mod request;
