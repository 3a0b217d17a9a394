//! Deterministic benchmark kernels.
//!
//! A fixed catalogue of small compute workloads, each with constant input
//! sizes and a shared linear-congruential generator, so that every run does
//! the same work. Each kernel carries a contract that pins down its result;
//! each `rust_*` entry point runs one kernel on the catalogue's constants.
//!
//! Draws in the unit interval are held as exact numerators over `2^32`, so
//! everything here is integer arithmetic.

pub mod aead;
pub mod buffer;
pub mod compression;
pub mod coverage;
pub mod fibonacci;
pub mod generator;
pub mod hashing;
pub mod monte_carlo;
pub mod matrix;
pub mod sieve;
pub mod sorting;
pub mod text;

pub use aead::rust_aes_encrypt;
pub use compression::rust_compression;
pub use coverage::rust_ray_trace;
pub use fibonacci::rust_fibonacci;
pub use hashing::rust_sha256;
pub use matrix::rust_matrix_multiply;
pub use monte_carlo::rust_monte_carlo_pi;
pub use sieve::rust_prime_sieve;
pub use sorting::{rust_bubblesort, rust_quicksort};
pub use text::rust_json_parse;
