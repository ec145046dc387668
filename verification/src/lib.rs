//! Verified core of an SBOM dependency scanner: registry-reply
//! classification, repository-URL normalization, bulk-resolution
//! aggregation, scan-output rendering, and the pipeline state machine.
//! All I/O (network, subprocess, filesystem, terminal) lives outside
//! this crate; the functions here take plain values and return plain
//! values, with contracts stating exactly what they compute.

pub mod npm;
pub mod pipeline;
pub mod scan;
pub mod text;
