//! Decoding of historic blockchain extrinsics and storage entries.
//!
//! The crate normalises several generations of runtime metadata into one
//! schema model, decodes extrinsic and storage bytes against that model,
//! and offers two generic driving primitives: a bisection search over a
//! range of positions, and the pure decision logic of a concurrent,
//! ordered-output worker pool.

pub mod binary_chopper;
pub mod call_types;
pub mod errors;
pub mod extrinsic_decoder;
pub mod extrinsic_type_info;
pub mod metadata;
pub mod runner;
pub mod storage_decoder;
pub mod storage_entries_list;
pub mod storage_type_info;
pub mod type_resolver;
pub mod utils;
