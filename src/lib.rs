//! Validation of PacketCrypt announcements and block proof-of-work shares.
//!
//! Announcements are fixed 1024-byte records; a share combines an 80-byte
//! block header, a low nonce and four announcements with a coinbase. The
//! crate reads the fixed-offset fields, expands compact difficulty targets,
//! and checks both kinds of proof, with every rule stated in the contracts.
pub mod announce;
pub mod block;
pub mod difficulty;
pub mod laws;
pub mod layout;
pub mod primitives;

pub use announce::{check_ann, init, PacketCryptAnn, ValidateCtx};
pub use block::check_block_work;
pub use layout::{hard_nonce, parent_block_height, work_bits};
