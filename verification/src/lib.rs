//! Verified pieces of a sequencing-format toolkit.
//!
//! The heart of the crate is [`name_tokenizer`], a decoder for the
//! compressed, column-oriented token stream that stores batches of read
//! names: it splits a block into per-column byte streams and rebuilds every
//! name in ordinal order, resolving duplicate and delta references against
//! earlier names. Around it stand smaller verified pieces of the same
//! toolkit: header record value parsers, index writers and builders, and
//! the plain record types they share.

use vstd::prelude::*;

mod num;

pub mod bam_field_ty;
pub mod bed_record;
pub mod cram_read_group;
pub mod csi_bin_builder;
pub mod fastq_record;
pub mod gtf_writer;
pub mod name_tokenizer;
pub mod rans_4x8;
pub mod sam_read_group;
pub mod sam_refseq;
pub mod tabix_index;
pub mod tabix_writer;

pub use crate::num::le32;
pub use crate::num::read_u32_le;

verus! {

} // verus!
