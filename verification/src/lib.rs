//! Deterministic pseudo-random orderings of the full value range of the
//! fixed-width unsigned integer types.
//!
//! Each width module provides a seed-derived [`Config`] describing a bijective
//! permutation of the type's full range, and a [`RandomSequence`] cursor that
//! walks that permutation forward and backward and answers random-access
//! queries in O(1). The sequence is deterministic and repeatable, visits every
//! value of the type exactly once per cycle, and wraps around at the type's
//! boundary. It is not cryptographically secure.
//!
//! [`Config`]: sequence_u64::Config
//! [`RandomSequence`]: sequence_u64::RandomSequence

mod arith;
pub mod sequence_u16;
pub mod sequence_u32;
pub mod sequence_u64;
pub mod sequence_u8;
