//! A shared/intent/exclusive lock and small statistics records.
//!
//! The heart of the crate is [`six::SixLock`], a three-mode lock whose
//! intermediate *intent* mode lets a holder announce an upcoming write
//! without blocking readers. Guards are move-only capability tokens; every
//! acquisition, duplication and release is matched one-to-one against the
//! lock's counters, and the contracts pin each transition exactly.

pub mod mean_and_variance;
pub mod six;
