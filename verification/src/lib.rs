//! A fixed-layout byte buffer shared between a host and an embedded module,
//! and the routine that composes a greeting into it, in two variants.

pub mod buffer;
pub mod growth;
pub mod no_growth;
pub mod text;
