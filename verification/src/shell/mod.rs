//! The interactive shell's verified parts: the pipeline grammar and the
//! execution plan built from it.

pub mod pipeline;
