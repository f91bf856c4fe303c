//! Judge worker node of a distributed programming-contest grading system.
//!
//! The worker keeps one authenticated session with a master, accepts at most
//! one judging job at a time, compiles submissions together with checkers and
//! optional managers, runs them under an external sandbox, and maps sandbox
//! outcomes to verdicts that are streamed back to the master.

pub mod bytecodec;
pub mod cache;
pub mod config;
pub mod constants;
pub mod crypto;
pub mod language;
pub mod meta;
pub mod numfmt;
pub mod resultfile;
pub mod sandbox;
pub mod session;
pub mod verdict;
pub mod wire;
