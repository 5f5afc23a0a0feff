//! A harness that builds, tests and benchmarks many registry packages in turn,
//! resumable through one durable result record per package.
//!
//! The library holds the harness's decisions: the package specifier grammar,
//! the assembly of the package set, the outcome taxonomy and its record text,
//! the on-disk layout, and the two state machines that sequence one package's
//! attempt and the whole run. The program around it performs the I/O.

pub mod package;
pub mod assemble;
pub mod outcome;
pub mod layout;
pub mod attempt;
pub mod driver;
pub mod run_model;
