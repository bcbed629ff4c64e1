//! Classification of compiler command lines and planning of the two-phase
//! preprocess-then-compile protocol of a compiler-output cache.
//!
//! A raw invocation is matched against layered argument tables, interpreted
//! as a single-source compilation or rejected, and turned into the explicit
//! process invocations of both phases. Nothing here starts a process: the
//! library computes what is to be run and what the outcome means.
//!
//! - [`args`]: descriptors, tables and the classifier.
//! - [`ambiguity`]: when a table is free of ambiguity.
//! - [`layers`]: what holds of lookup in two layers.
//! - [`parse`]: from classified arguments to the outcome of parsing.
//! - [`compiler`]: the data of a request and the interface of a family.
//! - [`gcc`], [`msvc`]: the two baselines.
//! - [`clangcl`], [`clanghip`], [`hcc`], [`nvcc`]: the families.
//! - [`request`]: the life of a request as a state machine.
//! - [`text`]: text primitives.

pub mod ambiguity;
pub mod args;
pub mod clangcl;
pub mod clanghip;
pub mod compiler;
pub mod gcc;
pub mod hcc;
pub mod layers;
pub mod msvc;
pub mod nvcc;
pub mod parse;
pub mod request;
pub mod text;
