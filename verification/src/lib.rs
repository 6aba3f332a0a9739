//! Static analysis core of a WebAssembly text format language service:
//! the symbol table built from the syntax tree, control flow graphs,
//! dataflow lints over locals, checks on instructions, limits and lanes,
//! configuration and the open-document store.

pub mod config;
pub mod data_set;
pub mod deprecation;
pub mod idx;
pub mod syntax;
pub mod text;
pub mod binder;
pub mod bind;
pub mod cfa;
pub mod cfa_laws;
pub mod checker;
pub mod document;
pub mod exports;
pub mod service;
