//! Verified core of the RedLeaf IDL compiler: the data structures, passes
//! and rules that check IDL sources and decide what gets generated.

pub mod flat_map;
pub mod ty;
pub mod print;
pub mod ast;
pub mod path_refactoring;
pub mod text;
pub mod symbols;
pub mod copy;
pub mod resolve;
pub mod collect;
pub mod typeid;
pub mod attrs;
pub mod domain_create;
pub mod proxy;
pub mod idl_types;
pub mod entrypoint;
pub mod red_idl;
pub mod macros;
pub mod sanity;
pub mod preverify;
pub mod generate;
pub mod inject;
pub mod utils;
pub mod idl_files;
pub mod glue;
pub mod ir;
pub mod reject;
pub mod prune;
