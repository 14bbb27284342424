//! Reads OMG IDL and builds the tree of modules, types and constants it declares.

pub mod ast;
pub mod checking;
pub mod config;
pub mod context;
pub mod declaration_laws;
pub mod effect_laws;
pub mod error;
pub mod expression_laws;
pub mod fault_laws;
pub mod generator;
pub mod grammar;
pub mod laws;
pub mod model_laws;
pub mod module;
pub mod node;
pub mod output_laws;
pub mod process_laws;
pub mod processing;
pub mod processor;
pub mod reader;
pub mod reading;
pub mod render;
pub mod repetition;
pub mod rule;
pub mod rule_laws;
pub mod runs;
pub mod rust_text;
pub mod shape_laws;
pub mod source_laws;
pub mod sources;
pub mod table;
pub mod template;
pub mod text;
pub mod text_laws;
pub mod token;
pub mod tree;
pub mod wanting;
