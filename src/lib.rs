//! Turns a tree of route source files into a routing table and the source
//! text that registers it in a generated server entry point.
pub mod text;
pub mod route;
pub mod table;
pub mod codegen;
