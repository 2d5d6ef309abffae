//! A single-pass heuristic scanner for CommonJS modules: it reads raw source
//! text and reports which names the module exports, which modules it
//! requires, and any re-export, without building a syntax tree.
pub mod chars;
pub mod model;
pub mod parser;
pub mod utils;
