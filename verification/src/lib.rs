//! Front end of a small Lua toolchain: a tokenizer, a recursive-descent
//! parser with precedence climbing, a canonical renderer, and a lowering
//! of structured control flow into a control-flow graph of basic blocks.

pub mod ast;
pub mod lexer;
pub mod cfg;
pub mod render;
pub mod parser;
