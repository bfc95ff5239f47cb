//! Static front end for the LC-3 assembly language: a tokenizer, a parser
//! producing one structural node per source construct, and two semantic
//! passes (label resolution and literal range checking) that attach
//! diagnostics to the nodes.

pub mod ast;
pub mod chars;
pub mod lexer;
pub mod numlit;
pub mod parser;
pub mod passes;
pub mod tokens;
