//! A two-stage front end for a small JavaScript-like statement language:
//! a lexer that turns source text into tokens, and a precedence-climbing
//! recursive-descent parser that turns the token stream into an abstract
//! syntax tree.  Every stage is specified against a mathematical model of
//! the input (sequences of characters and of token views) and verified.

pub mod error;
pub mod exp;
pub mod express;
pub mod grammar;
pub mod lex;
pub mod node;
pub mod parser;
pub mod strutil;
pub mod wordlist;
