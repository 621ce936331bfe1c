//! An AWK-like language over JSON: a program of rules, each a pattern and a
//! body, is compiled to code for a stack machine, and the machine runs the
//! rules over the elements of a JSON document.
//!
//! The library is verified. [`lexer`] reads tokens, [`compiler`] writes the
//! code that [`grammar`] defines, and [`vm`] runs it as [`semantics`] says.
//! Floating point arithmetic and output are left to the host: the machine
//! stops with a request where it needs either, and goes on with the reply.
//! [`laws`], [`balance`] and [`weights`] prove what holds of every program
//! and every run.
pub mod balance;
pub mod compiler;
pub mod debug;
pub mod grammar;
pub mod json;
pub mod laws;
pub mod lexer;
pub mod number;
pub mod pattern;
pub mod semantics;
pub mod text;
pub mod vm;
pub mod weights;
