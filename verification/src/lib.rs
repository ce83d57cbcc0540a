//! Move-generation engine for a chess variant in which every piece type's
//! movement is defined by a small scripting language.
//!
//! The core is a pipeline: script text is lexed into a flat token stream
//! (`lexer`), a stack-machine evaluator walks that stream against a read-only
//! board snapshot and produces an ordered list of activated target squares
//! (`interp`), and a thin adapter turns activations into candidate moves on
//! the real game state (`game`).  The mathematical meaning of a token stream
//! is given once, as a small-step relation over ghost configurations
//! (`semantics`); the executable interpreter is proved to compute exactly
//! that relation's result.

pub mod board;
pub mod game;
pub mod interp;
pub mod laws;
pub mod lexer;
pub mod pieces;
pub mod semantics;
pub mod tokens;
