//! Bun-to-Deno runtime migration: lexing and deterministic source recipes.
pub mod inspect;
pub mod lex;
pub mod recipe;
pub mod transaction;
pub mod model;
pub mod plan;
