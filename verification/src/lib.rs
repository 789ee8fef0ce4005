//! Inference of the trait bounds that a generic implementation has to declare,
//! from the way its type parameters flow into the functions it calls.

pub mod analysis_laws;
pub mod data;
pub mod equality_sets;
pub mod error;
pub mod fresh_generics;
pub mod generics;
pub mod ident;
pub mod laws;
pub mod lexer;
pub mod most_concrete;
pub mod param_map;
pub mod path;
pub mod relevance;
pub mod relevance_laws;
pub mod syntax;
pub mod trait_inference;
pub mod ty;
