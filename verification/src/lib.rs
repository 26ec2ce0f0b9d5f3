//! CineForge core library: the parsing, normalisation and project-state
//! logic behind the screenplay workflow, with Verus contracts.
pub mod text;
pub mod duration;
pub mod strmap;
pub mod json;
pub mod screenplay_store;
pub mod blocks;
pub mod step_parser;
pub mod model_text;
pub mod v5_parser;
pub mod dual_region;
pub mod prompt_generation;
pub mod seedance;
pub mod crud;
pub mod screenplay;
pub mod llm;
pub mod auth;
pub mod asset_extraction;
pub mod prompts;
pub mod review;
pub mod generation;
