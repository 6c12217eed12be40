//! Judging core of a programming-contest platform: a content-addressed
//! artifact store, the material and scoring model derived from a judge's
//! task tree, the evaluation state machine, and the access guard.

pub mod api;
pub mod auth;
pub mod content;
pub mod error;
pub mod evaluation;
pub mod material;
pub mod misc;
pub mod order;
pub mod score;
pub mod store;
pub mod text;
