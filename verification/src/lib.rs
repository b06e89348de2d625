//! The decisions of the ALBERT trainer, verified with Verus.
//!
//! Training a mixture-of-experts model takes tensors, files and floating point; deciding what to
//! do with them does not. This crate holds the deciding part: the grammar of tensor names, the
//! plans of the surgeries that grow a model, the corpus cache, the command line, the telemetry
//! lines and the state machines that watch a training run.
pub mod burst;
pub mod cascade;
pub mod checkpoint;
pub mod clock;
pub mod config;
pub mod cord;
pub mod cord_laws;
pub mod corpus;
pub mod flag_laws;
pub mod flags;
pub mod fraction;
pub mod fusion;
pub mod growth;
pub mod growth_laws;
pub mod json;
pub mod names;
pub mod numerals;
pub mod paths;
pub mod progress;
pub mod resurrection;
pub mod sampling;
pub mod schedule;
pub mod seeding;
pub mod shape;
pub mod steps;
pub mod streaks;
pub mod surgery_laws;
pub mod telemetry;
pub mod text;
pub mod watch;

