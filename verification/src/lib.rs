//! Replacing data files in an Iceberg table.
//!
//! An overwrite adds data files to a table and removes others by rewriting the manifests that
//! list them. This crate holds the rules of that operation and of the conflict check that guards
//! it; reading and writing tables is left to the caller. Where a rule needs something only the
//! caller can do, the function stops in a state that says what is wanted, and the caller resumes
//! that state with the answer.

pub mod action;
pub mod check_steps;
pub mod commit_laws;
pub mod commit_steps;
pub mod conflict_laws;
pub mod error;
pub mod existing;
pub mod existing_steps;
pub mod id_laws;
pub mod ids;
pub mod manifest_laws;
pub mod model;
pub mod operation;
pub mod operation_laws;
pub mod overwrite_laws;
pub mod partition_filter;
pub mod removal_laws;
pub mod seqs;
pub mod text;
pub mod validate;
pub mod validate_laws;
pub mod validate_steps;
