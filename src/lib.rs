//! A runtime for legacy visual-programming projects.
//!
//! - `json`, `json_fields`: the document tree a project is read from.
//! - `sb2`: the legacy project tree and its untagged block arrays, read by
//!   `sb2::decode` and `sb2::document`, written back by `sb2::encode`.
//! - `sb4`: the canonical program that every format converts into, and the
//!   conversion from the legacy tree.
//! - `assets`: one handle per distinct `(md5, extension)` asset key.
//! - `virtual_machine`: installing a program and the cooperative scheduler
//!   that gives every thread its turn within a per-tick work budget.
use vstd::prelude::*;

pub mod assets;
pub mod json;
pub mod json_fields;
pub mod project_bundle;
pub mod sb2;
pub mod sb4;
pub mod virtual_machine;

verus! {

} // verus!
