//! Governance scoring and trends for dbt projects: the verified core.

pub mod calendar;
pub mod check;
pub mod clock;
pub mod text;
pub mod manifest;
pub mod policy;
pub mod render;
pub mod score;
pub mod tier;

use vstd::prelude::*;

verus! {

/// Version of this library, reported in check reports.
pub const VERSION: &'static str = "0.1.2";

} // verus!
