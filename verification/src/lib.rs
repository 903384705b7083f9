//! The rules by which agents and registries share signed contexts: which
//! publications a registry takes in, what a retrieved context must pass to
//! count as verified, and how compromised keys are found out and refused.
//!
//! Every function states in its contract what it returns. What needs the
//! network, a clock or cryptography is asked for by a value and answered from
//! outside; the contracts hold for every answer. Facts that relate several
//! functions are proof functions whose names begin with `law_`.

use vstd::prelude::*;

pub mod assoc;
pub mod budget;
pub mod cross_registry;
pub mod derived_walk;
pub mod discovery;
pub mod error;
pub mod json;
pub mod key_revocation;
pub mod lineage_walk;
pub mod policy;
pub mod registry;
pub mod report;
pub mod revocation;
pub mod revocation_cache;
pub mod search;
pub mod text;
pub mod time;
pub mod types;
pub mod validator;
pub mod verified;

verus! {

} // verus!
