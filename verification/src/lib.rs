//! Provisioning of development-tooling configuration into a project:
//! a structured-document merge/subtract engine, the reconcile cycle that
//! applies or undoes a provider's fragment against a live document, and
//! the provider lifecycle built on top of them.

pub mod configurator;
pub mod document;
pub mod error;
pub mod provider;
pub mod providers;
pub mod utils;

use vstd::prelude::*;

verus! {

} // verus!
