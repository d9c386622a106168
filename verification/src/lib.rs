//! Organization management rules of the RBAC plugin: permission display
//! labels, validation and normalisation of department and post writes, and
//! the form and table rules of the organization pages.
use vstd::prelude::*;

pub mod hierarchy;
pub mod model;
pub mod numbers;
pub mod organization;
pub mod page_flow;
pub mod pages;
pub mod permissions;
pub mod text;

verus! {

} // verus!
