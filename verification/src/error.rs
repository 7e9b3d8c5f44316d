//! Classification of everything that can go wrong while planning a route.
//!
//! `Loading` is a transient state (required data not fetched yet), `Input`
//! means the user has not completed a selection, `Routing` means the filtered
//! graph has no valid path or is missing an endpoint (recoverable by changing
//! filters or selection), and `Critical` means the data itself is malformed or
//! violates a structural invariant.

use vstd::prelude::*;

verus! {

#[derive(Debug, Clone, PartialEq, Eq, Structural)]
pub enum ErrorCategory {
    Loading,
    Input,
    Routing,
    Critical,
}

#[derive(Debug, Clone)]
pub struct ErrorStatus {
    pub category: ErrorCategory,
    pub description: String,
}

impl PartialEq for ErrorStatus {
    fn eq(&self, other: &ErrorStatus) -> (r: bool)
        ensures
            r == (self.category == other.category && self.description@ == other.description@),
    {
        self.category == other.category && self.description == other.description
    }
}

impl vstd::std_specs::cmp::PartialEqSpecImpl for ErrorStatus {
    open spec fn obeys_eq_spec() -> bool {
        true
    }

    open spec fn eq_spec(&self, other: &ErrorStatus) -> bool {
        self.category == other.category && self.description@ == other.description@
    }
}

pub fn loadingerror(description: String) -> (r: ErrorStatus)
    ensures
        r.category == ErrorCategory::Loading,
        r.description == description,
{
    ErrorStatus { category: ErrorCategory::Loading, description }
}

pub fn inputerror(description: String) -> (r: ErrorStatus)
    ensures
        r.category == ErrorCategory::Input,
        r.description == description,
{
    ErrorStatus { category: ErrorCategory::Input, description }
}

pub fn routingerror(description: String) -> (r: ErrorStatus)
    ensures
        r.category == ErrorCategory::Routing,
        r.description == description,
{
    ErrorStatus { category: ErrorCategory::Routing, description }
}

pub fn criticalerror(description: String) -> (r: ErrorStatus)
    ensures
        r.category == ErrorCategory::Critical,
        r.description == description,
{
    ErrorStatus { category: ErrorCategory::Critical, description }
}

} // verus!
