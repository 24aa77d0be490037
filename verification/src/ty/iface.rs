//! Descriptions of the signatures of the built-in procedures.

use vstd::prelude::*;

verus! {

/// A procedure's signature: its name, its parameters and its return type.
#[derive(Debug)]
pub struct Procedure {
    pub name: &'static str,
    pub params: Vec<Param>,
    pub ret_ty: Option<&'static str>,
}

/// A parameter: whether it may be left out, its name, its type and its
/// default value.
#[derive(Debug)]
pub struct Param {
    pub optional: bool,
    pub name: &'static str,
    pub ty: Option<&'static str>,
    pub default_val: Option<&'static str>,
}

} // verus!
