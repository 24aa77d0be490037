//! Conversions between the runtime types.

use vstd::prelude::*;

use crate::ty::types::{Boolean, Result, Variant};

verus! {

/// The truth value of a variant, as `CBool`: a boolean is itself, a number is
/// true unless it is zero.
pub open spec fn spec_c_bool(expression: Variant) -> bool {
    match expression {
        Variant::Boolean(b) => b@,
        Variant::Integer(i) => i@ != 0,
        Variant::Long(l) => l@ != 0,
    }
}

/// Converts a variant to a boolean. It always succeeds.
pub fn c_bool(expression: Variant) -> (r: Result<Boolean>)
    ensures
        r is Ok,
        r matches Ok(b) && b@ == spec_c_bool(expression),
{
    match expression {
        Variant::Boolean(boolean) => Ok(boolean),
        Variant::Integer(integer) => if integer.is_zero() {
            Ok(Boolean::false_())
        } else {
            Ok(Boolean::true_())
        },
        Variant::Long(long) => if long.is_zero() {
            Ok(Boolean::false_())
        } else {
            Ok(Boolean::true_())
        },
    }
}

/// `CBool` keeps a boolean as it is and makes a number true exactly when it
/// is not zero.
pub proof fn lemma_c_bool_truth(v: Variant)
    ensures
        v matches Variant::Boolean(b) ==> spec_c_bool(v) == b@,
        v matches Variant::Integer(i) ==> (spec_c_bool(v) <==> i@ != 0),
        v matches Variant::Long(l) ==> (spec_c_bool(v) <==> l@ != 0),
{
}

} // verus!
