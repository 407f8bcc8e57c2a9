//! Column values as the persistence layer hands them around: set to a new
//! value, unchanged from the stored one, or not set at all.

use vstd::prelude::*;
use vstd::string::*;

verus! {

/// A column's value in a partially filled record: newly assigned, carried
/// over unchanged, or not set.
#[derive(Clone, Debug)]
pub enum ColumnValue<T> {
    Assigned(T),
    Unchanged(T),
    NotSet,
}

/// Whether a value is present, either newly set or carried over.
pub fn is_value_set<T>(value: &ColumnValue<T>) -> (r: bool)
    ensures
        r <==> !(value is NotSet),
{
    match value {
        ColumnValue::Assigned(_) => true,
        ColumnValue::Unchanged(_) => true,
        ColumnValue::NotSet => false,
    }
}

/// The text to show for a column: its value when present, nothing when not
/// set.
pub fn maybe(value: &ColumnValue<String>) -> (r: String)
    ensures
        value is Assigned ==> r@ == value->Assigned_0@,
        value is Unchanged ==> r@ == value->Unchanged_0@,
        value is NotSet ==> r@.len() == 0,
{
    match value {
        ColumnValue::Assigned(v) => v.clone(),
        ColumnValue::Unchanged(v) => v.clone(),
        ColumnValue::NotSet => String::new(),
    }
}

} // verus!
