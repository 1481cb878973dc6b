//! Runtime values of the sum type a schema describes.
//!
//! The synthesized accessors are defined by what they compute on such
//! values: a value carries the index of the variant it inhabits and one
//! plain value per field, in declaration order.

use vstd::prelude::*;

use crate::schema::Schema;

verus! {

broadcast use vstd::std_specs::vec::group_vec_axioms, vstd::seq::group_seq_axioms;

/// One plain field value: an integer or a string.
#[derive(PartialEq, Eq, Debug, Clone)]
pub enum Value {
    /// An integer value.
    Int(i64),
    /// A string value.
    Str(String),
}

/// One runtime value of the sum type: the variant it inhabits, by schema
/// index, and its field values in declaration order.
#[derive(PartialEq, Eq, Debug)]
pub struct EnumValue {
    /// The index of the inhabited variant in the schema's variant list.
    pub variant: usize,
    /// The field values, in declaration order.
    pub fields: Vec<Value>,
}

/// Whether `v` is a value of the sum type `s` describes: its variant index
/// is in range and it carries one value per field of that variant.
pub open spec fn spec_value_wf(s: Schema, v: EnumValue) -> bool {
    &&& (v.variant as int) < s.variants@.len()
    &&& v.fields@.len() == s.variants@[v.variant as int].fields@.len()
}

} // verus!
