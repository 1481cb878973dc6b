//! Extraction of flagged variants into standalone product types.
//!
//! A variant marked for extraction yields a product type mirroring its
//! fields, under the parent's and variant's joined name, carrying only the
//! generic parameters its field types structurally reference — keeping the
//! unused ones out of the extracted declaration.  The value conversions
//! between the sum type and the extracted product are total upward and
//! partial downward: converting down demands the right variant, a
//! programmer-error contract rather than a recoverable outcome.

use vstd::prelude::*;
use vstd::string::StringExecFns;

use crate::schema::{spec_variant_extractable, variant_extractable, Field, Schema, Variant};
use crate::ty::{param_clone, param_used, spec_param_eq, spec_param_used, spec_ty_eq, ty_clone,
    GenericParam};
use crate::value::{EnumValue, Value};

verus! {

broadcast use vstd::std_specs::vec::group_vec_axioms, vstd::seq::group_seq_axioms;

/// One extracted product type: a standalone mirror of a flagged variant's
/// fields, with every field visible and every annotation dropped.
#[derive(PartialEq, Eq, Debug)]
pub struct InnerStructDecl {
    /// The product type's name: the parent's name, the variant's name and
    /// the extraction suffix, joined.
    pub name: String,
    /// Whether the fields are named; otherwise they are positional.
    pub named: bool,
    /// The minimal generic-parameter subset: the parent's parameters that
    /// some field type structurally references, in declaration order.
    pub generics: Vec<GenericParam>,
    /// The variant's fields with their annotations cleared.
    pub fields: Vec<Field>,
}

/// Whether some field of `v` structurally references the parameter `p`.
pub open spec fn spec_param_used_by_variant(v: Variant, p: GenericParam) -> bool {
    exists|i: int| 0 <= i < v.fields@.len() && spec_param_used(#[trigger] v.fields@[i].ty, p)
}

/// The parent parameters among the first `n` that some field of `v`
/// references, in declaration order.
pub open spec fn spec_inner_generics_prefix(s: Schema, v: Variant, n: int) -> Seq<GenericParam>
    decreases n,
{
    if n <= 0 {
        Seq::empty()
    } else {
        let rest = spec_inner_generics_prefix(s, v, n - 1);
        if spec_param_used_by_variant(v, s.generics@[n - 1]) {
            rest.push(s.generics@[n - 1])
        } else {
            rest
        }
    }
}

/// The minimal generic-parameter subset of the extracted product of `v`:
/// the parent's parameters that some field type references, in declaration
/// order.
pub open spec fn spec_inner_generics(s: Schema, v: Variant) -> Seq<GenericParam> {
    spec_inner_generics_prefix(s, v, s.generics@.len() as int)
}

/// The schema indices of the variants marked for extraction, among the
/// first `n`, in schema order.
pub open spec fn spec_extractable_prefix(s: Schema, n: int) -> Seq<usize>
    decreases n,
{
    if n <= 0 {
        Seq::empty()
    } else {
        let rest = spec_extractable_prefix(s, n - 1);
        if spec_variant_extractable(s.variants@[n - 1]) {
            rest.push((n - 1) as usize)
        } else {
            rest
        }
    }
}

/// The schema indices of the variants marked for extraction, in schema
/// order.
pub open spec fn spec_extractable(s: Schema) -> Seq<usize> {
    spec_extractable_prefix(s, s.variants@.len() as int)
}

/// Whether `d` is the extracted product of variant `vi` of `s`: the joined
/// name, the variant's field shape, the cleared fields, and the minimal
/// generic subset.
pub open spec fn spec_inner_decl_matches(d: InnerStructDecl, s: Schema, vi: int) -> bool {
    let v = s.variants@[vi];
    &&& d.name@ == s.name@ + v.name@ + "Inner"@
    &&& d.named == v.named
    &&& d.generics@.len() == spec_inner_generics(s, v).len()
    &&& forall|k: int|
        0 <= k < d.generics@.len() ==> spec_param_eq(
            #[trigger] d.generics@[k],
            spec_inner_generics(s, v)[k],
        )
    &&& d.fields@.len() == v.fields@.len()
    &&& forall|k: int|
        0 <= k < d.fields@.len() ==> (#[trigger] d.fields@[k]).name@ == v.fields@[k].name@
            && spec_ty_eq(d.fields@[k].ty, v.fields@[k].ty) && d.fields@[k].attrs@.len() == 0
}

/// Builds the extracted product type of one variant: the mirrored fields
/// with annotations cleared, and only the generic parameters the field
/// types reference.
#[verifier::loop_isolation(false)]
fn extract_variant(s: &Schema, vi: usize) -> (d: InnerStructDecl)
    requires
        (vi as int) < s.variants@.len(),
    ensures
        spec_inner_decl_matches(d, *s, vi as int),
{
    let v = &s.variants[vi];
    let name = s.name.clone().concat(v.name.as_str()).concat("Inner");
    let mut generics: Vec<GenericParam> = Vec::new();
    let mut g: usize = 0;
    while g < s.generics.len()
        invariant
            g <= s.generics@.len(),
            generics@.len() == spec_inner_generics_prefix(*s, *v, g as int).len(),
            forall|k: int|
                0 <= k < generics@.len() ==> spec_param_eq(
                    #[trigger] generics@[k],
                    spec_inner_generics_prefix(*s, *v, g as int)[k],
                ),
        decreases s.generics@.len() - g,
    {
        let p = &s.generics[g];
        let mut used = false;
        let mut f: usize = 0;
        while f < v.fields.len()
            invariant
                f <= v.fields@.len(),
                used == exists|i: int|
                    0 <= i < f && spec_param_used(#[trigger] v.fields@[i].ty, *p),
            decreases v.fields@.len() - f,
        {
            if param_used(&v.fields[f].ty, p) {
                used = true;
            }
            f = f + 1;
        }
        let ghost prev = spec_inner_generics_prefix(*s, *v, g as int);
        let ghost cur = spec_inner_generics_prefix(*s, *v, g as int + 1);
        proof {
            assert(used == spec_param_used_by_variant(*v, s.generics@[g as int]));
            assert(forall|k: int| 0 <= k < prev.len() ==> cur[k] == #[trigger] prev[k]);
        }
        if used {
            generics.push(param_clone(p));
            proof {
                assert(cur == prev.push(s.generics@[g as int]));
            }
        }
        g = g + 1;
    }
    let mut fields: Vec<Field> = Vec::new();
    let mut f: usize = 0;
    while f < v.fields.len()
        invariant
            f <= v.fields@.len(),
            fields@.len() == f,
            forall|k: int|
                0 <= k < f ==> (#[trigger] fields@[k]).name@ == v.fields@[k].name@ && spec_ty_eq(
                    fields@[k].ty,
                    v.fields@[k].ty,
                ) && fields@[k].attrs@.len() == 0,
        decreases v.fields@.len() - f,
    {
        let src = &v.fields[f];
        fields.push(Field { name: src.name.clone(), ty: ty_clone(&src.ty), attrs: Vec::new() });
        f = f + 1;
    }
    InnerStructDecl { name, named: v.named, generics, fields }
}

/// Builds the extracted product type of every variant marked for
/// extraction, in schema order.
#[verifier::loop_isolation(false)]
pub fn extract_inners(s: &Schema) -> (r: Vec<InnerStructDecl>)
    ensures
        r@.len() == spec_extractable(*s).len(),
        forall|j: int|
            0 <= j < r@.len() ==> spec_inner_decl_matches(
                #[trigger] r@[j],
                *s,
                spec_extractable(*s)[j] as int,
            ),
{
    let mut r: Vec<InnerStructDecl> = Vec::new();
    let mut v: usize = 0;
    while v < s.variants.len()
        invariant
            v <= s.variants@.len(),
            r@.len() == spec_extractable_prefix(*s, v as int).len(),
            forall|j: int|
                0 <= j < r@.len() ==> spec_inner_decl_matches(
                    #[trigger] r@[j],
                    *s,
                    spec_extractable_prefix(*s, v as int)[j] as int,
                ),
        decreases s.variants@.len() - v,
    {
        let ghost prev = spec_extractable_prefix(*s, v as int);
        let ghost cur = spec_extractable_prefix(*s, v as int + 1);
        proof {
            assert(forall|k: int| 0 <= k < prev.len() ==> cur[k] == #[trigger] prev[k]);
        }
        if variant_extractable(&s.variants[v]) {
            let d = extract_variant(s, v);
            r.push(d);
            proof {
                assert(cur == prev.push(v));
            }
        }
        v = v + 1;
    }
    r
}

/// Converts a value of the sum type down into its extracted product's
/// fields.  The conversion is partial: it demands the expected variant,
/// and an invocation on any other variant is a programmer error that the
/// precondition excludes.
pub fn downcast(v: EnumValue, variant: usize) -> (r: Vec<Value>)
    requires
        v.variant == variant,
    ensures
        r@ == v.fields@,
{
    v.fields
}

/// Converts the fields of an extracted product back up into the sum type,
/// reconstructing the variant.  This direction is total.
pub fn upcast(variant: usize, fields: Vec<Value>) -> (r: EnumValue)
    ensures
        r.variant == variant,
        r.fields@ == fields@,
{
    EnumValue { variant, fields }
}

} // verus!
