//! Accessor synthesis: turning one resolved directive into its pair of
//! accessor functions, and the meaning of those functions on runtime
//! values.
//!
//! Each resolved directive yields two functions built from one shared
//! branch construction, a read-only one under the accessor's own name and
//! an exclusive one under the mutable-suffixed name.  Every synthesized
//! function is exhaustive over the variants by construction: its branch
//! list mirrors the schema's variant list, in schema order.  The
//! `access_*` and `store_*` functions below define what a synthesized
//! accessor computes on a value of the sum type.

use vstd::prelude::*;
use vstd::string::StringExecFns;

use crate::resolve::{lemma_elig_props, spec_card_ok, spec_elig, spec_elig_table, ResolvedDirective};
use crate::schema::Schema;
use crate::ty::{spec_ty_eq, ty_clone, TypeExpr};
use crate::value::{spec_value_wf, EnumValue, Value};
use crate::DirectiveKind;

verus! {

broadcast use vstd::std_specs::vec::group_vec_axioms, vstd::seq::group_seq_axioms;

/// One branch of a synthesized accessor: the variant it handles and the
/// indices of the fields the accessor touches there, in declaration order.
#[derive(PartialEq, Eq, Debug)]
pub struct Branch {
    /// The variant's name.
    pub variant: String,
    /// The indices of the eligible fields of that variant.
    pub fields: Vec<usize>,
}

/// One synthesized accessor function.
#[derive(PartialEq, Eq, Debug)]
pub struct AccessorFn {
    /// The function's name: the accessor's name, with the mutable suffix
    /// when `mutable` is set.
    pub name: String,
    /// The accessor name the directive was resolved under.
    pub accessor: String,
    /// Whether this is the exclusive (mutable) accessor of the pair.
    pub mutable: bool,
    /// The directive's kind.
    pub kind: DirectiveKind,
    /// The unified structural type of every field the accessor touches.
    pub result_ty: TypeExpr,
    /// One branch per variant, in schema order: the function is exhaustive
    /// by construction.
    pub branches: Vec<Branch>,
}

/// Whether `a` is an accessor of schema `s`: one branch per variant, in
/// schema order, each naming its variant and listing exactly the fields
/// eligible for the accessor's name, in declaration order.
pub open spec fn spec_accessor_wf(a: AccessorFn, s: Schema) -> bool {
    &&& a.branches@.len() == s.variants@.len()
    &&& forall|v: int|
        0 <= v < s.variants@.len() ==> (#[trigger] a.branches@[v]).variant@ == s.variants@[v].name@
    &&& forall|v: int|
        0 <= v < s.variants@.len() ==> (#[trigger] a.branches@[v]).fields@ == spec_elig(
            s.variants@[v].fields@,
            a.accessor@,
        )
}

/// A copy of an index list.
fn copy_indices(src: &Vec<usize>) -> (r: Vec<usize>)
    ensures
        r@ == src@,
{
    let mut r: Vec<usize> = Vec::new();
    let mut i: usize = 0;
    while i < src.len()
        invariant
            i <= src@.len(),
            r@ == src@.take(i as int),
        decreases src@.len() - i,
    {
        r.push(src[i]);
        proof {
            assert(r@ =~= src@.take(i as int + 1));
        }
        i = i + 1;
    }
    proof {
        assert(src@.take(src@.len() as int) =~= src@);
    }
    r
}

/// Builds one accessor function from a resolved directive, in the
/// requested reference mode.  The read-only and exclusive accessors of a
/// pair differ only in their name and mode; their branches come from this
/// one construction.
#[verifier::loop_isolation(false)]
pub fn synthesize_accessor(s: &Schema, rd: &ResolvedDirective, mutable: bool) -> (a: AccessorFn)
    requires
        rd.eligible.deep_view() == spec_elig_table(*s, rd.name@),
    ensures
        spec_accessor_wf(a, *s),
        a.accessor@ == rd.name@,
        a.mutable == mutable,
        a.kind == rd.kind,
        spec_ty_eq(a.result_ty, rd.unified_ty),
        a.name@ == if mutable {
            rd.name@ + "_mut"@
        } else {
            rd.name@
        },
{
    let name = if mutable {
        rd.name.clone().concat("_mut")
    } else {
        rd.name.clone()
    };
    let mut branches: Vec<Branch> = Vec::new();
    let mut v: usize = 0;
    proof {
        assert(rd.eligible@.len() == spec_elig_table(*s, rd.name@).len());
    }
    while v < s.variants.len()
        invariant
            v <= s.variants@.len(),
            branches@.len() == v,
            forall|x: int|
                0 <= x < v ==> (#[trigger] branches@[x]).variant@ == s.variants@[x].name@
                    && branches@[x].fields@ == spec_elig(s.variants@[x].fields@, rd.name@),
        decreases s.variants@.len() - v,
    {
        proof {
            assert(rd.eligible.deep_view()[v as int] == rd.eligible@[v as int].deep_view());
            assert(rd.eligible@[v as int].deep_view() =~= rd.eligible@[v as int]@);
        }
        let fields = copy_indices(&rd.eligible[v]);
        branches.push(Branch { variant: s.variants[v].name.clone(), fields });
        v = v + 1;
    }
    AccessorFn {
        name,
        accessor: rd.name.clone(),
        mutable,
        kind: rd.kind,
        result_ty: ty_clone(&rd.unified_ty),
        branches,
    }
}

/// Builds the accessor pair of one resolved directive: the read-only
/// function under the accessor's name, and its exclusive dual under the
/// mutable-suffixed name, from the same branch construction.
pub fn synthesize_pair(s: &Schema, rd: &ResolvedDirective) -> (pair: (AccessorFn, AccessorFn))
    requires
        rd.eligible.deep_view() == spec_elig_table(*s, rd.name@),
    ensures
        spec_accessor_wf(pair.0, *s),
        spec_accessor_wf(pair.1, *s),
        pair.0.accessor@ == rd.name@ && pair.1.accessor@ == rd.name@,
        !pair.0.mutable && pair.1.mutable,
        pair.0.kind == rd.kind && pair.1.kind == rd.kind,
        spec_ty_eq(pair.0.result_ty, rd.unified_ty) && spec_ty_eq(pair.1.result_ty, rd.unified_ty),
        pair.0.name@ == rd.name@,
        pair.1.name@ == rd.name@ + "_mut"@,
{
    let read = synthesize_accessor(s, rd, false);
    let write = synthesize_accessor(s, rd, true);
    (read, write)
}

/// What the read-only exact accessor returns: the value of the variant's
/// unique eligible field.
pub open spec fn spec_read_exact(s: Schema, name: Seq<char>, v: EnumValue) -> Value {
    v.fields@[spec_elig(s.variants@[v.variant as int].fields@, name)[0] as int]
}

/// What the read-only optional accessor returns: the unique eligible
/// field's value if the variant has one, nothing if it has none.
pub open spec fn spec_read_optional(s: Schema, name: Seq<char>, v: EnumValue) -> Option<Value> {
    let elig = spec_elig(s.variants@[v.variant as int].fields@, name);
    if elig.len() == 1 {
        Some(v.fields@[elig[0] as int])
    } else {
        None
    }
}

/// What the iterating accessor returns: the values of all eligible fields
/// of the variant, in declaration order.
pub open spec fn spec_read_iterate(s: Schema, name: Seq<char>, v: EnumValue) -> Seq<Value> {
    let elig = spec_elig(s.variants@[v.variant as int].fields@, name);
    Seq::new(elig.len(), |k: int| v.fields@[elig[k] as int])
}

/// The exact accessor: returns the variant's unique eligible field.
pub fn access_exact<'a>(s: &Schema, a: &AccessorFn, v: &'a EnumValue) -> (r: &'a Value)
    requires
        spec_accessor_wf(*a, *s),
        a.kind == DirectiveKind::Exact,
        spec_card_ok(DirectiveKind::Exact, *s, a.accessor@),
        spec_value_wf(*s, *v),
    ensures
        *r == spec_read_exact(*s, a.accessor@, *v),
{
    let b = &a.branches[v.variant];
    proof {
        let fields = s.variants@[v.variant as int].fields@;
        assert(fields.len() == vstd::std_specs::vec::spec_vec_len(
            &s.variants@[v.variant as int].fields,
        ));
        lemma_elig_props(fields, a.accessor@);
        assert(!crate::resolve::spec_card_violation(
            DirectiveKind::Exact,
            s.variants@[v.variant as int],
            a.accessor@,
        ));
    }
    let idx = b.fields[0];
    &v.fields[idx]
}

/// The exclusive exact accessor: hands out the variant's unique eligible
/// field for writing; the rest of the value stays as it was.
pub fn access_exact_mut<'a>(s: &Schema, a: &AccessorFn, v: &'a mut EnumValue) -> (r: &'a mut Value)
    requires
        spec_accessor_wf(*a, *s),
        a.kind == DirectiveKind::Exact,
        spec_card_ok(DirectiveKind::Exact, *s, a.accessor@),
        spec_value_wf(*s, *old(v)),
    ensures
        *r == spec_read_exact(*s, a.accessor@, *old(v)),
        final(v).variant == old(v).variant,
        final(v).fields@ == old(v).fields@.update(
            spec_elig(s.variants@[old(v).variant as int].fields@, a.accessor@)[0] as int,
            *final(r),
        ),
{
    let b = &a.branches[v.variant];
    proof {
        let fields = s.variants@[old(v).variant as int].fields@;
        assert(fields.len() == vstd::std_specs::vec::spec_vec_len(
            &s.variants@[old(v).variant as int].fields,
        ));
        lemma_elig_props(fields, a.accessor@);
        assert(!crate::resolve::spec_card_violation(
            DirectiveKind::Exact,
            s.variants@[old(v).variant as int],
            a.accessor@,
        ));
    }
    let idx = b.fields[0];
    &mut v.fields[idx]
}

/// The optional accessor: returns the variant's unique eligible field if
/// one exists, nothing if none does.
pub fn access_optional<'a>(s: &Schema, a: &AccessorFn, v: &'a EnumValue) -> (r: Option<&'a Value>)
    requires
        spec_accessor_wf(*a, *s),
        a.kind == DirectiveKind::Optional,
        spec_card_ok(DirectiveKind::Optional, *s, a.accessor@),
        spec_value_wf(*s, *v),
    ensures
        match r {
            Some(x) => *x == spec_read_optional(*s, a.accessor@, *v)->Some_0
                && spec_read_optional(*s, a.accessor@, *v) is Some,
            None => spec_read_optional(*s, a.accessor@, *v) is None,
        },
{
    let b = &a.branches[v.variant];
    proof {
        let fields = s.variants@[v.variant as int].fields@;
        assert(fields.len() == vstd::std_specs::vec::spec_vec_len(
            &s.variants@[v.variant as int].fields,
        ));
        lemma_elig_props(fields, a.accessor@);
        assert(!crate::resolve::spec_card_violation(
            DirectiveKind::Optional,
            s.variants@[v.variant as int],
            a.accessor@,
        ));
    }
    if b.fields.len() == 0 {
        None
    } else {
        let idx = b.fields[0];
        Some(&v.fields[idx])
    }
}

/// Writes the variant's unique eligible field through the exclusive
/// optional accessor.  Returns whether a field was eligible; when none
/// was, the value is left untouched.
pub fn store_optional(s: &Schema, a: &AccessorFn, v: &mut EnumValue, x: Value) -> (updated: bool)
    requires
        spec_accessor_wf(*a, *s),
        a.kind == DirectiveKind::Optional,
        spec_card_ok(DirectiveKind::Optional, *s, a.accessor@),
        spec_value_wf(*s, *old(v)),
    ensures
        updated == (spec_read_optional(*s, a.accessor@, *old(v)) is Some),
        final(v).variant == old(v).variant,
        updated ==> final(v).fields@ == old(v).fields@.update(
            spec_elig(s.variants@[old(v).variant as int].fields@, a.accessor@)[0] as int,
            x,
        ),
        !updated ==> final(v).fields@ == old(v).fields@,
{
    let b = &a.branches[v.variant];
    proof {
        let fields = s.variants@[old(v).variant as int].fields@;
        assert(fields.len() == vstd::std_specs::vec::spec_vec_len(
            &s.variants@[old(v).variant as int].fields,
        ));
        lemma_elig_props(fields, a.accessor@);
        assert(!crate::resolve::spec_card_violation(
            DirectiveKind::Optional,
            s.variants@[old(v).variant as int],
            a.accessor@,
        ));
    }
    if b.fields.len() == 0 {
        false
    } else {
        let idx = b.fields[0];
        let slot = &mut v.fields[idx];
        *slot = x;
        true
    }
}

/// The iterating accessor: returns the values of all eligible fields of
/// the variant, in declaration order; a variant with none yields an empty
/// list.
#[verifier::loop_isolation(false)]
pub fn access_iterate<'a>(s: &Schema, a: &AccessorFn, v: &'a EnumValue) -> (r: Vec<&'a Value>)
    requires
        spec_accessor_wf(*a, *s),
        a.kind == DirectiveKind::Iterate,
        spec_value_wf(*s, *v),
    ensures
        r@.len() == spec_read_iterate(*s, a.accessor@, *v).len(),
        forall|k: int|
            0 <= k < r@.len() ==> *(#[trigger] r@[k]) == spec_read_iterate(*s, a.accessor@, *v)[k],
{
    let b = &a.branches[v.variant];
    proof {
        let fields = s.variants@[v.variant as int].fields@;
        assert(fields.len() == vstd::std_specs::vec::spec_vec_len(
            &s.variants@[v.variant as int].fields,
        ));
        lemma_elig_props(fields, a.accessor@);
    }
    let mut r: Vec<&Value> = Vec::new();
    let mut k: usize = 0;
    while k < b.fields.len()
        invariant
            k <= b.fields@.len(),
            r@.len() == k,
            forall|x: int|
                0 <= x < k ==> *(#[trigger] r@[x]) == spec_read_iterate(*s, a.accessor@, *v)[x],
        decreases b.fields@.len() - k,
    {
        let idx = b.fields[k];
        r.push(&v.fields[idx]);
        k = k + 1;
    }
    r
}

/// Writes the `k`-th eligible field of the variant, in declaration order,
/// through the exclusive iterating accessor.
pub fn store_iterate_at(s: &Schema, a: &AccessorFn, v: &mut EnumValue, k: usize, x: Value)
    requires
        spec_accessor_wf(*a, *s),
        a.kind == DirectiveKind::Iterate,
        spec_value_wf(*s, *old(v)),
        (k as int) < spec_read_iterate(*s, a.accessor@, *old(v)).len(),
    ensures
        final(v).variant == old(v).variant,
        final(v).fields@ == old(v).fields@.update(
            spec_elig(s.variants@[old(v).variant as int].fields@, a.accessor@)[k as int] as int,
            x,
        ),
{
    let b = &a.branches[v.variant];
    proof {
        let fields = s.variants@[old(v).variant as int].fields@;
        assert(fields.len() == vstd::std_specs::vec::spec_vec_len(
            &s.variants@[old(v).variant as int].fields,
        ));
        lemma_elig_props(fields, a.accessor@);
    }
    let idx = b.fields[k];
    let slot = &mut v.fields[idx];
    *slot = x;
}

/// Mutation round trip, exact accessor: a value written through the
/// exclusive exact accessor is what the read-only counterpart then
/// returns.
pub proof fn lemma_write_then_read_exact(
    s: Schema,
    name: Seq<char>,
    v0: EnumValue,
    v1: EnumValue,
    x: Value,
)
    requires
        spec_value_wf(s, v0),
        spec_card_ok(DirectiveKind::Exact, s, name),
        v1.variant == v0.variant,
        v1.fields@ == v0.fields@.update(
            spec_elig(s.variants@[v0.variant as int].fields@, name)[0] as int,
            x,
        ),
    ensures
        spec_value_wf(s, v1),
        spec_read_exact(s, name, v1) == x,
{
    let fields = s.variants@[v0.variant as int].fields@;
    assert(fields.len() == vstd::std_specs::vec::spec_vec_len(
        &s.variants@[v0.variant as int].fields,
    ));
    lemma_elig_props(fields, name);
    assert(!crate::resolve::spec_card_violation(
        DirectiveKind::Exact,
        s.variants@[v0.variant as int],
        name,
    ));
}

/// Mutation round trip, optional accessor: where a field is eligible, a
/// value written through the exclusive optional accessor is what the
/// read-only counterpart then returns.
pub proof fn lemma_write_then_read_optional(
    s: Schema,
    name: Seq<char>,
    v0: EnumValue,
    v1: EnumValue,
    x: Value,
)
    requires
        spec_value_wf(s, v0),
        spec_read_optional(s, name, v0) is Some,
        v1.variant == v0.variant,
        v1.fields@ == v0.fields@.update(
            spec_elig(s.variants@[v0.variant as int].fields@, name)[0] as int,
            x,
        ),
    ensures
        spec_value_wf(s, v1),
        spec_read_optional(s, name, v1) == Some(x),
{
    let fields = s.variants@[v0.variant as int].fields@;
    assert(fields.len() == vstd::std_specs::vec::spec_vec_len(
        &s.variants@[v0.variant as int].fields,
    ));
    lemma_elig_props(fields, name);
}

/// Mutation round trip, iterating accessor: a value written at one
/// position through the exclusive iterating accessor is what the
/// read-only counterpart then returns there, and every other position is
/// untouched.
pub proof fn lemma_write_then_read_iterate(
    s: Schema,
    name: Seq<char>,
    v0: EnumValue,
    v1: EnumValue,
    k: int,
    x: Value,
)
    requires
        spec_value_wf(s, v0),
        0 <= k < spec_read_iterate(s, name, v0).len(),
        v1.variant == v0.variant,
        v1.fields@ == v0.fields@.update(
            spec_elig(s.variants@[v0.variant as int].fields@, name)[k] as int,
            x,
        ),
    ensures
        spec_value_wf(s, v1),
        spec_read_iterate(s, name, v1).len() == spec_read_iterate(s, name, v0).len(),
        spec_read_iterate(s, name, v1)[k] == x,
        forall|j: int|
            0 <= j < spec_read_iterate(s, name, v0).len() && j != k ==> spec_read_iterate(
                s,
                name,
                v1,
            )[j] == spec_read_iterate(s, name, v0)[j],
{
    let fields = s.variants@[v0.variant as int].fields@;
    assert(fields.len() == vstd::std_specs::vec::spec_vec_len(
        &s.variants@[v0.variant as int].fields,
    ));
    lemma_elig_props(fields, name);
    let elig = spec_elig(fields, name);
    assert forall|j: int|
        0 <= j < spec_read_iterate(s, name, v0).len() && j != k implies spec_read_iterate(
        s,
        name,
        v1,
    )[j] == spec_read_iterate(s, name, v0)[j] by {
        if j < k {
            assert(elig[j] < elig[k]);
        } else {
            assert(elig[k] < elig[j]);
        }
    }
}

} // verus!
