//! Directive resolution: matching one accessor directive against every
//! variant of the schema, enforcing the cardinality and type-uniformity
//! invariants, and producing a resolved directive or a fatal diagnostic.
//!
//! Resolution completes its eligibility and unification analysis across all
//! variants before deciding pass or fail, and produces no partial output: a
//! violation anywhere fails the whole directive.

use vstd::prelude::*;

use crate::schema::{spec_field_eligible, field_eligible, Field, Schema, Variant};
use crate::text::str_eq;
use crate::ty::{
    lemma_ty_eq_refl, lemma_ty_eq_sym, lemma_ty_eq_trans, lemma_tys_eq_pointwise, spec_ty_eq,
    spec_tys_eq, ty_clone, ty_eq, TypeExpr,
};
use crate::DirectiveKind;

verus! {

broadcast use vstd::std_specs::vec::group_vec_axioms, vstd::seq::group_seq_axioms;

/// A fatal schema diagnostic.  Any of these aborts generation for the whole
/// schema; no partial output is produced.
#[derive(PartialEq, Eq, Debug)]
pub enum SchemaError {
    /// A variant offers the wrong number of eligible fields for the
    /// directive's kind: the variant's name, the accessor's name, and the
    /// eligible-field count found there.
    Cardinality { variant: String, accessor: String, found: usize },
    /// The eligible fields for one accessor name do not share one structural
    /// type: the accessor's name and the distinct conflicting types, in
    /// first-occurrence order.  An accessor no field is eligible for is
    /// reported the same way, with an empty type list.
    TypeConflict { accessor: String, types: Vec<TypeExpr> },
    /// A directive names a kind this library does not know.
    UnknownKind { kind: String },
}

/// One successfully resolved directive: the accessor's kind and name, the
/// unified structural type of every eligible field, and, per variant, the
/// eligible field indices in declaration order.
#[derive(PartialEq, Eq, Debug)]
pub struct ResolvedDirective {
    /// The directive's kind.
    pub kind: DirectiveKind,
    /// The accessor's name.
    pub name: String,
    /// The one structural type shared by every eligible field.
    pub unified_ty: TypeExpr,
    /// For each variant, in schema order, the indices of its eligible
    /// fields, in declaration order.
    pub eligible: Vec<Vec<usize>>,
}

/// The directive kind a surface name stands for.
pub open spec fn spec_kind_of(kname: Seq<char>) -> Option<DirectiveKind> {
    if kname == "get"@ {
        Some(DirectiveKind::Exact)
    } else if kname == "get_some"@ {
        Some(DirectiveKind::Optional)
    } else if kname == "iter"@ {
        Some(DirectiveKind::Iterate)
    } else {
        None
    }
}

/// The eligible indices among the first `n` fields, in declaration order.
pub open spec fn spec_elig_prefix(fields: Seq<Field>, name: Seq<char>, n: int) -> Seq<usize>
    decreases n,
{
    if n <= 0 {
        Seq::empty()
    } else {
        let rest = spec_elig_prefix(fields, name, n - 1);
        if spec_field_eligible(fields[n - 1], name) {
            rest.push((n - 1) as usize)
        } else {
            rest
        }
    }
}

/// The indices of the fields eligible for the accessor named `name`, in
/// declaration order.
pub open spec fn spec_elig(fields: Seq<Field>, name: Seq<char>) -> Seq<usize> {
    spec_elig_prefix(fields, name, fields.len() as int)
}

/// How many fields of `v` are eligible for the accessor named `name`.
pub open spec fn spec_elig_count(v: Variant, name: Seq<char>) -> nat {
    spec_elig(v.fields@, name).len()
}

/// The per-variant eligible-index table of the whole schema.
pub open spec fn spec_elig_table(s: Schema, name: Seq<char>) -> Seq<Seq<usize>> {
    Seq::new(s.variants@.len(), |v: int| spec_elig(s.variants@[v].fields@, name))
}

/// The eligible-index sequence lists exactly the eligible fields, in
/// increasing declaration order, each once.
pub proof fn lemma_elig_props(fields: Seq<Field>, name: Seq<char>)
    requires
        fields.len() <= usize::MAX,
    ensures
        forall|j: int|
            0 <= j < spec_elig(fields, name).len() ==> (#[trigger] spec_elig(fields, name)[j]
                < fields.len() && spec_field_eligible(
                fields[spec_elig(fields, name)[j] as int],
                name,
            )),
        forall|j: int, k: int|
            0 <= j < k < spec_elig(fields, name).len() ==> #[trigger] spec_elig(fields, name)[j]
                < #[trigger] spec_elig(fields, name)[k],
        forall|i: int|
            0 <= i < fields.len() && spec_field_eligible(#[trigger] fields[i], name) ==> spec_elig(
                fields,
                name,
            ).contains(i as usize),
{
    lemma_elig_prefix_props(fields, name, fields.len() as int);
}

proof fn lemma_elig_prefix_props(fields: Seq<Field>, name: Seq<char>, n: int)
    requires
        n <= fields.len() <= usize::MAX,
    ensures
        forall|j: int|
            0 <= j < spec_elig_prefix(fields, name, n).len() ==> (#[trigger] spec_elig_prefix(
                fields,
                name,
                n,
            )[j] < n && spec_field_eligible(
                fields[spec_elig_prefix(fields, name, n)[j] as int],
                name,
            )),
        forall|j: int, k: int|
            0 <= j < k < spec_elig_prefix(fields, name, n).len() ==> #[trigger] spec_elig_prefix(
                fields,
                name,
                n,
            )[j] < #[trigger] spec_elig_prefix(fields, name, n)[k],
        forall|i: int|
            0 <= i < n && spec_field_eligible(#[trigger] fields[i], name) ==> spec_elig_prefix(
                fields,
                name,
                n,
            ).contains(i as usize),
    decreases n,
{
    if n > 0 {
        lemma_elig_prefix_props(fields, name, n - 1);
        let prev = spec_elig_prefix(fields, name, n - 1);
        let cur = spec_elig_prefix(fields, name, n);
        if spec_field_eligible(fields[n - 1], name) {
            assert(cur == prev.push((n - 1) as usize));
            assert(cur[cur.len() - 1] == (n - 1) as usize);
            assert forall|j: int| 0 <= j < cur.len() implies (#[trigger] cur[j] < n
                && spec_field_eligible(fields[cur[j] as int], name)) by {
                if j < prev.len() {
                    assert(cur[j] == prev[j]);
                    assert(prev[j] < n - 1);
                } else {
                    assert(cur[j] == (n - 1) as usize);
                }
            }
            assert forall|j: int, k: int| 0 <= j < k < cur.len() implies #[trigger] cur[j]
                < #[trigger] cur[k] by {
                assert(cur[j] == prev[j]);
                assert(prev[j] < n - 1);
                if k < prev.len() {
                    assert(cur[k] == prev[k]);
                } else {
                    assert(cur[k] == (n - 1) as usize);
                }
            }
        } else {
            assert(cur == prev);
            assert forall|j: int| 0 <= j < cur.len() implies (#[trigger] cur[j] < n
                && spec_field_eligible(fields[cur[j] as int], name)) by {
                assert(cur[j] == prev[j]);
            }
            assert forall|j: int, k: int| 0 <= j < k < cur.len() implies #[trigger] cur[j]
                < #[trigger] cur[k] by {
                assert(cur[j] == prev[j]);
                assert(cur[k] == prev[k]);
            }
        }
        assert forall|i: int|
            0 <= i < n && spec_field_eligible(#[trigger] fields[i], name) implies cur.contains(
            i as usize,
        ) by {
            if i == n - 1 {
                assert(cur.last() == (n - 1) as usize);
                assert(cur[cur.len() - 1] == i as usize);
            } else {
                assert(prev.contains(i as usize));
                let j = choose|j: int| 0 <= j < prev.len() && prev[j] == i as usize;
                assert(cur[j] == i as usize);
            }
        }
    }
}

/// The indices of the fields eligible for the accessor named `name`, in
/// declaration order.
#[verifier::loop_isolation(false)]
pub fn eligible_indices(fields: &Vec<Field>, name: &str) -> (r: Vec<usize>)
    ensures
        r@ == spec_elig(fields@, name@),
{
    let mut r: Vec<usize> = Vec::new();
    let mut i: usize = 0;
    while i < fields.len()
        invariant
            i <= fields.len(),
            r@ == spec_elig_prefix(fields@, name@, i as int),
        decreases fields.len() - i,
    {
        if field_eligible(&fields[i], name) {
            r.push(i);
        }
        i = i + 1;
    }
    r
}

/// Whether `v` violates the cardinality rule of `kind` for the accessor
/// named `name`: an exact accessor needs exactly one eligible field, an
/// optional one at most one, an iterating one any number.
pub open spec fn spec_card_violation(kind: DirectiveKind, v: Variant, name: Seq<char>) -> bool {
    match kind {
        DirectiveKind::Exact => spec_elig_count(v, name) != 1,
        DirectiveKind::Optional => spec_elig_count(v, name) >= 2,
        DirectiveKind::Iterate => false,
    }
}

/// Whether every variant of `s` satisfies the cardinality rule of `kind`
/// for the accessor named `name`.
pub open spec fn spec_card_ok(kind: DirectiveKind, s: Schema, name: Seq<char>) -> bool {
    forall|v: int|
        0 <= v < s.variants@.len() ==> !spec_card_violation(kind, #[trigger] s.variants@[v], name)
}

/// The index of the first variant at or after `v` that violates the
/// cardinality rule, or the variant count if none does.
pub open spec fn spec_first_violation_from(
    kind: DirectiveKind,
    s: Schema,
    name: Seq<char>,
    v: int,
) -> int
    decreases s.variants@.len() - v,
{
    if v < 0 || v >= s.variants@.len() {
        s.variants@.len() as int
    } else if spec_card_violation(kind, s.variants@[v], name) {
        v
    } else {
        spec_first_violation_from(kind, s, name, v + 1)
    }
}

/// The index of the first variant that violates the cardinality rule, or
/// the variant count if none does.
pub open spec fn spec_first_violation(kind: DirectiveKind, s: Schema, name: Seq<char>) -> int {
    spec_first_violation_from(kind, s, name, 0)
}

proof fn lemma_first_violation_skip(kind: DirectiveKind, s: Schema, name: Seq<char>, v: int)
    requires
        0 <= v <= s.variants@.len(),
        forall|w: int|
            0 <= w < v ==> !spec_card_violation(kind, #[trigger] s.variants@[w], name),
    ensures
        spec_first_violation(kind, s, name) == spec_first_violation_from(kind, s, name, v),
    decreases v,
{
    if v > 0 {
        lemma_first_violation_skip(kind, s, name, v - 1);
    }
}

/// The types of the eligible fields of `v`, in declaration order.
pub open spec fn spec_variant_elig_tys(v: Variant, name: Seq<char>) -> Seq<TypeExpr> {
    Seq::new(
        spec_elig(v.fields@, name).len(),
        |j: int| v.fields@[spec_elig(v.fields@, name)[j] as int].ty,
    )
}

/// The types of the eligible fields of the first `v` variants, concatenated
/// in schema order.
pub open spec fn spec_elig_tys_upto(s: Schema, name: Seq<char>, v: int) -> Seq<TypeExpr>
    decreases v,
{
    if v <= 0 {
        Seq::empty()
    } else {
        spec_elig_tys_upto(s, name, v - 1) + spec_variant_elig_tys(s.variants@[v - 1], name)
    }
}

/// The types of every eligible field across every variant, in schema and
/// declaration order.
pub open spec fn spec_all_elig_tys(s: Schema, name: Seq<char>) -> Seq<TypeExpr> {
    spec_elig_tys_upto(s, name, s.variants@.len() as int)
}

/// Whether the eligible fields for the accessor named `name` unify: at
/// least one exists, and all their types are structurally equal.
pub open spec fn spec_types_ok(s: Schema, name: Seq<char>) -> bool {
    let tys = spec_all_elig_tys(s, name);
    tys.len() > 0 && forall|i: int| 0 <= i < tys.len() ==> spec_ty_eq(#[trigger] tys[i], tys[0])
}

/// `tys` with each type structurally equal to the previously kept one
/// removed: the distinct conflicting types in first-occurrence order.
pub open spec fn spec_dedup(tys: Seq<TypeExpr>) -> Seq<TypeExpr>
    decreases tys.len(),
{
    if tys.len() == 0 {
        Seq::empty()
    } else {
        let d = spec_dedup(tys.drop_last());
        if d.len() > 0 && spec_ty_eq(d.last(), tys.last()) {
            d
        } else {
            d.push(tys.last())
        }
    }
}

/// Whether resolving the directive `(kname, name)` against `s` succeeds:
/// the eligible types unify, the kind is known, and every variant satisfies
/// its cardinality rule.
pub open spec fn spec_resolve_ok(s: Schema, kname: Seq<char>, name: Seq<char>) -> bool {
    &&& spec_types_ok(s, name)
    &&& match spec_kind_of(kname) {
        Some(kind) => spec_card_ok(kind, s, name),
        None => false,
    }
}

/// What [`resolve_directive`] promises of its result.  The checks are
/// layered: type uniformity is decided first, then the directive kind, then
/// cardinality, each error carrying the context named in its variant.
pub open spec fn spec_resolve_post(
    r: Result<ResolvedDirective, SchemaError>,
    s: Schema,
    kname: Seq<char>,
    name: Seq<char>,
) -> bool {
    match r {
        Ok(rd) => {
            &&& spec_resolve_ok(s, kname, name)
            &&& Some(rd.kind) == spec_kind_of(kname)
            &&& rd.name@ == name
            &&& spec_ty_eq(rd.unified_ty, spec_all_elig_tys(s, name)[0])
            &&& rd.eligible.deep_view() == spec_elig_table(s, name)
        },
        Err(SchemaError::TypeConflict { accessor, types }) => {
            &&& !spec_types_ok(s, name)
            &&& accessor@ == name
            &&& spec_tys_eq(types@, spec_dedup(spec_all_elig_tys(s, name)))
        },
        Err(SchemaError::UnknownKind { kind }) => {
            &&& spec_types_ok(s, name)
            &&& spec_kind_of(kname) is None
            &&& kind@ == kname
        },
        Err(SchemaError::Cardinality { variant, accessor, found }) => {
            &&& spec_types_ok(s, name)
            &&& match spec_kind_of(kname) {
                Some(kind) => {
                    let fv = spec_first_violation(kind, s, name);
                    &&& !spec_card_ok(kind, s, name)
                    &&& 0 <= fv < s.variants@.len()
                    &&& variant@ == s.variants@[fv].name@
                    &&& found == spec_elig_count(s.variants@[fv], name)
                },
                None => false,
            }
            &&& accessor@ == name
        },
    }
}

/// Resolves one directive `(kname, name)` against the whole schema.
///
/// The eligible fields of every variant are computed first; their types
/// must unify into exactly one structural type, the kind name must be
/// known, and every variant must satisfy the kind's cardinality rule, in
/// that order of precedence.  On success the resolved directive carries the
/// unified type and the per-variant eligible indices; on failure the
/// diagnostic names the offending accessor, variant or types.
#[verifier::loop_isolation(false)]
pub fn resolve_directive(s: &Schema, kname: &str, name: &str) -> (r: Result<
    ResolvedDirective,
    SchemaError,
>)
    ensures
        spec_resolve_post(r, *s, kname@, name@),
{
    let ghost all = spec_all_elig_tys(*s, name@);
    // Collect the types of every eligible field, in schema and declaration
    // order.
    let mut tys: Vec<&TypeExpr> = Vec::new();
    let mut v: usize = 0;
    while v < s.variants.len()
        invariant
            v <= s.variants@.len(),
            tys@.len() == spec_elig_tys_upto(*s, name@, v as int).len(),
            forall|j: int|
                0 <= j < tys@.len() ==> *(#[trigger] tys@[j]) == spec_elig_tys_upto(
                    *s,
                    name@,
                    v as int,
                )[j],
        decreases s.variants@.len() - v,
    {
        let var = &s.variants[v];
        let elig = eligible_indices(&var.fields, name);
        proof {
            assert(var.fields@.len() == vstd::std_specs::vec::spec_vec_len(&var.fields));
            lemma_elig_props(var.fields@, name@);
        }
        let ghost up = spec_elig_tys_upto(*s, name@, v as int);
        let ghost vtys = spec_variant_elig_tys(*var, name@);
        let mut j: usize = 0;
        while j < elig.len()
            invariant
                j <= elig@.len(),
                tys@.len() == up.len() + j,
                forall|k: int| 0 <= k < up.len() ==> *(#[trigger] tys@[k]) == up[k],
                forall|k: int|
                    0 <= k < j ==> *(#[trigger] tys@[up.len() + k]) == vtys[k],
            decreases elig@.len() - j,
        {
            let idx = elig[j];
            assert(idx < var.fields@.len());
            tys.push(&var.fields[idx].ty);
            j = j + 1;
        }
        proof {
            assert(spec_elig_tys_upto(*s, name@, v as int + 1) == up + vtys);
            assert forall|j2: int| 0 <= j2 < tys@.len() implies *(#[trigger] tys@[j2]) == (up
                + vtys)[j2] by {
                if j2 >= up.len() {
                    let k2 = j2 - up.len();
                    assert(*(tys@[up.len() + k2]) == vtys[k2]);
                }
            }
        }
        v = v + 1;
    }
    proof {
        assert(tys@.len() == all.len());
        assert(forall|j: int| 0 <= j < tys@.len() ==> *(#[trigger] tys@[j]) == all[j]);
    }
    // Type uniformity: every eligible type must equal the first, and at
    // least one eligible field must exist somewhere.
    let mut uniform = tys.len() > 0;
    proof {
        if tys@.len() > 0 {
            lemma_ty_eq_refl(all[0]);
        }
    }
    if tys.len() > 0 {
        let mut i: usize = 1;
        while i < tys.len()
            invariant
                1 <= i <= tys@.len(),
                uniform ==> forall|k: int| 0 <= k < i ==> spec_ty_eq(#[trigger] all[k], all[0]),
                !uniform ==> !spec_types_ok(*s, name@),
            decreases tys@.len() - i,
        {
            if !ty_eq(tys[i], tys[0]) {
                uniform = false;
                break;
            }
            i = i + 1;
        }
    }
    if !uniform {
        proof {
            assert(!spec_types_ok(*s, name@));
        }
        // Report the distinct conflicting types, in first-occurrence order.
        let mut ded: Vec<TypeExpr> = Vec::new();
        let mut k: usize = 0;
        while k < tys.len()
            invariant
                k <= tys@.len(),
                spec_tys_eq(ded@, spec_dedup(all.take(k as int))),
            decreases tys@.len() - k,
        {
            let ghost d = spec_dedup(all.take(k as int));
            proof {
                lemma_tys_eq_pointwise(ded@, d);
                assert(all.take(k as int + 1).drop_last() =~= all.take(k as int));
                assert(all.take(k as int + 1).last() == all[k as int]);
            }
            let keep = if ded.len() == 0 {
                true
            } else {
                let same = ty_eq(&ded[ded.len() - 1], tys[k]);
                proof {
                    let c = ded@.last();
                    assert(spec_ty_eq(c, d.last()));
                    lemma_ty_eq_sym(c, d.last());
                    lemma_ty_eq_sym(c, all[k as int]);
                    if spec_ty_eq(c, all[k as int]) {
                        lemma_ty_eq_sym(c, d.last());
                        lemma_ty_eq_trans(d.last(), c, all[k as int]);
                    }
                    if spec_ty_eq(d.last(), all[k as int]) {
                        lemma_ty_eq_trans(c, d.last(), all[k as int]);
                    }
                }
                !same
            };
            if keep {
                let copy = ty_clone(tys[k]);
                proof {
                    lemma_tys_eq_pointwise(ded@.push(copy), d.push(all[k as int]));
                    assert(forall|x: int|
                        0 <= x < ded@.len() ==> ded@.push(copy)[x] == #[trigger] ded@[x]
                            && d.push(all[k as int])[x] == d[x]);
                    assert(ded@.push(copy).last() == copy);
                }
                ded.push(copy);
            }
            k = k + 1;
        }
        proof {
            assert(all.take(tys@.len() as int) =~= all);
        }
        return Err(SchemaError::TypeConflict { accessor: name.to_owned(), types: ded });
    }
    assert(spec_types_ok(*s, name@));
    // The directive kind must be known.
    let kind = if str_eq(kname, "get") {
        DirectiveKind::Exact
    } else if str_eq(kname, "get_some") {
        DirectiveKind::Optional
    } else if str_eq(kname, "iter") {
        DirectiveKind::Iterate
    } else {
        return Err(SchemaError::UnknownKind { kind: kname.to_owned() });
    };
    assert(spec_kind_of(kname@) == Some(kind));
    // Cardinality: every variant must offer the number of eligible fields
    // the kind demands; the first offender is reported.
    let mut table: Vec<Vec<usize>> = Vec::new();
    let mut w: usize = 0;
    while w < s.variants.len()
        invariant
            w <= s.variants@.len(),
            table.deep_view().len() == w,
            forall|x: int|
                0 <= x < w ==> #[trigger] table.deep_view()[x] == spec_elig(
                    s.variants@[x].fields@,
                    name@,
                ),
            forall|x: int|
                0 <= x < w ==> !spec_card_violation(kind, #[trigger] s.variants@[x], name@),
        decreases s.variants@.len() - w,
    {
        let var = &s.variants[w];
        let elig = eligible_indices(&var.fields, name);
        let count = elig.len();
        let bad = match kind {
            DirectiveKind::Exact => count != 1,
            DirectiveKind::Optional => count >= 2,
            DirectiveKind::Iterate => false,
        };
        if bad {
            proof {
                lemma_first_violation_skip(kind, *s, name@, w as int);
                assert(spec_first_violation(kind, *s, name@) == w as int);
            }
            return Err(
                SchemaError::Cardinality {
                    variant: var.name.clone(),
                    accessor: name.to_owned(),
                    found: count,
                },
            );
        }
        let ghost prev_dv = table.deep_view();
        table.push(elig);
        proof {
            assert(table.deep_view() =~~= prev_dv.push(elig@));
        }
        w = w + 1;
    }
    // Success: one unified type, and the per-variant eligible indices.
    let unified_ty = ty_clone(tys[0]);
    proof {
        assert(table.deep_view() =~~= spec_elig_table(*s, name@));
    }
    Ok(
        ResolvedDirective {
            kind,
            name: name.to_owned(),
            unified_ty,
            eligible: table,
        },
    )
}

/// An exact directive resolves exactly when every variant offers exactly
/// one eligible field.  The type-uniformity hypothesis is needed: a type
/// conflict fails resolution whatever the per-variant counts are.
pub proof fn lemma_exact_resolution(s: Schema, name: Seq<char>)
    requires
        spec_types_ok(s, name),
    ensures
        spec_resolve_ok(s, "get"@, name) <==> (forall|v: int|
            0 <= v < s.variants@.len() ==> spec_elig_count(#[trigger] s.variants@[v], name) == 1),
{
    assert(spec_kind_of("get"@) == Some(DirectiveKind::Exact));
    if spec_card_ok(DirectiveKind::Exact, s, name) {
        assert forall|v: int| 0 <= v < s.variants@.len() implies spec_elig_count(
            #[trigger] s.variants@[v],
            name,
        ) == 1 by {
            assert(!spec_card_violation(DirectiveKind::Exact, s.variants@[v], name));
        }
    }
    if forall|v: int|
        0 <= v < s.variants@.len() ==> spec_elig_count(#[trigger] s.variants@[v], name) == 1 {
        assert forall|v: int| 0 <= v < s.variants@.len() implies !spec_card_violation(
            DirectiveKind::Exact,
            #[trigger] s.variants@[v],
            name,
        ) by {
            assert(spec_elig_count(s.variants@[v], name) == 1);
        }
    }
}

/// An optional directive resolves exactly when no variant offers two or
/// more eligible fields, under the same type-uniformity hypothesis.
pub proof fn lemma_optional_resolution(s: Schema, name: Seq<char>)
    requires
        spec_types_ok(s, name),
    ensures
        spec_resolve_ok(s, "get_some"@, name) <==> (forall|v: int|
            0 <= v < s.variants@.len() ==> spec_elig_count(#[trigger] s.variants@[v], name) <= 1),
{
    reveal_strlit("get");
    reveal_strlit("get_some");
    assert("get"@.len() == 3 && "get_some"@.len() == 8);
    assert(spec_kind_of("get_some"@) == Some(DirectiveKind::Optional));
    if spec_card_ok(DirectiveKind::Optional, s, name) {
        assert forall|v: int| 0 <= v < s.variants@.len() implies spec_elig_count(
            #[trigger] s.variants@[v],
            name,
        ) <= 1 by {
            assert(!spec_card_violation(DirectiveKind::Optional, s.variants@[v], name));
        }
    }
    if forall|v: int|
        0 <= v < s.variants@.len() ==> spec_elig_count(#[trigger] s.variants@[v], name) <= 1 {
        assert forall|v: int| 0 <= v < s.variants@.len() implies !spec_card_violation(
            DirectiveKind::Optional,
            #[trigger] s.variants@[v],
            name,
        ) by {
            assert(spec_elig_count(s.variants@[v], name) <= 1);
        }
    }
}

} // verus!
