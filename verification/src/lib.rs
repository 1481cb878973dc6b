//! Accessor generation for sum types.
//!
//! Given a structural schema of a tagged-union type (variants with named or
//! positional fields) and a set of accessor directives attached to it, this
//! library resolves each directive against the schema — matching directive
//! names to eligible fields, enforcing cardinality and type-uniformity
//! invariants — and synthesizes the accessor set, per-variant extracted
//! product types, and a display dispatch.  Parsing the host language into the
//! schema and printing the synthesized declarations back to source text are
//! left to external collaborators; the library is a pure transformation from
//! schema to declarations or a fatal diagnostic.

use vstd::prelude::*;

pub mod annot;
pub mod display;
pub mod inner;
pub mod synth;
pub mod value;
pub mod resolve;
pub mod schema;
pub mod ty;
pub mod text;

use crate::annot::{get_accessor_list, spec_directive_list};
use crate::inner::{extract_inners, spec_extractable, spec_inner_decl_matches, InnerStructDecl};
use crate::resolve::{
    resolve_directive, spec_all_elig_tys, spec_kind_of, spec_resolve_ok, spec_resolve_post,
    SchemaError,
};
use crate::schema::Schema;
use crate::synth::{spec_accessor_wf, synthesize_pair, AccessorFn};
use crate::ty::{lemma_ty_eq_sym, lemma_ty_eq_trans, spec_param_eq, spec_ty_eq};

verus! {

/// A directive kind: how many eligible fields each variant must offer and
/// what shape the synthesized accessor returns.
#[derive(Clone, Copy, PartialEq, Eq, Debug, Structural)]
pub enum DirectiveKind {
    /// Exactly one eligible field per variant; the accessor returns it.
    Exact,
    /// Zero or one eligible field per variant; the accessor returns an
    /// optional value.
    Optional,
    /// Any number of eligible fields per variant; the accessor returns them
    /// all in declaration order.
    Iterate,
}

/// The declaration fragment generation emits for one schema: the accessor
/// functions, two per directive in source order, and the extracted product
/// types, in schema order.  The fragment is handed to an external unparser;
/// this library never produces source text.
#[derive(PartialEq, Eq, Debug)]
pub struct Generated {
    /// The synthesized accessor functions: for each directive its
    /// read-only accessor followed by its exclusive dual.
    pub accessors: Vec<AccessorFn>,
    /// The extracted product types of the flagged variants.
    pub inners: Vec<InnerStructDecl>,
}

/// Whether `(a0, a1)` is the accessor pair of the directive `(kname, name)`
/// resolved against `s`.
pub open spec fn spec_generated_pair(
    a0: AccessorFn,
    a1: AccessorFn,
    s: Schema,
    kname: Seq<char>,
    name: Seq<char>,
) -> bool {
    &&& spec_accessor_wf(a0, s) && spec_accessor_wf(a1, s)
    &&& a0.accessor@ == name && a1.accessor@ == name
    &&& !a0.mutable && a1.mutable
    &&& Some(a0.kind) == spec_kind_of(kname) && Some(a1.kind) == spec_kind_of(kname)
    &&& spec_ty_eq(a0.result_ty, spec_all_elig_tys(s, name)[0])
    &&& spec_ty_eq(a1.result_ty, spec_all_elig_tys(s, name)[0])
    &&& a0.name@ == name && a1.name@ == name + "_mut"@
}

/// Whether every directive of `s` resolves.
pub open spec fn spec_generate_ok(s: Schema) -> bool {
    let dirs = spec_directive_list(s.attrs@);
    forall|i: int|
        0 <= i < dirs.len() ==> spec_resolve_ok(s, (#[trigger] dirs[i]).0, dirs[i].1)
}

/// The index of the first directive at or after `i` that fails to resolve,
/// or the directive count if all resolve.
pub open spec fn spec_first_failure_from(s: Schema, i: int) -> int
    decreases spec_directive_list(s.attrs@).len() - i,
{
    let dirs = spec_directive_list(s.attrs@);
    if i < 0 || i >= dirs.len() {
        dirs.len() as int
    } else if !spec_resolve_ok(s, dirs[i].0, dirs[i].1) {
        i
    } else {
        spec_first_failure_from(s, i + 1)
    }
}

proof fn lemma_first_failure_skip(s: Schema, i: int)
    requires
        0 <= i <= spec_directive_list(s.attrs@).len(),
        forall|x: int|
            0 <= x < i ==> spec_resolve_ok(
                s,
                (#[trigger] spec_directive_list(s.attrs@)[x]).0,
                spec_directive_list(s.attrs@)[x].1,
            ),
    ensures
        spec_first_failure_from(s, 0) == spec_first_failure_from(s, i),
    decreases i,
{
    if i > 0 {
        lemma_first_failure_skip(s, i - 1);
    }
}

/// Whether `g` is the generation output of `s`: for each directive, in
/// source order, its accessor pair; and each flagged variant's extracted
/// product, in schema order.
pub open spec fn spec_generated_matches(g: Generated, s: Schema) -> bool {
    let dirs = spec_directive_list(s.attrs@);
    &&& g.accessors@.len() == 2 * dirs.len()
    &&& forall|i: int|
        0 <= i < dirs.len() ==> spec_generated_pair(
            #[trigger] g.accessors@[2 * i],
            g.accessors@[2 * i + 1],
            s,
            dirs[i].0,
            dirs[i].1,
        )
    &&& g.inners@.len() == spec_extractable(s).len()
    &&& forall|j: int|
        0 <= j < g.inners@.len() ==> spec_inner_decl_matches(
            #[trigger] g.inners@[j],
            s,
            spec_extractable(s)[j] as int,
        )
}

/// Runs the whole pipeline on one schema: reads the directive list off the
/// schema's annotations, resolves each directive in source order, and on
/// success emits every accessor pair together with the extracted product
/// types.  Generation is all-or-nothing: the first directive that fails
/// aborts it with that directive's diagnostic, and no partial output
/// exists.
#[verifier::loop_isolation(false)]
pub fn generate(s: &Schema) -> (r: Result<Generated, SchemaError>)
    ensures
        match r {
            Ok(g) => spec_generate_ok(*s) && spec_generated_matches(g, *s),
            Err(e) => {
                let dirs = spec_directive_list(s.attrs@);
                let ff = spec_first_failure_from(*s, 0);
                &&& !spec_generate_ok(*s)
                &&& 0 <= ff < dirs.len()
                &&& spec_resolve_post(Err::<crate::resolve::ResolvedDirective, _>(e), *s, dirs[ff].0, dirs[ff].1)
            },
        },
{
    let ghost dirs = spec_directive_list(s.attrs@);
    let pairs = get_accessor_list(&s.attrs);
    proof {
        assert(pairs.deep_view().len() == dirs.len());
    }
    let mut accessors: Vec<AccessorFn> = Vec::new();
    let mut i: usize = 0;
    while i < pairs.len()
        invariant
            i <= pairs@.len(),
            accessors@.len() == 2 * i,
            forall|x: int|
                0 <= x < i ==> spec_resolve_ok(*s, (#[trigger] dirs[x]).0, dirs[x].1),
            forall|x: int|
                0 <= x < i ==> spec_generated_pair(
                    #[trigger] accessors@[2 * x],
                    accessors@[2 * x + 1],
                    *s,
                    dirs[x].0,
                    dirs[x].1,
                ),
        decreases pairs@.len() - i,
    {
        proof {
            assert(pairs.deep_view()[i as int] == (pairs@[i as int].0@, pairs@[i as int].1@));
        }
        match resolve_directive(s, pairs[i].0.as_str(), pairs[i].1.as_str()) {
            Err(e) => {
                proof {
                    lemma_first_failure_skip(*s, i as int);
                }
                return Err(e);
            },
            Ok(rd) => {
                let (a0, a1) = synthesize_pair(s, &rd);
                let ghost acc0 = accessors@;
                let ghost ga0 = a0;
                let ghost ga1 = a1;
                proof {
                    lemma_ty_eq_trans(
                        ga0.result_ty,
                        rd.unified_ty,
                        spec_all_elig_tys(*s, rd.name@)[0],
                    );
                    lemma_ty_eq_trans(
                        ga1.result_ty,
                        rd.unified_ty,
                        spec_all_elig_tys(*s, rd.name@)[0],
                    );
                    assert(spec_generated_pair(ga0, ga1, *s, dirs[i as int].0, dirs[i as int].1));
                }
                accessors.push(a0);
                accessors.push(a1);
                proof {
                    assert(forall|k: int| 0 <= k < acc0.len() ==> accessors@[k] == #[trigger] acc0[k]);
                    assert(accessors@[2 * (i as int)] == ga0);
                    assert(accessors@[2 * (i as int) + 1] == ga1);
                }
            },
        }
        i = i + 1;
    }
    let inners = extract_inners(s);
    Ok(Generated { accessors, inners })
}

/// Generation is a pure function of the schema: two outputs of one
/// unchanged schema carry the same accessor set and the same extracted
/// products, component for component.
pub proof fn lemma_generation_deterministic(g1: Generated, g2: Generated, s: Schema)
    requires
        spec_generated_matches(g1, s),
        spec_generated_matches(g2, s),
    ensures
        g1.accessors@.len() == g2.accessors@.len(),
        forall|i: int|
            0 <= i < g1.accessors@.len() ==> spec_accessor_equiv(
                #[trigger] g1.accessors@[i],
                g2.accessors@[i],
            ),
        g1.inners@.len() == g2.inners@.len(),
        forall|j: int|
            0 <= j < g1.inners@.len() ==> spec_inner_equiv(#[trigger] g1.inners@[j], g2.inners@[j]),
{
    let dirs = spec_directive_list(s.attrs@);
    assert forall|i: int| 0 <= i < g1.accessors@.len() implies spec_accessor_equiv(
        #[trigger] g1.accessors@[i],
        g2.accessors@[i],
    ) by {
        let d = i / 2;
        assert(0 <= d < dirs.len());
        assert(spec_generated_pair(g1.accessors@[2 * d], g1.accessors@[2 * d + 1], s, dirs[d].0, dirs[d].1));
        assert(spec_generated_pair(g2.accessors@[2 * d], g2.accessors@[2 * d + 1], s, dirs[d].0, dirs[d].1));
        let a1 = g1.accessors@[i];
        let a2 = g2.accessors@[i];
        assert(i == 2 * d || i == 2 * d + 1);
        lemma_ty_eq_sym(a2.result_ty, spec_all_elig_tys(s, dirs[d].1)[0]);
        lemma_ty_eq_trans(a1.result_ty, spec_all_elig_tys(s, dirs[d].1)[0], a2.result_ty);
    }
    assert forall|j: int| 0 <= j < g1.inners@.len() implies spec_inner_equiv(
        #[trigger] g1.inners@[j],
        g2.inners@[j],
    ) by {
        let vi = spec_extractable(s)[j] as int;
        assert(spec_inner_decl_matches(g1.inners@[j], s, vi));
        assert(spec_inner_decl_matches(g2.inners@[j], s, vi));
        let d1 = g1.inners@[j];
        let d2 = g2.inners@[j];
        assert forall|k: int| 0 <= k < d1.fields@.len() implies spec_ty_eq(
            (#[trigger] d1.fields@[k]).ty,
            d2.fields@[k].ty,
        ) by {
            lemma_ty_eq_sym(d2.fields@[k].ty, s.variants@[vi].fields@[k].ty);
            lemma_ty_eq_trans(d1.fields@[k].ty, s.variants@[vi].fields@[k].ty, d2.fields@[k].ty);
        }
    }
}

/// Componentwise sameness of two accessor functions, with names compared
/// by their characters and types structurally.
pub open spec fn spec_accessor_equiv(a: AccessorFn, b: AccessorFn) -> bool {
    &&& a.name@ == b.name@
    &&& a.accessor@ == b.accessor@
    &&& a.mutable == b.mutable
    &&& a.kind == b.kind
    &&& spec_ty_eq(a.result_ty, b.result_ty)
    &&& a.branches@.len() == b.branches@.len()
    &&& forall|v: int|
        0 <= v < a.branches@.len() ==> (#[trigger] a.branches@[v]).variant@ == b.branches@[v].variant@
            && a.branches@[v].fields@ == b.branches@[v].fields@
}

/// Componentwise sameness of two extracted product declarations.
pub open spec fn spec_inner_equiv(a: InnerStructDecl, b: InnerStructDecl) -> bool {
    &&& a.name@ == b.name@
    &&& a.named == b.named
    &&& a.generics@.len() == b.generics@.len()
    &&& forall|k: int|
        0 <= k < a.generics@.len() ==> spec_param_eq(#[trigger] a.generics@[k], b.generics@[k])
    &&& a.fields@.len() == b.fields@.len()
    &&& forall|k: int|
        0 <= k < a.fields@.len() ==> (#[trigger] a.fields@[k]).name@ == b.fields@[k].name@
            && spec_ty_eq(a.fields@[k].ty, b.fields@[k].ty) && a.fields@[k].attrs@.len()
            == b.fields@[k].attrs@.len()
}

} // verus!
