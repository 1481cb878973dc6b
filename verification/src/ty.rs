//! Structural type expressions and generic parameters of a schema.
//!
//! A field's type is kept as a small structural tree: named paths at the
//! leaves, with slice, array, pointer, reference and tuple constructors
//! above them.  The resolver compares such trees for structural equality,
//! and the extractor walks them to decide which generic parameters a
//! variant's fields actually reference.

use vstd::prelude::*;

use crate::text::str_eq;

verus! {

broadcast use vstd::std_specs::vec::group_vec_axioms, vstd::seq::group_seq_axioms;

/// A structural type expression.
///
/// A named path (including a bare type-parameter name) is kept as its source
/// text; so is any shape outside this grammar, under `Other`, which compares
/// by that text and never references a generic parameter.
#[derive(PartialEq, Eq, Debug)]
pub enum TypeExpr {
    /// A path such as a type name or a bare type-parameter name.
    Path(String),
    /// A slice of an element type.
    Slice(Box<TypeExpr>),
    /// An array of an element type and a length.
    Array(Box<TypeExpr>, u64),
    /// A raw pointer: whether it is mutable, and the pointee.
    Ptr(bool, Box<TypeExpr>),
    /// A reference: its lifetime name, if it has one (kept without the
    /// leading tick), whether it is mutable, and the referent.
    Reference(Option<String>, bool, Box<TypeExpr>),
    /// A tuple of element types.
    Tuple(Vec<TypeExpr>),
    /// Any type shape this library does not interpret, kept as source text.
    Other(String),
}

/// One generic parameter of the schema, by name (a lifetime name is kept
/// without the leading tick).
#[derive(PartialEq, Eq, Debug)]
pub enum GenericParam {
    /// A type parameter.
    TypeParam(String),
    /// A lifetime parameter.
    LifetimeParam(String),
}

/// Whether two optional lifetime names agree.
pub open spec fn spec_opt_name_eq(a: Option<String>, b: Option<String>) -> bool {
    match (a, b) {
        (Some(x), Some(y)) => x@ == y@,
        (None, None) => true,
        _ => false,
    }
}

/// Structural equality of two type expressions: equal shapes, with path and
/// lifetime names compared by their characters.
pub open spec fn spec_ty_eq(a: TypeExpr, b: TypeExpr) -> bool
    decreases a,
{
    match (a, b) {
        (TypeExpr::Path(x), TypeExpr::Path(y)) => x@ == y@,
        (TypeExpr::Slice(x), TypeExpr::Slice(y)) => spec_ty_eq(*x, *y),
        (TypeExpr::Array(x, m), TypeExpr::Array(y, n)) => m == n && spec_ty_eq(*x, *y),
        (TypeExpr::Ptr(mx, x), TypeExpr::Ptr(my, y)) => mx == my && spec_ty_eq(*x, *y),
        (TypeExpr::Reference(lx, mx, x), TypeExpr::Reference(ly, my, y)) => spec_opt_name_eq(
            lx,
            ly,
        ) && mx == my && spec_ty_eq(*x, *y),
        (TypeExpr::Tuple(xs), TypeExpr::Tuple(ys)) => spec_tys_eq(xs@, ys@),
        (TypeExpr::Other(x), TypeExpr::Other(y)) => x@ == y@,
        _ => false,
    }
}

/// Structural equality of two sequences of type expressions, elementwise.
pub open spec fn spec_tys_eq(xs: Seq<TypeExpr>, ys: Seq<TypeExpr>) -> bool
    decreases xs,
{
    if xs.len() != ys.len() {
        false
    } else if xs.len() == 0 {
        true
    } else {
        spec_ty_eq(xs[0], ys[0]) && spec_tys_eq(
            xs.subrange(1, xs.len() as int),
            ys.subrange(1, ys.len() as int),
        )
    }
}

/// Elementwise reading of [`spec_tys_eq`].
pub proof fn lemma_tys_eq_pointwise(xs: Seq<TypeExpr>, ys: Seq<TypeExpr>)
    ensures
        spec_tys_eq(xs, ys) <==> (xs.len() == ys.len() && forall|i: int|
            0 <= i < xs.len() ==> spec_ty_eq(#[trigger] xs[i], ys[i])),
    decreases xs.len(),
{
    if xs.len() == ys.len() && xs.len() > 0 {
        let xt = xs.subrange(1, xs.len() as int);
        let yt = ys.subrange(1, ys.len() as int);
        lemma_tys_eq_pointwise(xt, yt);
        assert(forall|i: int| 0 <= i < xt.len() ==> xt[i] == xs[i + 1] && yt[i] == ys[i + 1]);
        if spec_ty_eq(xs[0], ys[0]) && (forall|i: int|
            0 <= i < xt.len() ==> spec_ty_eq(#[trigger] xt[i], yt[i])) {
            assert(forall|i: int| 0 <= i < xs.len() ==> spec_ty_eq(#[trigger] xs[i], ys[i]))
                by {
                assert forall|i: int| 0 <= i < xs.len() implies spec_ty_eq(
                    #[trigger] xs[i],
                    ys[i],
                ) by {
                    if i > 0 {
                        assert(spec_ty_eq(xt[i - 1], yt[i - 1]));
                    }
                }
            }
        }
    }
}

/// Structural equality is reflexive.
pub proof fn lemma_ty_eq_refl(a: TypeExpr)
    ensures
        spec_ty_eq(a, a),
    decreases a,
{
    match a {
        TypeExpr::Slice(x) => lemma_ty_eq_refl(*x),
        TypeExpr::Array(x, _) => lemma_ty_eq_refl(*x),
        TypeExpr::Ptr(_, x) => lemma_ty_eq_refl(*x),
        TypeExpr::Reference(_, _, x) => lemma_ty_eq_refl(*x),
        TypeExpr::Tuple(xs) => {
            lemma_tys_eq_refl(xs@);
        },
        _ => {},
    }
}

proof fn lemma_tys_eq_refl(xs: Seq<TypeExpr>)
    ensures
        spec_tys_eq(xs, xs),
    decreases xs,
{
    if xs.len() > 0 {
        lemma_ty_eq_refl(xs[0]);
        lemma_tys_eq_refl(xs.subrange(1, xs.len() as int));
    }
}

/// Structural equality is symmetric.
pub proof fn lemma_ty_eq_sym(a: TypeExpr, b: TypeExpr)
    ensures
        spec_ty_eq(a, b) == spec_ty_eq(b, a),
    decreases a,
{
    match (a, b) {
        (TypeExpr::Slice(x), TypeExpr::Slice(y)) => lemma_ty_eq_sym(*x, *y),
        (TypeExpr::Array(x, _), TypeExpr::Array(y, _)) => lemma_ty_eq_sym(*x, *y),
        (TypeExpr::Ptr(_, x), TypeExpr::Ptr(_, y)) => lemma_ty_eq_sym(*x, *y),
        (TypeExpr::Reference(_, _, x), TypeExpr::Reference(_, _, y)) => lemma_ty_eq_sym(*x, *y),
        (TypeExpr::Tuple(xs), TypeExpr::Tuple(ys)) => {
            lemma_tys_eq_pointwise(xs@, ys@);
            lemma_tys_eq_pointwise(ys@, xs@);
            assert forall|i: int| 0 <= i < xs@.len() && i < ys@.len() implies spec_ty_eq(
                #[trigger] xs@[i],
                ys@[i],
            ) == spec_ty_eq(ys@[i], xs@[i]) by {
                lemma_ty_eq_sym(xs@[i], ys@[i]);
            }
        },
        _ => {},
    }
}

/// Structural equality is transitive.
pub proof fn lemma_ty_eq_trans(a: TypeExpr, b: TypeExpr, c: TypeExpr)
    requires
        spec_ty_eq(a, b),
        spec_ty_eq(b, c),
    ensures
        spec_ty_eq(a, c),
    decreases a,
{
    match (a, b, c) {
        (TypeExpr::Slice(x), TypeExpr::Slice(y), TypeExpr::Slice(z)) => lemma_ty_eq_trans(
            *x,
            *y,
            *z,
        ),
        (TypeExpr::Array(x, _), TypeExpr::Array(y, _), TypeExpr::Array(z, _)) => lemma_ty_eq_trans(
            *x,
            *y,
            *z,
        ),
        (TypeExpr::Ptr(_, x), TypeExpr::Ptr(_, y), TypeExpr::Ptr(_, z)) => lemma_ty_eq_trans(
            *x,
            *y,
            *z,
        ),
        (
            TypeExpr::Reference(_, _, x),
            TypeExpr::Reference(_, _, y),
            TypeExpr::Reference(_, _, z),
        ) => lemma_ty_eq_trans(*x, *y, *z),
        (TypeExpr::Tuple(xs), TypeExpr::Tuple(ys), TypeExpr::Tuple(zs)) => {
            lemma_tys_eq_pointwise(xs@, ys@);
            lemma_tys_eq_pointwise(ys@, zs@);
            lemma_tys_eq_pointwise(xs@, zs@);
            assert forall|i: int| 0 <= i < xs@.len() implies spec_ty_eq(
                #[trigger] xs@[i],
                zs@[i],
            ) by {
                lemma_ty_eq_trans(xs@[i], ys@[i], zs@[i]);
            }
        },
        _ => {},
    }
}

/// Whether the type parameter named `name` occurs structurally in `t`:
/// either `t` is that bare path, or the parameter occurs inside a slice,
/// array, pointer, reference or tuple constructor.
pub open spec fn spec_contains_type_param(t: TypeExpr, name: Seq<char>) -> bool
    decreases t,
{
    match t {
        TypeExpr::Path(p) => p@ == name,
        TypeExpr::Slice(b) => spec_contains_type_param(*b, name),
        TypeExpr::Array(b, _) => spec_contains_type_param(*b, name),
        TypeExpr::Ptr(_, b) => spec_contains_type_param(*b, name),
        TypeExpr::Reference(_, _, b) => spec_contains_type_param(*b, name),
        TypeExpr::Tuple(ts) => spec_any_contains_type_param(ts@, name),
        TypeExpr::Other(_) => false,
    }
}

/// Whether the type parameter named `name` occurs in some element of `ts`.
pub open spec fn spec_any_contains_type_param(ts: Seq<TypeExpr>, name: Seq<char>) -> bool
    decreases ts,
{
    if ts.len() == 0 {
        false
    } else {
        spec_contains_type_param(ts[0], name) || spec_any_contains_type_param(
            ts.subrange(1, ts.len() as int),
            name,
        )
    }
}

/// Whether the lifetime named `name` is the lifetime of a reference in `t`,
/// looking under slice, array and tuple constructors only: a reference is
/// matched on its own lifetime and not searched inside.
pub open spec fn spec_contains_lifetime(t: TypeExpr, name: Seq<char>) -> bool
    decreases t,
{
    match t {
        TypeExpr::Slice(b) => spec_contains_lifetime(*b, name),
        TypeExpr::Array(b, _) => spec_contains_lifetime(*b, name),
        TypeExpr::Tuple(ts) => spec_any_contains_lifetime(ts@, name),
        TypeExpr::Reference(lt, _, _) => match lt {
            Some(l) => l@ == name,
            None => false,
        },
        _ => false,
    }
}

/// Whether the lifetime named `name` occurs in some element of `ts`.
pub open spec fn spec_any_contains_lifetime(ts: Seq<TypeExpr>, name: Seq<char>) -> bool
    decreases ts,
{
    if ts.len() == 0 {
        false
    } else {
        spec_contains_lifetime(ts[0], name) || spec_any_contains_lifetime(
            ts.subrange(1, ts.len() as int),
            name,
        )
    }
}

/// Elementwise reading of [`spec_any_contains_type_param`].
pub proof fn lemma_any_contains_type_param(ts: Seq<TypeExpr>, name: Seq<char>)
    ensures
        spec_any_contains_type_param(ts, name) <==> exists|i: int|
            0 <= i < ts.len() && spec_contains_type_param(#[trigger] ts[i], name),
    decreases ts.len(),
{
    if ts.len() > 0 {
        let tail = ts.subrange(1, ts.len() as int);
        lemma_any_contains_type_param(tail, name);
        assert(forall|i: int| 0 <= i < tail.len() ==> tail[i] == ts[i + 1]);
        if spec_any_contains_type_param(ts, name) {
            if spec_contains_type_param(ts[0], name) {
            } else {
                let j = choose|j: int|
                    0 <= j < tail.len() && spec_contains_type_param(#[trigger] tail[j], name);
                assert(spec_contains_type_param(ts[j + 1], name));
            }
        } else {
            assert forall|i: int| 0 <= i < ts.len() implies !spec_contains_type_param(
                #[trigger] ts[i],
                name,
            ) by {
                if i > 0 {
                    assert(tail[i - 1] == ts[i]);
                }
            }
        }
    }
}

/// Elementwise reading of [`spec_any_contains_lifetime`].
pub proof fn lemma_any_contains_lifetime(ts: Seq<TypeExpr>, name: Seq<char>)
    ensures
        spec_any_contains_lifetime(ts, name) <==> exists|i: int|
            0 <= i < ts.len() && spec_contains_lifetime(#[trigger] ts[i], name),
    decreases ts.len(),
{
    if ts.len() > 0 {
        let tail = ts.subrange(1, ts.len() as int);
        lemma_any_contains_lifetime(tail, name);
        assert(forall|i: int| 0 <= i < tail.len() ==> tail[i] == ts[i + 1]);
        if spec_any_contains_lifetime(ts, name) {
            if spec_contains_lifetime(ts[0], name) {
            } else {
                let j = choose|j: int|
                    0 <= j < tail.len() && spec_contains_lifetime(#[trigger] tail[j], name);
                assert(spec_contains_lifetime(ts[j + 1], name));
            }
        } else {
            assert forall|i: int| 0 <= i < ts.len() implies !spec_contains_lifetime(
                #[trigger] ts[i],
                name,
            ) by {
                if i > 0 {
                    assert(tail[i - 1] == ts[i]);
                }
            }
        }
    }
}

/// Structural equality of two type expressions.
#[verifier::loop_isolation(false)]
pub fn ty_eq(a: &TypeExpr, b: &TypeExpr) -> (r: bool)
    ensures
        r == spec_ty_eq(*a, *b),
    decreases *a,
{
    match (a, b) {
        (TypeExpr::Path(x), TypeExpr::Path(y)) => str_eq(x.as_str(), y.as_str()),
        (TypeExpr::Slice(x), TypeExpr::Slice(y)) => ty_eq(&**x, &**y),
        (TypeExpr::Array(x, m), TypeExpr::Array(y, n)) => *m == *n && ty_eq(&**x, &**y),
        (TypeExpr::Ptr(mx, x), TypeExpr::Ptr(my, y)) => *mx == *my && ty_eq(&**x, &**y),
        (TypeExpr::Reference(lx, mx, x), TypeExpr::Reference(ly, my, y)) => {
            let lifetimes_agree = match (lx, ly) {
                (Some(sx), Some(sy)) => str_eq(sx.as_str(), sy.as_str()),
                (None, None) => true,
                _ => false,
            };
            lifetimes_agree && *mx == *my && ty_eq(&**x, &**y)
        },
        (TypeExpr::Tuple(xs), TypeExpr::Tuple(ys)) => {
            proof {
                lemma_tys_eq_pointwise(xs@, ys@);
            }
            if xs.len() != ys.len() {
                return false;
            }
            let mut i: usize = 0;
            while i < xs.len()
                invariant
                    i <= xs.len(),
                    xs@.len() == ys@.len(),
                    forall|k: int| 0 <= k < i ==> spec_ty_eq(#[trigger] xs@[k], ys@[k]),
                decreases xs.len() - i,
        {
                if !ty_eq(&xs[i], &ys[i]) {
                    proof {
                        lemma_tys_eq_pointwise(xs@, ys@);
                    }
                    return false;
                }
                i = i + 1;
            }
            proof {
                lemma_tys_eq_pointwise(xs@, ys@);
            }
            true
        },
        (TypeExpr::Other(x), TypeExpr::Other(y)) => str_eq(x.as_str(), y.as_str()),
        _ => false,
    }
}

/// A structurally equal copy of a type expression.
#[verifier::loop_isolation(false)]
pub fn ty_clone(t: &TypeExpr) -> (r: TypeExpr)
    ensures
        spec_ty_eq(r, *t),
    decreases *t,
{
    match t {
        TypeExpr::Path(s) => TypeExpr::Path(s.clone()),
        TypeExpr::Slice(b) => TypeExpr::Slice(Box::new(ty_clone(&**b))),
        TypeExpr::Array(b, n) => TypeExpr::Array(Box::new(ty_clone(&**b)), *n),
        TypeExpr::Ptr(m, b) => TypeExpr::Ptr(*m, Box::new(ty_clone(&**b))),
        TypeExpr::Reference(lt, m, b) => {
            let lt_copy = match lt {
                Some(s) => Some(s.clone()),
                None => None,
            };
            TypeExpr::Reference(lt_copy, *m, Box::new(ty_clone(&**b)))
        },
        TypeExpr::Tuple(ts) => {
            let mut out: Vec<TypeExpr> = Vec::new();
            let mut i: usize = 0;
            while i < ts.len()
                invariant
                    i <= ts.len(),
                    out@.len() == i,
                    forall|k: int| 0 <= k < i ==> spec_ty_eq(#[trigger] out@[k], ts@[k]),
                decreases ts.len() - i,
            {
                out.push(ty_clone(&ts[i]));
                i = i + 1;
            }
            proof {
                lemma_tys_eq_pointwise(out@, ts@);
            }
            TypeExpr::Tuple(out)
        },
        TypeExpr::Other(s) => TypeExpr::Other(s.clone()),
    }
}

/// Whether the generic parameter `p` occurs structurally in `t`: a type
/// parameter by the path walk, a lifetime parameter by the reference walk.
pub open spec fn spec_param_used(t: TypeExpr, p: GenericParam) -> bool {
    match p {
        GenericParam::TypeParam(n) => spec_contains_type_param(t, n@),
        GenericParam::LifetimeParam(n) => spec_contains_lifetime(t, n@),
    }
}

/// Whether two generic parameters are the same kind under the same name.
pub open spec fn spec_param_eq(a: GenericParam, b: GenericParam) -> bool {
    match (a, b) {
        (GenericParam::TypeParam(x), GenericParam::TypeParam(y)) => x@ == y@,
        (GenericParam::LifetimeParam(x), GenericParam::LifetimeParam(y)) => x@ == y@,
        _ => false,
    }
}

/// Whether the type parameter named `name` occurs structurally in `t`.
#[verifier::loop_isolation(false)]
pub fn contains_type_param(t: &TypeExpr, name: &str) -> (r: bool)
    ensures
        r == spec_contains_type_param(*t, name@),
    decreases *t,
{
    match t {
        TypeExpr::Path(p) => str_eq(p.as_str(), name),
        TypeExpr::Slice(b) => contains_type_param(&**b, name),
        TypeExpr::Array(b, _) => contains_type_param(&**b, name),
        TypeExpr::Ptr(_, b) => contains_type_param(&**b, name),
        TypeExpr::Reference(_, _, b) => contains_type_param(&**b, name),
        TypeExpr::Tuple(ts) => {
            let mut i: usize = 0;
            while i < ts.len()
                invariant
                    i <= ts.len(),
                    forall|k: int| 0 <= k < i ==> !spec_contains_type_param(#[trigger] ts@[k], name@),
                decreases ts.len() - i,
            {
                if contains_type_param(&ts[i], name) {
                    proof {
                        lemma_any_contains_type_param(ts@, name@);
                    }
                    return true;
                }
                i = i + 1;
            }
            proof {
                lemma_any_contains_type_param(ts@, name@);
            }
            false
        },
        TypeExpr::Other(_) => false,
    }
}

/// Whether the lifetime named `name` is the lifetime of a reference in `t`,
/// looking under slice, array and tuple constructors only.
#[verifier::loop_isolation(false)]
pub fn contains_lifetime(t: &TypeExpr, name: &str) -> (r: bool)
    ensures
        r == spec_contains_lifetime(*t, name@),
    decreases *t,
{
    match t {
        TypeExpr::Slice(b) => contains_lifetime(&**b, name),
        TypeExpr::Array(b, _) => contains_lifetime(&**b, name),
        TypeExpr::Tuple(ts) => {
            let mut i: usize = 0;
            while i < ts.len()
                invariant
                    i <= ts.len(),
                    forall|k: int| 0 <= k < i ==> !spec_contains_lifetime(#[trigger] ts@[k], name@),
                decreases ts.len() - i,
            {
                if contains_lifetime(&ts[i], name) {
                    proof {
                        lemma_any_contains_lifetime(ts@, name@);
                    }
                    return true;
                }
                i = i + 1;
            }
            proof {
                lemma_any_contains_lifetime(ts@, name@);
            }
            false
        },
        TypeExpr::Reference(lt, _, _) => match lt {
            Some(l) => str_eq(l.as_str(), name),
            None => false,
        },
        _ => false,
    }
}

/// Whether the generic parameter `p` occurs structurally in `t`.
pub fn param_used(t: &TypeExpr, p: &GenericParam) -> (r: bool)
    ensures
        r == spec_param_used(*t, *p),
{
    match p {
        GenericParam::TypeParam(n) => contains_type_param(t, n.as_str()),
        GenericParam::LifetimeParam(n) => contains_lifetime(t, n.as_str()),
    }
}

/// A copy of a generic parameter under the same name.
pub fn param_clone(p: &GenericParam) -> (r: GenericParam)
    ensures
        spec_param_eq(r, *p),
{
    match p {
        GenericParam::TypeParam(n) => GenericParam::TypeParam(n.clone()),
        GenericParam::LifetimeParam(n) => GenericParam::LifetimeParam(n.clone()),
    }
}

} // verus!
