//! The structural schema of a sum type: the immutable input of the whole
//! pipeline, as handed over by the host front end.

use vstd::prelude::*;

use crate::annot::{spec_attr_list, spec_has_word, get_attribute_list, has_word_attr, RawAttr};
use crate::text::str_eq;
use crate::ty::TypeExpr;
use crate::ty::GenericParam;

verus! {

broadcast use vstd::std_specs::vec::group_vec_axioms, vstd::seq::group_seq_axioms;

/// One field of a variant.  A positional field carries its synthetic
/// index-derived name, assigned by the front end.
#[derive(PartialEq, Eq, Debug)]
pub struct Field {
    /// The identifying name, explicit or index-derived.
    pub name: String,
    /// The structural type of the field.
    pub ty: TypeExpr,
    /// The field's annotations: alias lists and the ignore marker.
    pub attrs: Vec<RawAttr>,
}

/// One variant of the sum type, with its fields in declaration order.
#[derive(PartialEq, Eq, Debug)]
pub struct Variant {
    /// The variant's name.
    pub name: String,
    /// Whether the fields are named; otherwise they are positional.
    pub named: bool,
    /// The variant's annotations: the extraction marker and the display
    /// template.
    pub attrs: Vec<RawAttr>,
    /// The fields, in declaration order.
    pub fields: Vec<Field>,
}

/// The schema of one sum type: its name, its generic parameters in
/// declaration order, its own annotations (the directive lists), and its
/// variants in declaration order.
#[derive(PartialEq, Eq, Debug)]
pub struct Schema {
    /// The name of the sum type.
    pub name: String,
    /// The generic parameters, in declaration order.
    pub generics: Vec<GenericParam>,
    /// The type-level annotations holding the accessor directives.
    pub attrs: Vec<RawAttr>,
    /// The variants, in declaration order.
    pub variants: Vec<Variant>,
}

/// Whether a field is marked ignored.  An ignored field is never eligible
/// for any accessor, whatever its name or aliases say.
pub open spec fn spec_field_ignored(f: Field) -> bool {
    spec_has_word(f.attrs@, "enum_ignore"@)
}

/// Whether a field's own name or one of its alias names is `name`.
pub open spec fn spec_field_matches(f: Field, name: Seq<char>) -> bool {
    f.name@ == name || spec_attr_list(f.attrs@).contains(("enum_alias"@, name))
}

/// Whether a field is eligible for the accessor named `name`: its name or an
/// alias matches, and it is not marked ignored.
pub open spec fn spec_field_eligible(f: Field, name: Seq<char>) -> bool {
    !spec_field_ignored(f) && spec_field_matches(f, name)
}

/// Whether a variant is marked for extraction into a standalone product
/// type.
pub open spec fn spec_variant_extractable(v: Variant) -> bool {
    spec_has_word(v.attrs@, "enum_inner_struct"@)
}

/// Whether a field is eligible for the accessor named `name`.
#[verifier::loop_isolation(false)]
pub fn field_eligible(f: &Field, name: &str) -> (r: bool)
    ensures
        r == spec_field_eligible(*f, name@),
{
    if has_word_attr(&f.attrs, "enum_ignore") {
        return false;
    }
    if str_eq(f.name.as_str(), name) {
        return true;
    }
    let pairs = get_attribute_list(&f.attrs);
    let mut i: usize = 0;
    while i < pairs.len()
        invariant
            i <= pairs.len(),
            pairs.deep_view() == spec_attr_list(f.attrs@),
            forall|k: int| 0 <= k < i ==> pairs.deep_view()[k] != ("enum_alias"@, name@),
        decreases pairs.len() - i,
    {
        let hit = str_eq(pairs[i].0.as_str(), "enum_alias") && str_eq(pairs[i].1.as_str(), name);
        proof {
            assert(pairs.deep_view()[i as int] == (pairs@[i as int].0@, pairs@[i as int].1@));
        }
        if hit {
            assert(spec_attr_list(f.attrs@).contains(("enum_alias"@, name@)));
            return true;
        }
        i = i + 1;
    }
    proof {
        assert(pairs.deep_view().len() == pairs@.len());
        if spec_attr_list(f.attrs@).contains(("enum_alias"@, name@)) {
            let k = choose|k: int|
                0 <= k < spec_attr_list(f.attrs@).len() && spec_attr_list(f.attrs@)[k] == (
                "enum_alias"@,
                name@,
                );
            assert(pairs.deep_view()[k] == ("enum_alias"@, name@));
        }
    }
    false
}

/// Whether a variant is marked for extraction.
pub fn variant_extractable(v: &Variant) -> (r: bool)
    ensures
        r == spec_variant_extractable(*v),
{
    has_word_attr(&v.attrs, "enum_inner_struct")
}

/// A field marked ignored is never eligible, whatever accessor name is
/// asked and whatever its own name or aliases say: the ignore marker
/// overrides every match.
pub proof fn lemma_ignored_never_eligible(f: Field, name: Seq<char>)
    requires
        spec_field_ignored(f),
    ensures
        !spec_field_eligible(f, name),
{
}

} // verus!
