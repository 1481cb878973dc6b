//! The raw annotation payloads attached to a schema and the parser that
//! interprets them.
//!
//! The host front end tokenizes each annotation into a generic nested shape —
//! words, literals, and named lists of such items — without interpreting it.
//! The functions here extract from that shape the accessor directives of the
//! whole type and the listed modifiers of a single item.  Shapes they do not
//! recognize are skipped silently and never fail the pipeline.

use vstd::prelude::*;

use crate::text::str_eq;

verus! {

broadcast use vstd::std_specs::vec::group_vec_axioms, vstd::seq::group_seq_axioms;

/// One interpreted annotation payload: a word, a literal, or a named list of
/// nested items.  `Other` stands for any shape outside this grammar; every
/// parser in this module skips it.
#[derive(PartialEq, Eq, Debug)]
pub enum MetaItem {
    /// A bare word, such as an ignore marker.
    Word(String),
    /// A named list of nested items, such as a directive group.
    List(String, Vec<MetaItem>),
    /// An integer literal, used by display templates as a positional
    /// argument reference.
    Int(u64),
    /// A string literal, used by display templates as the format template.
    Str(String),
    /// Any annotation shape this library does not interpret.
    Other,
}

/// One annotation as attached in the source: its payload together with its
/// placement.  Only annotations placed outside the item they describe
/// (`outer`) are interpreted.
#[derive(PartialEq, Eq, Debug)]
pub struct RawAttr {
    /// Whether the annotation is attached outside the item it describes.
    pub outer: bool,
    /// The interpreted payload.
    pub meta: MetaItem,
}

/// Whether `m` is the bare word `w`.
pub open spec fn spec_is_word(m: MetaItem, w: Seq<char>) -> bool {
    match m {
        MetaItem::Word(s) => s@ == w,
        _ => false,
    }
}

/// Whether some outer annotation in `attrs` is the bare word `w`.
pub open spec fn spec_has_word(attrs: Seq<RawAttr>, w: Seq<char>) -> bool {
    exists|i: int| 0 <= i < attrs.len() && attrs[i].outer && spec_is_word(#[trigger] attrs[i].meta, w)
}

/// The `(list name, word)` pairs contributed by the words among `items`, a
/// list named `name`, in source order.
pub open spec fn spec_word_pairs(name: Seq<char>, items: Seq<MetaItem>) -> Seq<
    (Seq<char>, Seq<char>),
>
    decreases items.len(),
{
    if items.len() == 0 {
        Seq::empty()
    } else {
        let rest = spec_word_pairs(name, items.drop_last());
        match items.last() {
            MetaItem::Word(w) => rest.push((name, w@)),
            _ => rest,
        }
    }
}

/// The `(list name, word)` pairs contributed by one annotation: one pair per
/// word of an outer named list, in source order.
pub open spec fn spec_attr_pairs(a: RawAttr) -> Seq<(Seq<char>, Seq<char>)> {
    if a.outer {
        match a.meta {
            MetaItem::List(name, items) => spec_word_pairs(name@, items@),
            _ => Seq::empty(),
        }
    } else {
        Seq::empty()
    }
}

/// The `(list name, word)` pairs of all annotations, in source order.
pub open spec fn spec_attr_list(attrs: Seq<RawAttr>) -> Seq<(Seq<char>, Seq<char>)>
    decreases attrs.len(),
{
    if attrs.len() == 0 {
        Seq::empty()
    } else {
        spec_attr_list(attrs.drop_last()) + spec_attr_pairs(attrs.last())
    }
}

/// The surface names a directive kind may carry.
pub open spec fn spec_is_kind_name(s: Seq<char>) -> bool {
    s == "get"@ || s == "get_some"@ || s == "iter"@
}

/// The `(kind, accessor name)` pairs contributed by the nested lists among
/// `items` of one composite directive group.
pub open spec fn spec_group_pairs(items: Seq<MetaItem>) -> Seq<(Seq<char>, Seq<char>)>
    decreases items.len(),
{
    if items.len() == 0 {
        Seq::empty()
    } else {
        let rest = spec_group_pairs(items.drop_last());
        match items.last() {
            MetaItem::List(kind, sub) => rest + spec_word_pairs(kind@, sub@),
            _ => rest,
        }
    }
}

/// The `(kind, accessor name)` pairs contributed by one annotation.  Two
/// surface shapes are accepted as equivalent: a composite group of kind lists
/// under `enum_access`, and an independent list whose own name is a directive
/// kind.
pub open spec fn spec_directive_pairs(a: RawAttr) -> Seq<(Seq<char>, Seq<char>)> {
    if a.outer {
        match a.meta {
            MetaItem::List(name, items) => if name@ == "enum_access"@ {
                spec_group_pairs(items@)
            } else if spec_is_kind_name(name@) {
                spec_word_pairs(name@, items@)
            } else {
                Seq::empty()
            },
            _ => Seq::empty(),
        }
    } else {
        Seq::empty()
    }
}

/// The `(kind, accessor name)` directive pairs of all annotations, in source
/// order, duplicates kept.
pub open spec fn spec_directive_list(attrs: Seq<RawAttr>) -> Seq<(Seq<char>, Seq<char>)>
    decreases attrs.len(),
{
    if attrs.len() == 0 {
        Seq::empty()
    } else {
        spec_directive_list(attrs.drop_last()) + spec_directive_pairs(attrs.last())
    }
}

proof fn lemma_attr_list_step(attrs: Seq<RawAttr>, i: int)
    requires
        0 <= i < attrs.len(),
    ensures
        spec_attr_list(attrs.take(i + 1)) == spec_attr_list(attrs.take(i)) + spec_attr_pairs(
            attrs[i],
        ),
{
    assert(attrs.take(i + 1).drop_last() =~= attrs.take(i));
    assert(attrs.take(i + 1).last() == attrs[i]);
}

proof fn lemma_directive_list_step(attrs: Seq<RawAttr>, i: int)
    requires
        0 <= i < attrs.len(),
    ensures
        spec_directive_list(attrs.take(i + 1)) == spec_directive_list(attrs.take(i))
            + spec_directive_pairs(attrs[i]),
{
    assert(attrs.take(i + 1).drop_last() =~= attrs.take(i));
    assert(attrs.take(i + 1).last() == attrs[i]);
}

proof fn lemma_word_pairs_step(name: Seq<char>, items: Seq<MetaItem>, i: int)
    requires
        0 <= i < items.len(),
    ensures
        spec_word_pairs(name, items.take(i + 1)) == (match items[i] {
            MetaItem::Word(w) => spec_word_pairs(name, items.take(i)).push((name, w@)),
            _ => spec_word_pairs(name, items.take(i)),
        }),
{
    assert(items.take(i + 1).drop_last() =~= items.take(i));
    assert(items.take(i + 1).last() == items[i]);
}

proof fn lemma_group_pairs_step(items: Seq<MetaItem>, i: int)
    requires
        0 <= i < items.len(),
    ensures
        spec_group_pairs(items.take(i + 1)) == (match items[i] {
            MetaItem::List(kind, sub) => spec_group_pairs(items.take(i)) + spec_word_pairs(
                kind@,
                sub@,
            ),
            _ => spec_group_pairs(items.take(i)),
        }),
{
    assert(items.take(i + 1).drop_last() =~= items.take(i));
    assert(items.take(i + 1).last() == items[i]);
}

/// Whether some outer annotation in `attrs` is the bare word `w`; the marker
/// test behind the ignored and extractable flags.
pub fn has_word_attr(attrs: &Vec<RawAttr>, w: &str) -> (r: bool)
    ensures
        r == spec_has_word(attrs@, w@),
{
    let mut i: usize = 0;
    while i < attrs.len()
        invariant
            i <= attrs.len(),
            forall|k: int|
                0 <= k < i ==> !(attrs@[k].outer && spec_is_word(#[trigger] attrs@[k].meta, w@)),
        decreases attrs.len() - i,
    {
        if attrs[i].outer {
            match &attrs[i].meta {
                MetaItem::Word(s) => {
                    if str_eq(s.as_str(), w) {
                        assert(attrs@[i as int].outer && spec_is_word(attrs@[i as int].meta, w@));
                        return true;
                    }
                },
                _ => {},
            }
        }
        i = i + 1;
    }
    false
}

/// Appends to `out` one `(name, word)` pair per word among `items`.
fn push_word_pairs(out: &mut Vec<(String, String)>, name: &String, items: &Vec<MetaItem>)
    ensures
        final(out).deep_view() == old(out).deep_view() + spec_word_pairs(name@, items@),
{
    let ghost dv0 = out.deep_view();
    let mut j: usize = 0;
    while j < items.len()
        invariant
            j <= items.len(),
            out.deep_view() == dv0 + spec_word_pairs(name@, items@.take(j as int)),
        decreases items.len() - j,
    {
        match &items[j] {
            MetaItem::Word(w) => {
                let ghost dv_before = out.deep_view();
                out.push((name.clone(), w.clone()));
                proof {
                    assert(out.deep_view() =~= dv_before.push((name@, w@)));
                    lemma_word_pairs_step(name@, items@, j as int);
                    assert(out.deep_view() =~= dv0 + spec_word_pairs(
                        name@,
                        items@.take(j as int + 1),
                    ));
                }
            },
            _ => {
                proof {
                    lemma_word_pairs_step(name@, items@, j as int);
                }
            },
        }
        j = j + 1;
    }
    proof {
        assert(items@.take(items@.len() as int) =~= items@);
    }
}

/// Lists every `(list name, word)` pair of the outer annotations, in source
/// order: the generic word listing that field modifiers such as aliases are
/// read from.
pub fn get_attribute_list(attrs: &Vec<RawAttr>) -> (r: Vec<(String, String)>)
    ensures
        r.deep_view() == spec_attr_list(attrs@),
{
    let mut r: Vec<(String, String)> = Vec::new();
    let mut i: usize = 0;
    while i < attrs.len()
        invariant
            i <= attrs.len(),
            r.deep_view() == spec_attr_list(attrs@.take(i as int)),
        decreases attrs.len() - i,
    {
        proof {
            lemma_attr_list_step(attrs@, i as int);
        }
        if attrs[i].outer {
            match &attrs[i].meta {
                MetaItem::List(name, items) => {
                    push_word_pairs(&mut r, name, items);
                },
                _ => {},
            }
        }
        i = i + 1;
    }
    proof {
        assert(attrs@.take(attrs@.len() as int) =~= attrs@);
    }
    r
}

/// Lists the `(kind, accessor name)` directive pairs of the outer
/// annotations, in source order, duplicates kept.  Directives grouped under
/// one composite annotation and directives written as independent kind lists
/// normalize to the same flat list.
pub fn get_accessor_list(attrs: &Vec<RawAttr>) -> (r: Vec<(String, String)>)
    ensures
        r.deep_view() == spec_directive_list(attrs@),
{
    let mut r: Vec<(String, String)> = Vec::new();
    let mut i: usize = 0;
    while i < attrs.len()
        invariant
            i <= attrs.len(),
            r.deep_view() == spec_directive_list(attrs@.take(i as int)),
        decreases attrs.len() - i,
    {
        proof {
            lemma_directive_list_step(attrs@, i as int);
        }
        if attrs[i].outer {
            match &attrs[i].meta {
                MetaItem::List(name, items) => {
                    if str_eq(name.as_str(), "enum_access") {
                        let mut j: usize = 0;
                        let ghost dv0 = r.deep_view();
                        while j < items.len()
                            invariant
                                j <= items.len(),
                                r.deep_view() == dv0 + spec_group_pairs(items@.take(j as int)),
                            decreases items.len() - j,
                        {
                            proof {
                                lemma_group_pairs_step(items@, j as int);
                            }
                            match &items[j] {
                                MetaItem::List(kind, sub) => {
                                    push_word_pairs(&mut r, kind, sub);
                                },
                                _ => {},
                            }
                            j = j + 1;
                        }
                        proof {
                            assert(items@.take(items@.len() as int) =~= items@);
                        }
                    } else if str_eq(name.as_str(), "get") || str_eq(name.as_str(), "get_some")
                        || str_eq(name.as_str(), "iter") {
                        push_word_pairs(&mut r, name, items);
                    }
                },
                _ => {},
            }
        }
        i = i + 1;
    }
    proof {
        assert(attrs@.take(attrs@.len() as int) =~= attrs@);
    }
    r
}

} // verus!
