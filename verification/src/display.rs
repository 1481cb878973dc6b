//! Display synthesis: per-variant formatting from an optional display
//! template.
//!
//! A variant may carry a display template: a format string with one
//! placeholder per argument reference, each reference naming a field or
//! giving a positional index.  The synthesized dispatch formats a value by
//! its variant's template; a variant without one formats to an empty
//! result — a preserved fallback of the surface syntax rather than an
//! error.

use vstd::prelude::*;
use vstd::string::StrSliceExecFns;
use vstd::string::StringExecFns;

use crate::annot::{MetaItem, RawAttr};
use crate::schema::{Schema, Variant};
use crate::text::str_eq;
use crate::value::{spec_value_wf, EnumValue, Value};

verus! {

broadcast use vstd::std_specs::vec::group_vec_axioms, vstd::seq::group_seq_axioms;

/// One argument reference of a display template: a field name or a
/// positional field index.
#[derive(PartialEq, Eq, Debug)]
pub enum ArgRef {
    /// A reference to the variant's field of this name.
    Named(String),
    /// A reference to the variant's field at this position.
    Positional(u64),
}

/// One display template: a format string and its argument references, in
/// order.
#[derive(PartialEq, Eq, Debug)]
pub struct DisplayTemplate {
    /// The format string; each placeholder pair of braces consumes one
    /// argument reference.
    pub format: String,
    /// The argument references, in order.
    pub args: Vec<ArgRef>,
}

/// The synthesized formatting dispatch: one optional template per variant,
/// in schema order, exhaustive by construction.
#[derive(PartialEq, Eq, Debug)]
pub struct DisplayImpl {
    /// Each variant's template, or nothing for a variant without one.
    pub arms: Vec<Option<DisplayTemplate>>,
}

/// The mathematical shape of an argument reference.
pub enum ArgSpec {
    Named(Seq<char>),
    Positional(u64),
}

/// The mathematical shape of a display template.
pub struct TemplateSpec {
    pub format: Seq<char>,
    pub args: Seq<ArgSpec>,
}

/// The shape of one argument reference.
pub open spec fn spec_arg_view(a: ArgRef) -> ArgSpec {
    match a {
        ArgRef::Named(n) => ArgSpec::Named(n@),
        ArgRef::Positional(p) => ArgSpec::Positional(p),
    }
}

/// The shape of one display template.
pub open spec fn spec_template_view(t: DisplayTemplate) -> TemplateSpec {
    TemplateSpec {
        format: t.format@,
        args: Seq::new(t.args@.len(), |j: int| spec_arg_view(t.args@[j])),
    }
}

/// Whether one annotation item can stand as a template argument
/// reference.
pub open spec fn spec_is_arg_item(m: MetaItem) -> bool {
    match m {
        MetaItem::Word(_) => true,
        MetaItem::Int(_) => true,
        _ => false,
    }
}

/// The argument reference an annotation item stands for.
pub open spec fn spec_arg_of_item(m: MetaItem) -> ArgSpec {
    match m {
        MetaItem::Word(w) => ArgSpec::Named(w@),
        MetaItem::Int(n) => ArgSpec::Positional(n),
        _ => ArgSpec::Positional(0),
    }
}

/// The template one annotation carries, if it is a well-shaped display
/// annotation: an outer list named for display whose first item is the
/// format string and whose remaining items are words or integer literals.
/// Any other shape carries none and is skipped silently.
pub open spec fn spec_template_of_attr(a: RawAttr) -> Option<TemplateSpec> {
    if a.outer {
        match a.meta {
            MetaItem::List(name, items) => if name@ == "enum_display"@ && items@.len() >= 1 && (
            match items@[0] {
                MetaItem::Str(_) => true,
                _ => false,
            }) && (forall|j: int| 1 <= j < items@.len() ==> spec_is_arg_item(#[trigger] items@[j])) {
                Some(
                    TemplateSpec {
                        format: (match items@[0] {
                            MetaItem::Str(f) => f@,
                            _ => Seq::empty(),
                        }),
                        args: Seq::new(
                            (items@.len() - 1) as nat,
                            |j: int| spec_arg_of_item(items@[j + 1]),
                        ),
                    },
                )
            } else {
                None
            },
            _ => None,
        }
    } else {
        None
    }
}

/// The first template among the annotations at or after `i`.
pub open spec fn spec_template_from(attrs: Seq<RawAttr>, i: int) -> Option<TemplateSpec>
    decreases attrs.len() - i,
{
    if i < 0 || i >= attrs.len() {
        None
    } else {
        match spec_template_of_attr(attrs[i]) {
            Some(t) => Some(t),
            None => spec_template_from(attrs, i + 1),
        }
    }
}

/// The display template of a variant: the first well-shaped display
/// annotation among its annotations, if any.
pub open spec fn spec_display_template(attrs: Seq<RawAttr>) -> Option<TemplateSpec> {
    spec_template_from(attrs, 0)
}

/// Finds the display template among a variant's annotations.
#[verifier::loop_isolation(false)]
pub fn find_display_template(attrs: &Vec<RawAttr>) -> (r: Option<DisplayTemplate>)
    ensures
        match r {
            Some(t) => spec_display_template(attrs@) == Some(spec_template_view(t)),
            None => spec_display_template(attrs@) is None,
        },
{
    let mut i: usize = 0;
    while i < attrs.len()
        invariant
            i <= attrs@.len(),
            spec_template_from(attrs@, 0) == spec_template_from(attrs@, i as int),
        decreases attrs@.len() - i,
    {
        let a = &attrs[i];
        if a.outer {
            match &a.meta {
                MetaItem::List(name, items) => {
                    if str_eq(name.as_str(), "enum_display") && items.len() >= 1 {
                        let format_opt = match &items[0] {
                            MetaItem::Str(f) => Some(f.clone()),
                            _ => None,
                        };
                        match format_opt {
                            Some(format) => {
                                let mut args: Vec<ArgRef> = Vec::new();
                                let mut ok = true;
                                let mut j: usize = 1;
                                while j < items.len()
                                    invariant
                                        1 <= j <= items@.len(),
                                        ok ==> args@.len() == j - 1,
                                        ok ==> forall|k: int|
                                            1 <= k < j ==> spec_is_arg_item(#[trigger] items@[k]),
                                        ok ==> forall|k: int|
                                            0 <= k < j - 1 ==> spec_arg_view(#[trigger] args@[k])
                                                == spec_arg_of_item(items@[k + 1]),
                                        !ok ==> !(forall|k: int|
                                            1 <= k < items@.len() ==> spec_is_arg_item(
                                                #[trigger] items@[k],
                                            )),
                                    decreases items@.len() - j,
                                {
                                    match &items[j] {
                                        MetaItem::Word(w) => {
                                            args.push(ArgRef::Named(w.clone()));
                                            j = j + 1;
                                        },
                                        MetaItem::Int(n) => {
                                            args.push(ArgRef::Positional(*n));
                                            j = j + 1;
                                        },
                                        _ => {
                                            assert(!spec_is_arg_item(items@[j as int]));
                                            ok = false;
                                            break;
                                        },
                                    }
                                }
                                if ok {
                                    let t = DisplayTemplate { format, args };
                                    proof {
                                        let ts = spec_template_of_attr(attrs@[i as int]);
                                        assert(ts is Some);
                                        assert(spec_template_view(t).args
                                            =~= ts->Some_0.args);
                                        assert(spec_template_view(t) == ts->Some_0);
                                    }
                                    return Some(t);
                                }
                            },
                            None => {},
                        }
                    }
                },
                _ => {},
            }
        }
        proof {
            assert(spec_template_of_attr(attrs@[i as int]) is None);
        }
        i = i + 1;
    }
    None
}

/// Appends one character.  Relies on `String::push`: the string grows by
/// exactly that character.
#[verifier::external_body]
fn push_char(s: &mut String, c: char)
    ensures
        final(s)@ == old(s)@.push(c),
{
    s.push(c);
}

/// The decimal digit character of `d`.
pub open spec fn spec_digit(d: int) -> char {
    ((48 + d) as u8) as char
}

/// The decimal text of a nonnegative number, most significant digit
/// first.
pub open spec fn spec_nat_text(n: nat) -> Seq<char>
    decreases n,
{
    if n < 10 {
        seq![spec_digit(n as int)]
    } else {
        spec_nat_text(n / 10).push(spec_digit((n % 10) as int))
    }
}

/// The decimal text of an integer: a sign for a negative one, then the
/// digits of its magnitude.
pub open spec fn spec_int_text(i: int) -> Seq<char> {
    if i < 0 {
        seq!['-'] + spec_nat_text((-i) as nat)
    } else {
        spec_nat_text(i as nat)
    }
}

/// The text a field value formats to: its decimal digits for an integer,
/// its own characters for a string.
pub open spec fn spec_value_text(v: Value) -> Seq<char> {
    match v {
        Value::Int(i) => spec_int_text(i as int),
        Value::Str(s) => s@,
    }
}

/// The decimal text of a nonnegative number.
fn nat_text(n: u64) -> (r: String)
    ensures
        r@ == spec_nat_text(n as nat),
    decreases n,
{
    if n < 10 {
        let d: u8 = 48 + (n as u8);
        let mut s = String::new();
        push_char(&mut s, d as char);
        proof {
            assert(s@ =~= seq![spec_digit(n as int)]);
        }
        s
    } else {
        let mut s = nat_text(n / 10);
        let d: u8 = 48 + ((n % 10) as u8);
        push_char(&mut s, d as char);
        s
    }
}

/// The decimal text of an integer.
fn int_text(i: i64) -> (r: String)
    ensures
        r@ == spec_int_text(i as int),
{
    if i >= 0 {
        nat_text(i as u64)
    } else {
        let m: u64 = (-(i as i128)) as u64;
        let mut s = String::new();
        push_char(&mut s, '-');
        let digits = nat_text(m);
        s.append(digits.as_str());
        proof {
            assert(s@ =~= seq!['-'] + spec_nat_text(m as nat));
        }
        s
    }
}

/// The text a field value formats to.
fn value_text(v: &Value) -> (r: String)
    ensures
        r@ == spec_value_text(*v),
{
    match v {
        Value::Int(i) => int_text(*i),
        Value::Str(s) => s.clone(),
    }
}

/// The format string with each placeholder pair of braces replaced by the
/// next argument text, if the placeholders and arguments pair off exactly;
/// any other character stands for itself.
pub open spec fn spec_subst(fmt: Seq<char>, args: Seq<Seq<char>>) -> Option<Seq<char>>
    decreases fmt.len(),
{
    if fmt.len() == 0 {
        if args.len() == 0 {
            Some(Seq::empty())
        } else {
            None
        }
    } else if fmt.len() >= 2 && fmt[0] == '{' && fmt[1] == '}' {
        if args.len() == 0 {
            None
        } else {
            match spec_subst(fmt.skip(2), args.skip(1)) {
                Some(rest) => Some(args[0] + rest),
                None => None,
            }
        }
    } else {
        match spec_subst(fmt.skip(1), args) {
            Some(rest) => Some(seq![fmt[0]] + rest),
            None => None,
        }
    }
}

/// Substitution from position `i` of the format and argument `j` on.
fn subst_from(fmt: &str, i: usize, args: &Vec<String>, j: usize) -> (r: Option<String>)
    requires
        i <= fmt@.len(),
        j <= args@.len(),
    ensures
        match r {
            Some(out) => spec_subst(fmt@.skip(i as int), args.deep_view().skip(j as int)) == Some(
                out@,
            ),
            None => spec_subst(fmt@.skip(i as int), args.deep_view().skip(j as int)) is None,
        },
    decreases fmt@.len() - i,
{
    let len = fmt.unicode_len();
    let ghost f = fmt@.skip(i as int);
    let ghost a = args.deep_view().skip(j as int);
    if i == len {
        if j == args.len() {
            Some(String::new())
        } else {
            None
        }
    } else if i + 1 < len && fmt.get_char(i) == '{' && fmt.get_char(i + 1) == '}' {
        proof {
            assert(f[0] == fmt@[i as int]);
            assert(f[1] == fmt@[i as int + 1]);
            assert(fmt@.skip(i as int + 2) =~= f.skip(2));
        }
        if j == args.len() {
            proof {
                assert(a.len() == 0);
            }
            None
        } else {
            proof {
                assert(args.deep_view().skip(j as int + 1) =~= a.skip(1));
                assert(a[0] == args.deep_view()[j as int]);
            }
            match subst_from(fmt, i + 2, args, j + 1) {
                None => None,
                Some(rest) => {
                    let mut out = args[j].clone();
                    out.append(rest.as_str());
                    Some(out)
                },
            }
        }
    } else {
        proof {
            assert(f[0] == fmt@[i as int]);
            assert(fmt@.skip(i as int + 1) =~= f.skip(1));
            if f.len() >= 2 {
                assert(f[1] == fmt@[i as int + 1]);
            }
        }
        match subst_from(fmt, i + 1, args, j) {
            None => None,
            Some(rest) => {
                let c = fmt.get_char(i);
                let mut out = String::new();
                push_char(&mut out, c);
                out.append(rest.as_str());
                proof {
                    assert(out@ =~= seq![f[0]] + rest@);
                }
                Some(out)
            },
        }
    }
}

/// The index of the first field at or after `i` whose name is `n`, or the
/// field count if none matches.
pub open spec fn spec_find_field(fields: Seq<crate::schema::Field>, n: Seq<char>, i: int) -> int
    decreases fields.len() - i,
{
    if i < 0 || i >= fields.len() {
        fields.len() as int
    } else if fields[i].name@ == n {
        i
    } else {
        spec_find_field(fields, n, i + 1)
    }
}

/// The value an argument reference picks out of a variant's field values:
/// the first field of that name, or the field at that position.
pub open spec fn spec_arg_value(v: Variant, fields: Seq<Value>, a: ArgSpec) -> Option<Value> {
    match a {
        ArgSpec::Positional(p) => if (p as int) < fields.len() {
            Some(fields[p as int])
        } else {
            None
        },
        ArgSpec::Named(n) => {
            let i = spec_find_field(v.fields@, n, 0);
            if i < v.fields@.len() && i < fields.len() {
                Some(fields[i])
            } else {
                None
            }
        },
    }
}

/// The texts the template's argument references format to, if every
/// reference resolves to a field.
pub open spec fn spec_arg_texts(v: Variant, fields: Seq<Value>, args: Seq<ArgSpec>) -> Option<
    Seq<Seq<char>>,
> {
    if forall|k: int| 0 <= k < args.len() ==> spec_arg_value(v, fields, #[trigger] args[k]) is Some {
        Some(Seq::new(args.len(), |k: int| spec_value_text(spec_arg_value(v, fields, args[k])->Some_0)))
    } else {
        None
    }
}

/// What one template formats a variant's field values to: the format
/// string with each placeholder replaced by the next reference's text.
/// Nothing if a reference does not resolve or the placeholders and
/// references do not pair off.
pub open spec fn spec_render_template(t: TemplateSpec, v: Variant, fields: Seq<Value>) -> Option<
    Seq<char>,
> {
    match spec_arg_texts(v, fields, t.args) {
        Some(texts) => spec_subst(t.format, texts),
        None => None,
    }
}

/// What a value of the sum type formats to: its variant's template applied
/// to its field values, or the empty text for a variant without a
/// template.
pub open spec fn spec_render_value(s: Schema, v: EnumValue) -> Option<Seq<char>> {
    match spec_display_template(s.variants@[v.variant as int].attrs@) {
        None => Some(Seq::empty()),
        Some(t) => spec_render_template(t, s.variants@[v.variant as int], v.fields@),
    }
}

/// Builds the formatting dispatch: each variant's display template, found
/// among its annotations, in schema order.
#[verifier::loop_isolation(false)]
pub fn synthesize_display(s: &Schema) -> (d: DisplayImpl)
    ensures
        d.arms@.len() == s.variants@.len(),
        forall|v: int|
            0 <= v < s.variants@.len() ==> (match #[trigger] d.arms@[v] {
                Some(t) => spec_display_template(s.variants@[v].attrs@) == Some(
                    spec_template_view(t),
                ),
                None => spec_display_template(s.variants@[v].attrs@) is None,
            }),
{
    let mut arms: Vec<Option<DisplayTemplate>> = Vec::new();
    let mut v: usize = 0;
    while v < s.variants.len()
        invariant
            v <= s.variants@.len(),
            arms@.len() == v,
            forall|x: int|
                0 <= x < v ==> (match #[trigger] arms@[x] {
                    Some(t) => spec_display_template(s.variants@[x].attrs@) == Some(
                        spec_template_view(t),
                    ),
                    None => spec_display_template(s.variants@[x].attrs@) is None,
                }),
        decreases s.variants@.len() - v,
    {
        let arm = find_display_template(&s.variants[v].attrs);
        arms.push(arm);
        v = v + 1;
    }
    DisplayImpl { arms }
}

/// Formats a value of the sum type by the synthesized dispatch: the
/// variant's template applied to the field values, or the empty string for
/// a variant without one.  Nothing when a reference does not resolve or
/// the placeholders and references do not pair off — shapes the surface
/// syntax could not compile.
#[verifier::loop_isolation(false)]
pub fn render_value(s: &Schema, d: &DisplayImpl, v: &EnumValue) -> (r: Option<String>)
    requires
        spec_value_wf(*s, *v),
        d.arms@.len() == s.variants@.len(),
        forall|x: int|
            0 <= x < s.variants@.len() ==> (match #[trigger] d.arms@[x] {
                Some(t) => spec_display_template(s.variants@[x].attrs@) == Some(
                    spec_template_view(t),
                ),
                None => spec_display_template(s.variants@[x].attrs@) is None,
            }),
    ensures
        match r {
            Some(out) => spec_render_value(*s, *v) == Some(out@),
            None => spec_render_value(*s, *v) is None,
        },
{
    let var = &s.variants[v.variant];
    let arm = &d.arms[v.variant];
    match arm {
        None => Some(String::new()),
        Some(t) => {
            let ghost ts = spec_template_view(*t);
            let mut texts: Vec<String> = Vec::new();
            let mut k: usize = 0;
            while k < t.args.len()
                invariant
                    k <= t.args@.len(),
                    texts@.len() == k,
                    forall|x: int|
                        0 <= x < k ==> spec_arg_value(*var, v.fields@, ts.args[x]) is Some,
                    forall|x: int|
                        0 <= x < k ==> (#[trigger] texts.deep_view()[x]) == spec_value_text(
                            spec_arg_value(*var, v.fields@, ts.args[x])->Some_0,
                        ),
                decreases t.args@.len() - k,
            {
                let picked: Option<&Value> = match &t.args[k] {
                    ArgRef::Positional(p) => {
                        proof {
                            assert(ts.args[k as int] == ArgSpec::Positional(*p));
                        }
                        if *p < (v.fields.len() as u64) {
                            let val = &v.fields[*p as usize];
                            proof {
                                assert(*val == v.fields@[*p as int]);
                                assert(spec_arg_value(*var, v.fields@, ts.args[k as int]) == Some(
                                    v.fields@[*p as int],
                                ));
                            }
                            Some(val)
                        } else {
                            None
                        }
                    },
                    ArgRef::Named(n) => {
                        proof {
                            assert(ts.args[k as int] == ArgSpec::Named(n@));
                        }
                        let mut i: usize = 0;
                        let mut found: Option<usize> = None;
                        while i < var.fields.len() && found.is_none()
                            invariant
                                i <= var.fields@.len(),
                                found is None ==> spec_find_field(var.fields@, n@, 0)
                                    == spec_find_field(var.fields@, n@, i as int),
                                match found {
                                    Some(fi) => fi as int == spec_find_field(var.fields@, n@, 0)
                                        && (fi as int) < var.fields@.len(),
                                    None => true,
                                },
                            decreases var.fields@.len() - i,
                        {
                            if str_eq(var.fields[i].name.as_str(), n.as_str()) {
                                found = Some(i);
                            }
                            i = i + 1;
                        }
                        match found {
                            Some(fi) => {
                                let x = &v.fields[fi];
                                proof {
                                    assert(spec_arg_value(*var, v.fields@, ts.args[k as int])
                                        == Some(v.fields@[fi as int]));
                                }
                                Some(x)
                            },
                            None => {
                                proof {
                                    assert(spec_find_field(var.fields@, n@, 0)
                                        == var.fields@.len());
                                    assert(spec_arg_value(*var, v.fields@, ts.args[k as int])
                                        is None);
                                }
                                None
                            },
                        }
                    },
                };
                match picked {
                    None => {
                        proof {
                            assert(spec_arg_value(*var, v.fields@, ts.args[k as int]) is None);
                            assert(spec_arg_texts(*var, v.fields@, ts.args) is None);
                        }
                        return None;
                    },
                    Some(val) => {
                        let text = value_text(val);
                        let ghost dv0 = texts.deep_view();
                        let ghost tv = text@;
                        texts.push(text);
                        proof {
                            assert(spec_arg_value(*var, v.fields@, ts.args[k as int]) is Some);
                            assert(*val == spec_arg_value(
                                *var,
                                v.fields@,
                                ts.args[k as int],
                            )->Some_0);
                            assert(texts.deep_view() =~= dv0.push(tv));
                        }
                    },
                }
                k = k + 1;
            }
            proof {
                assert(spec_arg_texts(*var, v.fields@, ts.args) is Some);
                assert(texts.deep_view() =~= spec_arg_texts(*var, v.fields@, ts.args)->Some_0);
                assert(t.format@.skip(0) =~= ts.format);
                assert(texts.deep_view().skip(0) =~= texts.deep_view());
            }
            subst_from(t.format.as_str(), 0, &texts, 0)
        },
    }
}

} // verus!
