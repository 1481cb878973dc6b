use enum_access::annot::{get_accessor_list, get_attribute_list, MetaItem, RawAttr};
use enum_access::display::{render_value, synthesize_display};
use enum_access::inner::{downcast, upcast};
use enum_access::resolve::{resolve_directive, SchemaError};
use enum_access::schema::{Field, Schema, Variant};
use enum_access::synth::{access_iterate, access_optional};
use enum_access::ty::TypeExpr;
use enum_access::value::{EnumValue, Value};
use enum_access::generate;

fn word(s: &str) -> MetaItem {
    MetaItem::Word(s.to_string())
}

fn list(name: &str, items: Vec<MetaItem>) -> MetaItem {
    MetaItem::List(name.to_string(), items)
}

fn outer(meta: MetaItem) -> RawAttr {
    RawAttr { outer: true, meta }
}

fn path(s: &str) -> TypeExpr {
    TypeExpr::Path(s.to_string())
}

fn alias(names: &[&str]) -> RawAttr {
    outer(list("enum_alias", names.iter().map(|n| word(n)).collect()))
}

fn field(name: &str, ty: TypeExpr, attrs: Vec<RawAttr>) -> Field {
    Field { name: name.to_string(), ty, attrs }
}

fn named_variant(name: &str, attrs: Vec<RawAttr>, fields: Vec<Field>) -> Variant {
    Variant { name: name.to_string(), named: true, attrs, fields }
}

fn simple_schema(attrs: Vec<RawAttr>, variants: Vec<Variant>) -> Schema {
    Schema { name: "S".to_string(), generics: vec![], attrs, variants }
}

fn pair(k: &str, n: &str) -> (String, String) {
    (k.to_string(), n.to_string())
}

#[test]
fn directive_shapes_normalize_alike() {
    // One composite annotation and independent kind lists flatten to the
    // same directive list.
    let composite = vec![outer(list(
        "enum_access",
        vec![list("get", vec![word("name")]), list("iter", vec![word("inputs")])],
    ))];
    let independent = vec![
        outer(list("get", vec![word("name")])),
        outer(list("iter", vec![word("inputs")])),
    ];
    assert_eq!(get_accessor_list(&composite), get_accessor_list(&independent));
    assert_eq!(
        get_accessor_list(&composite),
        vec![pair("get", "name"), pair("iter", "inputs")]
    );
}

#[test]
fn unrecognized_annotation_shapes_are_skipped() {
    // Inner placement, bare words, literals and foreign list names all
    // contribute nothing; source order of the rest is kept.
    let attrs = vec![
        RawAttr { outer: false, meta: list("enum_access", vec![list("get", vec![word("name")])]) },
        outer(word("enum_access")),
        outer(MetaItem::Int(7)),
        outer(MetaItem::Other),
        outer(list("doc", vec![word("hidden")])),
        outer(list("enum_access", vec![word("stray"), list("get", vec![word("name")])])),
    ];
    assert_eq!(get_accessor_list(&attrs), vec![pair("get", "name")]);
    // The generic word listing keeps every outer named list, in order.
    let field_attrs = vec![
        alias(&["inputs", "value"]),
        RawAttr { outer: false, meta: list("enum_alias", vec![word("skipped")]) },
        outer(list("serde", vec![word("skip")])),
    ];
    assert_eq!(
        get_attribute_list(&field_attrs),
        vec![pair("enum_alias", "inputs"), pair("enum_alias", "value"), pair("serde", "skip")]
    );
}

#[test]
fn exact_demands_one_eligible_field_everywhere() {
    // The second variant has no field for the exact accessor: generation
    // fails naming that variant, with the count it found.
    let schema = simple_schema(
        vec![outer(list("enum_access", vec![list("get", vec![word("name")])]))],
        vec![
            named_variant("Good", vec![], vec![field("name", path("String"), vec![])]),
            named_variant("Bad", vec![], vec![field("other", path("String"), vec![])]),
        ],
    );
    match generate(&schema) {
        Err(SchemaError::Cardinality { variant, accessor, found }) => {
            assert_eq!(variant, "Bad".to_string());
            assert_eq!(accessor, "name".to_string());
            assert_eq!(found, 0);
        },
        r => panic!("expected a cardinality diagnostic, got {:?}", r),
    }
}

#[test]
fn exact_rejects_two_eligible_fields() {
    // A name match and an alias match in one variant make two eligible
    // fields: exact cardinality fails with a count of two.
    let schema = simple_schema(
        vec![outer(list("enum_access", vec![list("get", vec![word("name")])]))],
        vec![named_variant(
            "Both",
            vec![],
            vec![
                field("name", path("String"), vec![]),
                field("title", path("String"), vec![alias(&["name"])]),
            ],
        )],
    );
    match generate(&schema) {
        Err(SchemaError::Cardinality { variant, found, .. }) => {
            assert_eq!(variant, "Both".to_string());
            assert_eq!(found, 2);
        },
        r => panic!("expected a cardinality diagnostic, got {:?}", r),
    }
}

#[test]
fn optional_rejects_two_eligible_fields() {
    let schema = simple_schema(
        vec![outer(list("enum_access", vec![list("get_some", vec![word("value")])]))],
        vec![named_variant(
            "Ambiguous",
            vec![],
            vec![
                field("value", path("i32"), vec![]),
                field("lhs", path("i32"), vec![alias(&["value"])]),
            ],
        )],
    );
    match generate(&schema) {
        Err(SchemaError::Cardinality { variant, found, .. }) => {
            assert_eq!(variant, "Ambiguous".to_string());
            assert_eq!(found, 2);
        },
        r => panic!("expected a cardinality diagnostic, got {:?}", r),
    }
}

#[test]
fn eligible_types_must_unify() {
    // The same accessor name reaches a string in one variant and an
    // integer in the other: the conflict names both distinct types.
    let schema = simple_schema(
        vec![outer(list("enum_access", vec![list("get", vec![word("name")])]))],
        vec![
            named_variant("AsText", vec![], vec![field("name", path("String"), vec![])]),
            named_variant("AsNumber", vec![], vec![field("name", path("i32"), vec![])]),
        ],
    );
    match generate(&schema) {
        Err(SchemaError::TypeConflict { accessor, types }) => {
            assert_eq!(accessor, "name".to_string());
            assert_eq!(types, vec![path("String"), path("i32")]);
        },
        r => panic!("expected a type conflict, got {:?}", r),
    }
}

#[test]
fn accessor_without_any_eligible_field_is_a_conflict() {
    // No field anywhere satisfies the accessor: the type set is empty and
    // no type unifies, so the conflict is reported with an empty list.
    let schema = simple_schema(
        vec![outer(list("enum_access", vec![list("iter", vec![word("ghosts")])]))],
        vec![named_variant("Only", vec![], vec![field("name", path("String"), vec![])])],
    );
    match generate(&schema) {
        Err(SchemaError::TypeConflict { accessor, types }) => {
            assert_eq!(accessor, "ghosts".to_string());
            assert_eq!(types, Vec::<TypeExpr>::new());
        },
        r => panic!("expected a type conflict, got {:?}", r),
    }
}

#[test]
fn unknown_directive_kind_is_fatal() {
    let schema = simple_schema(
        vec![outer(list("enum_access", vec![list("fetch", vec![word("name")])]))],
        vec![named_variant("Only", vec![], vec![field("name", path("String"), vec![])])],
    );
    match generate(&schema) {
        Err(SchemaError::UnknownKind { kind }) => {
            assert_eq!(kind, "fetch".to_string());
        },
        r => panic!("expected an unknown-kind diagnostic, got {:?}", r),
    }
}

#[test]
fn type_checks_precede_cardinality_checks() {
    // One variant misses the field and the types conflict too: the type
    // conflict is reported, not the cardinality violation.
    let schema = simple_schema(
        vec![outer(list("enum_access", vec![list("get", vec![word("name")])]))],
        vec![
            named_variant("AsText", vec![], vec![field("name", path("String"), vec![])]),
            named_variant("AsNumber", vec![], vec![field("name", path("i32"), vec![])]),
            named_variant("Missing", vec![], vec![field("other", path("i32"), vec![])]),
        ],
    );
    match generate(&schema) {
        Err(SchemaError::TypeConflict { .. }) => {},
        r => panic!("expected a type conflict, got {:?}", r),
    }
}

#[test]
fn ignored_field_is_never_eligible() {
    // The ignored field matches the accessor by its own name and by an
    // alias; neither makes it eligible, and the alias on a live field
    // still works.
    let schema = simple_schema(
        vec![outer(list(
            "enum_access",
            vec![list("iter", vec![word("input")]), list("get_some", vec![word("spare")])],
        ))],
        vec![named_variant(
            "Only",
            vec![],
            vec![
                field("input", path("i32"), vec![alias(&["spare"]), outer(word("enum_ignore"))]),
                field("lhs", path("i32"), vec![alias(&["input"])]),
            ],
        )],
    );
    // The ignored field contributes nothing: only the alias on `lhs`
    // feeds the iterating accessor, and nothing feeds `spare`.
    match generate(&schema) {
        Err(SchemaError::TypeConflict { accessor, types }) => {
            assert_eq!(accessor, "spare".to_string());
            assert_eq!(types, Vec::<TypeExpr>::new());
        },
        r => panic!("expected a type conflict for the alias of the ignored field, got {:?}", r),
    }
    // Without the directive that only the ignored field could satisfy,
    // generation succeeds and iteration sees one value, the live alias.
    let schema = simple_schema(
        vec![outer(list("enum_access", vec![list("iter", vec![word("input")])]))],
        vec![named_variant(
            "Only",
            vec![],
            vec![
                field("input", path("i32"), vec![outer(word("enum_ignore"))]),
                field("lhs", path("i32"), vec![alias(&["input"])]),
            ],
        )],
    );
    let g = generate(&schema).unwrap();
    let v = EnumValue { variant: 0, fields: vec![Value::Int(7), Value::Int(8)] };
    assert_eq!(access_iterate(&schema, &g.accessors[0], &v), vec![&Value::Int(8)]);
}

#[test]
fn duplicate_directives_are_idempotent() {
    let schema = simple_schema(
        vec![outer(list(
            "enum_access",
            vec![list("get", vec![word("name")]), list("get", vec![word("name")])],
        ))],
        vec![named_variant("Only", vec![], vec![field("name", path("String"), vec![])])],
    );
    let g = generate(&schema).unwrap();
    assert_eq!(g.accessors.len(), 4);
    assert_eq!(g.accessors[0], g.accessors[2]);
    assert_eq!(g.accessors[1], g.accessors[3]);
}

#[test]
fn regeneration_is_deterministic() {
    let schema = simple_schema(
        vec![outer(list(
            "enum_access",
            vec![list("get", vec![word("name")]), list("get_some", vec![word("value")])],
        ))],
        vec![
            named_variant(
                "First",
                vec![outer(word("enum_inner_struct"))],
                vec![
                    field("name", path("String"), vec![]),
                    field("value", path("i32"), vec![]),
                ],
            ),
            named_variant("Second", vec![], vec![field("name", path("String"), vec![])]),
        ],
    );
    let first = generate(&schema).unwrap();
    let second = generate(&schema).unwrap();
    assert_eq!(first, second);
}

#[test]
fn optional_is_present_iff_one_field_is_eligible() {
    let schema = simple_schema(
        vec![outer(list("enum_access", vec![list("get_some", vec![word("index")])]))],
        vec![
            named_variant("With", vec![], vec![field("index", path("i32"), vec![])]),
            named_variant("Without", vec![], vec![field("other", path("i32"), vec![])]),
        ],
    );
    let g = generate(&schema).unwrap();
    let with = EnumValue { variant: 0, fields: vec![Value::Int(5)] };
    let without = EnumValue { variant: 1, fields: vec![Value::Int(5)] };
    assert_eq!(access_optional(&schema, &g.accessors[0], &with), Some(&Value::Int(5)));
    assert_eq!(access_optional(&schema, &g.accessors[0], &without), None);
}

#[test]
fn rendering_formats_integers_and_strings() {
    let schema = simple_schema(
        vec![],
        vec![named_variant(
            "Point",
            vec![outer(list(
                "enum_display",
                vec![MetaItem::Str("{} at {}".to_string()), word("label"), word("offset")],
            ))],
            vec![
                field("label", path("String"), vec![]),
                field("offset", path("i64"), vec![]),
            ],
        )],
    );
    let d = synthesize_display(&schema);
    let v = EnumValue {
        variant: 0,
        fields: vec![Value::Str("origin".to_string()), Value::Int(-205)],
    };
    assert_eq!(render_value(&schema, &d, &v), Some("origin at -205".to_string()));
    let v = EnumValue {
        variant: 0,
        fields: vec![Value::Str("origin".to_string()), Value::Int(0)],
    };
    assert_eq!(render_value(&schema, &d, &v), Some("origin at 0".to_string()));
}

#[test]
fn rendering_fails_on_dangling_references() {
    // A reference to a field that does not exist, or a placeholder
    // without an argument, yields no output at all.
    let schema = simple_schema(
        vec![],
        vec![
            named_variant(
                "BadName",
                vec![outer(list(
                    "enum_display",
                    vec![MetaItem::Str("{}".to_string()), word("missing")],
                ))],
                vec![field("label", path("String"), vec![])],
            ),
            named_variant(
                "BadArity",
                vec![outer(list("enum_display", vec![MetaItem::Str("{} {}".to_string()), word("label")]))],
                vec![field("label", path("String"), vec![])],
            ),
            named_variant(
                "BadIndex",
                vec![outer(list(
                    "enum_display",
                    vec![MetaItem::Str("{}".to_string()), MetaItem::Int(9)],
                ))],
                vec![field("label", path("String"), vec![])],
            ),
        ],
    );
    let d = synthesize_display(&schema);
    let v = EnumValue { variant: 0, fields: vec![Value::Str("x".to_string())] };
    assert_eq!(render_value(&schema, &d, &v), None);
    let v = EnumValue { variant: 1, fields: vec![Value::Str("x".to_string())] };
    assert_eq!(render_value(&schema, &d, &v), None);
    let v = EnumValue { variant: 2, fields: vec![Value::Str("x".to_string())] };
    assert_eq!(render_value(&schema, &d, &v), None);
}

#[test]
fn malformed_display_annotations_are_skipped() {
    // A display list whose first item is no string literal does not
    // qualify; a later well-shaped one is used instead.
    let schema = simple_schema(
        vec![],
        vec![named_variant(
            "Only",
            vec![
                outer(list("enum_display", vec![word("label")])),
                outer(list("enum_display", vec![MetaItem::Str("ok".to_string())])),
            ],
            vec![field("label", path("String"), vec![])],
        )],
    );
    let d = synthesize_display(&schema);
    let v = EnumValue { variant: 0, fields: vec![Value::Str("x".to_string())] };
    assert_eq!(render_value(&schema, &d, &v), Some("ok".to_string()));
}

#[test]
fn conversions_round_trip() {
    let v = EnumValue {
        variant: 2,
        fields: vec![Value::Int(4), Value::Str("label".to_string())],
    };
    let fields = downcast(v, 2);
    assert_eq!(fields, vec![Value::Int(4), Value::Str("label".to_string())]);
    let back = upcast(2, fields);
    assert_eq!(back.variant, 2);
    assert_eq!(back.fields, vec![Value::Int(4), Value::Str("label".to_string())]);
}

#[test]
fn schema_without_variants_cannot_unify_any_accessor() {
    // With no variant at all there is no eligible field anywhere, so no
    // type unifies and every directive fails with an empty conflict set.
    let schema = simple_schema(
        vec![outer(list("enum_access", vec![list("get", vec![word("name")])]))],
        vec![],
    );
    match generate(&schema) {
        Err(SchemaError::TypeConflict { accessor, types }) => {
            assert_eq!(accessor, "name".to_string());
            assert_eq!(types, Vec::<TypeExpr>::new());
        },
        r => panic!("expected a type conflict, got {:?}", r),
    }
    // A schema without directives generates an empty fragment.
    let bare = simple_schema(vec![], vec![]);
    let g = generate(&bare).unwrap();
    assert!(g.accessors.is_empty());
    assert!(g.inners.is_empty());
}

#[test]
fn resolution_reports_the_first_offending_variant() {
    let schema = simple_schema(
        vec![],
        vec![
            named_variant("Zeroth", vec![], vec![field("name", path("String"), vec![])]),
            named_variant("FirstBad", vec![], vec![field("other", path("String"), vec![])]),
            named_variant("SecondBad", vec![], vec![field("other", path("String"), vec![])]),
        ],
    );
    match resolve_directive(&schema, "get", "name") {
        Err(SchemaError::Cardinality { variant, .. }) => {
            assert_eq!(variant, "FirstBad".to_string());
        },
        r => panic!("expected a cardinality diagnostic, got {:?}", r),
    }
}
