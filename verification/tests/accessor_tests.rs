use enum_access::annot::{get_accessor_list, MetaItem, RawAttr};
use enum_access::display::{synthesize_display, render_value, ArgRef};
use enum_access::inner::extract_inners;
use enum_access::schema::{Field, Schema, Variant};
use enum_access::synth::{access_exact, access_exact_mut, access_iterate, access_optional,
    store_iterate_at, store_optional};
use enum_access::ty::{GenericParam, TypeExpr};
use enum_access::value::{EnumValue, Value};
use enum_access::generate;

fn word(s: &str) -> MetaItem {
    MetaItem::Word(s.to_string())
}

fn list(name: &str, items: Vec<MetaItem>) -> MetaItem {
    MetaItem::List(name.to_string(), items)
}

fn outer(meta: MetaItem) -> RawAttr {
    RawAttr { outer: true, meta }
}

fn path(s: &str) -> TypeExpr {
    TypeExpr::Path(s.to_string())
}

fn reference(lifetime: &str, elem: TypeExpr) -> TypeExpr {
    TypeExpr::Reference(Some(lifetime.to_string()), false, Box::new(elem))
}

fn alias(names: &[&str]) -> RawAttr {
    outer(list("enum_alias", names.iter().map(|n| word(n)).collect()))
}

fn field(name: &str, ty: TypeExpr, attrs: Vec<RawAttr>) -> Field {
    Field { name: name.to_string(), ty, attrs }
}

fn named_variant(name: &str, attrs: Vec<RawAttr>, fields: Vec<Field>) -> Variant {
    Variant { name: name.to_string(), named: true, attrs, fields }
}

fn positional_variant(name: &str, attrs: Vec<RawAttr>, fields: Vec<Field>) -> Variant {
    Variant { name: name.to_string(), named: false, attrs, fields }
}

fn pair(k: &str, n: &str) -> (String, String) {
    (k.to_string(), n.to_string())
}

/// The schema of the accessor example: a sum type with one directive list
/// and four variants mixing names, aliases, an ignored field and a
/// positional shape.
fn example_schema() -> Schema {
    Schema {
        name: "A".to_string(),
        generics: vec![GenericParam::TypeParam("T".to_string())],
        attrs: vec![outer(list(
            "enum_access",
            vec![
                list("get", vec![word("name")]),
                list("get_some", vec![word("index"), word("value")]),
                list("iter", vec![word("inputs")]),
            ],
        ))],
        variants: vec![
            named_variant(
                "Variant1",
                vec![outer(list(
                    "enum_display",
                    vec![
                        MetaItem::Str("Variant1 name:{}, input:{}".to_string()),
                        word("input"),
                        word("gen"),
                    ],
                ))],
                vec![
                    field("name", path("String"), vec![]),
                    field("input", path("i32"), vec![alias(&["inputs"])]),
                    field("gen", path("T"), vec![]),
                ],
            ),
            named_variant(
                "Variant2",
                vec![],
                vec![
                    field("index", path("u32"), vec![]),
                    field("name", path("String"), vec![]),
                    field("value", path("i32"), vec![]),
                ],
            ),
            named_variant(
                "Variant3",
                vec![],
                vec![
                    field("name", path("String"), vec![]),
                    field("lhs", path("i32"), vec![alias(&["inputs", "value"])]),
                    field("rhs", path("i32"), vec![alias(&["inputs"])]),
                    field("input", path("i32"), vec![outer(word("enum_ignore"))]),
                ],
            ),
            positional_variant(
                "Variant4",
                vec![outer(list(
                    "enum_display",
                    vec![
                        MetaItem::Str("Variant4 index:{}, name:{}".to_string()),
                        MetaItem::Int(0),
                        MetaItem::Int(3),
                    ],
                ))],
                vec![
                    field("binding0", path("u32"), vec![alias(&["index"])]),
                    field("binding1", path("i32"), vec![alias(&["inputs"])]),
                    field("binding2", path("i32"), vec![alias(&["inputs"])]),
                    field("binding3", path("String"), vec![alias(&["name"])]),
                ],
            ),
        ],
    }
}

#[test]
fn unittest_enum_access() {
    // The composite directive annotation normalizes to a flat pair list.
    let attrs = vec![outer(list(
        "enum_access",
        vec![
            list("get", vec![word("name"), word("address")]),
            list("get_some", vec![word("index")]),
            list("iter", vec![word("input")]),
        ],
    ))];
    assert_eq!(
        get_accessor_list(&attrs),
        vec![
            pair("get", "name"),
            pair("get", "address"),
            pair("get_some", "index"),
            pair("iter", "input"),
        ]
    );

    // The display dispatch of a sum type with two templates: one by
    // positions, one by names, and one variant without a template.
    let display_schema = Schema {
        name: "A".to_string(),
        generics: vec![GenericParam::TypeParam("T".to_string())],
        attrs: vec![],
        variants: vec![
            positional_variant(
                "B",
                vec![outer(list(
                    "enum_display",
                    vec![
                        MetaItem::Str("B: {}, {}".to_string()),
                        MetaItem::Int(0),
                        MetaItem::Int(1),
                    ],
                ))],
                vec![field("binding0", path("i32"), vec![]), field("binding1", path("T"), vec![])],
            ),
            positional_variant("C", vec![], vec![field("binding0", path("i32"), vec![])]),
            named_variant(
                "D",
                vec![outer(list(
                    "enum_display",
                    vec![MetaItem::Str("D: {}, {}".to_string()), word("value"), word("key")],
                ))],
                vec![field("key", path("i32"), vec![]), field("value", path("i32"), vec![])],
            ),
        ],
    };
    let d = synthesize_display(&display_schema);
    assert_eq!(d.arms.len(), 3);
    let b_arm = d.arms[0].as_ref().unwrap();
    assert_eq!(b_arm.format, "B: {}, {}".to_string());
    assert_eq!(b_arm.args, vec![ArgRef::Positional(0), ArgRef::Positional(1)]);
    assert!(d.arms[1].is_none());
    let d_arm = d.arms[2].as_ref().unwrap();
    assert_eq!(d_arm.format, "D: {}, {}".to_string());
    assert_eq!(
        d_arm.args,
        vec![ArgRef::Named("value".to_string()), ArgRef::Named("key".to_string())]
    );

    // The extracted products of three flagged variants: each carries only
    // the generic parameters its field types reference, with every
    // annotation cleared.
    let extract_marker = || outer(word("enum_inner_struct"));
    let inner_schema = Schema {
        name: "Enum".to_string(),
        generics: vec![
            GenericParam::LifetimeParam("a".to_string()),
            GenericParam::TypeParam("T".to_string()),
        ],
        attrs: vec![],
        variants: vec![
            positional_variant(
                "Variant1",
                vec![extract_marker()],
                vec![field("binding0", path("i32"), vec![]), field("binding1", path("T"), vec![])],
            ),
            named_variant(
                "Variant2",
                vec![extract_marker()],
                vec![
                    field("key", reference("a", path("i32")), vec![]),
                    field("value", path("i32"), vec![]),
                ],
            ),
            positional_variant(
                "Variant3",
                vec![extract_marker()],
                vec![field("binding0", reference("a", path("T")), vec![])],
            ),
        ],
    };
    let inners = extract_inners(&inner_schema);
    assert_eq!(inners.len(), 3);

    assert_eq!(inners[0].name, "EnumVariant1Inner".to_string());
    assert!(!inners[0].named);
    assert_eq!(inners[0].generics, vec![GenericParam::TypeParam("T".to_string())]);
    assert_eq!(inners[0].fields.len(), 2);
    assert!(inners[0].fields.iter().all(|f| f.attrs.is_empty()));

    assert_eq!(inners[1].name, "EnumVariant2Inner".to_string());
    assert!(inners[1].named);
    assert_eq!(inners[1].generics, vec![GenericParam::LifetimeParam("a".to_string())]);
    assert_eq!(inners[1].fields[0].name, "key".to_string());
    assert_eq!(inners[1].fields[1].name, "value".to_string());

    assert_eq!(inners[2].name, "EnumVariant3Inner".to_string());
    assert_eq!(
        inners[2].generics,
        vec![
            GenericParam::LifetimeParam("a".to_string()),
            GenericParam::TypeParam("T".to_string()),
        ]
    );
}

#[test]
fn it_works() {
    let schema = example_schema();
    let g = generate(&schema).unwrap();
    // Four directives, each a read-only accessor followed by its dual.
    assert_eq!(g.accessors.len(), 8);
    let name_get = &g.accessors[0];
    let name_mut = &g.accessors[1];
    let index_get = &g.accessors[2];
    let index_mut = &g.accessors[3];
    let value_get = &g.accessors[4];
    let inputs_get = &g.accessors[6];
    let inputs_mut = &g.accessors[7];
    assert_eq!(name_get.name, "name".to_string());
    assert_eq!(name_mut.name, "name_mut".to_string());
    let d = synthesize_display(&schema);

    let mut v = EnumValue {
        variant: 0,
        fields: vec![Value::Str("var1".to_string()), Value::Int(9), Value::Int(0)],
    };
    assert_eq!(access_exact(&schema, name_get, &v), &Value::Str("var1".to_string()));
    assert_eq!(access_optional(&schema, index_get, &v), None);
    assert_eq!(access_optional(&schema, value_get, &v), None);
    assert_eq!(access_iterate(&schema, inputs_get, &v), vec![&Value::Int(9)]);

    assert_eq!(render_value(&schema, &d, &v), Some("Variant1 name:9, input:0".to_string()));

    *access_exact_mut(&schema, name_mut, &mut v) = Value::Str("var1'".to_string());
    assert_eq!(access_exact(&schema, name_get, &v), &Value::Str("var1'".to_string()));

    let mut v = EnumValue {
        variant: 1,
        fields: vec![Value::Int(0), Value::Str("var2".to_string()), Value::Int(23)],
    };
    assert_eq!(access_exact(&schema, name_get, &v), &Value::Str("var2".to_string()));
    assert_eq!(access_optional(&schema, index_get, &v), Some(&Value::Int(0)));
    assert_eq!(access_optional(&schema, value_get, &v), Some(&Value::Int(23)));
    assert_eq!(access_iterate(&schema, inputs_get, &v), Vec::<&Value>::new());

    assert_eq!(render_value(&schema, &d, &v), Some("".to_string()));

    assert!(store_optional(&schema, index_mut, &mut v, Value::Int(100)));
    assert_eq!(access_optional(&schema, index_get, &v), Some(&Value::Int(100)));

    let mut v = EnumValue {
        variant: 2,
        fields: vec![
            Value::Str("var3".to_string()),
            Value::Int(1),
            Value::Int(2),
            Value::Int(3),
        ],
    };
    assert_eq!(access_exact(&schema, name_get, &v), &Value::Str("var3".to_string()));
    assert_eq!(access_optional(&schema, index_get, &v), None);
    assert_eq!(access_optional(&schema, value_get, &v), Some(&Value::Int(1)));
    assert_eq!(access_iterate(&schema, inputs_get, &v), vec![&Value::Int(1), &Value::Int(2)]);

    let count = access_iterate(&schema, inputs_get, &v).len();
    for k in 0..count {
        let n = match access_iterate(&schema, inputs_get, &v)[k] {
            Value::Int(n) => *n,
            Value::Str(_) => panic!("expected an integer"),
        };
        store_iterate_at(&schema, inputs_mut, &mut v, k, Value::Int(n + 10));
    }
    assert_eq!(access_iterate(&schema, inputs_get, &v), vec![&Value::Int(11), &Value::Int(12)]);

    let v = EnumValue {
        variant: 3,
        fields: vec![
            Value::Int(10),
            Value::Int(11),
            Value::Int(12),
            Value::Str("var4".to_string()),
        ],
    };
    assert_eq!(access_exact(&schema, name_get, &v), &Value::Str("var4".to_string()));
    assert_eq!(access_optional(&schema, index_get, &v), Some(&Value::Int(10)));
    assert_eq!(access_optional(&schema, value_get, &v), None);
    assert_eq!(access_iterate(&schema, inputs_get, &v), vec![&Value::Int(11), &Value::Int(12)]);

    assert_eq!(render_value(&schema, &d, &v), Some("Variant4 index:10, name:var4".to_string()));
}
