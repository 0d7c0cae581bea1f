use schema_synth::model::{
    ContainerRules, EnumRepresentation, Field, FieldRules, SynthError, Variant, VariantRules,
    VariantShape,
};
use schema_synth::names::CaseRule;
use schema_synth::node::{Meta, SchemaKind, SchemaNode};
use schema_synth::enums::{rename_enum_variant, synth_complex_variant, synth_enum};
use schema_synth::types::{PathSeg, TypeExpr, TypePath};

fn path_ty(name: &str) -> TypeExpr {
    TypeExpr::Path(TypePath {
        segments: vec![PathSeg { name: name.to_string(), args: vec![] }],
    })
}

fn leaf(name: &str) -> SchemaNode {
    SchemaNode { kind: SchemaKind::Leaf { name: name.to_string() }, meta: Meta::none() }
}

fn field(ident: &str, ty: &str) -> Field {
    Field {
        ident: ident.to_string(),
        rules: FieldRules { skip: false, flatten: false, rename: None, default: false },
        feature_rename: None,
        feature_default: false,
        required_override: None,
        schema: leaf(ty),
        is_optional: false,
        is_map_like: false,
        ty: path_ty(ty),
    }
}

fn variant(ident: &str, shape: VariantShape) -> Variant {
    Variant {
        ident: ident.to_string(),
        shape,
        rules: VariantRules { skip: false, rename: None },
        feature_rename: None,
        rename_all: None,
        title: None,
        example: None,
        description: None,
        discriminant: 0,
    }
}

fn rules(repr: EnumRepresentation) -> ContainerRules {
    ContainerRules { rename_all: None, deny_unknown_fields: false, default: false, repr }
}

fn string_values(node: &SchemaNode) -> Vec<String> {
    match &node.kind {
        SchemaKind::StringValues { values } => values.clone(),
        other => panic!("expected a string enumeration, got {:?}", other),
    }
}

#[test]
fn simple_enum_is_a_string_enumeration() {
    let variants = vec![
        variant("Active", VariantShape::Unit),
        variant("OnHold", VariantShape::Unit),
    ];
    let mut r = rules(EnumRepresentation::External);
    r.rename_all = Some(CaseRule::Snake);
    let node = synth_enum(&"Status".to_string(), variants, &r, None, &None).unwrap();
    assert_eq!(string_values(&node), vec!["active", "on_hold"]);
}

#[test]
fn simple_enum_skips_skipped_variants() {
    let mut hidden = variant("Hidden", VariantShape::Unit);
    hidden.rules.skip = true;
    let variants = vec![variant("Shown", VariantShape::Unit), hidden];
    let node = synth_enum(
        &"Visibility".to_string(),
        variants,
        &rules(EnumRepresentation::External),
        None,
        &None,
    )
    .unwrap();
    assert_eq!(string_values(&node), vec!["Shown"]);
}

#[test]
fn simple_enum_untagged_is_empty() {
    let variants = vec![variant("A", VariantShape::Unit)];
    let node = synth_enum(
        &"Bare".to_string(),
        variants,
        &rules(EnumRepresentation::Untagged),
        None,
        &None,
    )
    .unwrap();
    assert_eq!(node.kind, SchemaKind::Empty);
}

#[test]
fn simple_enum_internally_tagged_makes_tag_objects() {
    let variants = vec![
        variant("On", VariantShape::Unit),
        variant("Off", VariantShape::Unit),
    ];
    let r = rules(EnumRepresentation::Internal { tag: "state".to_string() });
    let node = synth_enum(&"Switch".to_string(), variants, &r, None, &None).unwrap();
    match &node.kind {
        SchemaKind::OneOf { items, discriminator } => {
            assert_eq!(*discriminator, Some("state".to_string()));
            assert_eq!(items.len(), 2);
            match &items[0].kind {
                SchemaKind::Object { properties, required, .. } => {
                    assert_eq!(properties.len(), 1);
                    assert_eq!(properties[0].name, "state");
                    assert_eq!(string_values(&properties[0].schema), vec!["On"]);
                    assert_eq!(*required, vec!["state"]);
                },
                other => panic!("expected a tag object, got {:?}", other),
            }
        },
        other => panic!("expected a union, got {:?}", other),
    }
}

#[test]
fn discriminant_enum_lists_numbers() {
    let mut first = variant("First", VariantShape::Unit);
    first.discriminant = 1;
    let mut fifth = variant("Fifth", VariantShape::Unit);
    fifth.discriminant = 5;
    let mut hidden = variant("Hidden", VariantShape::Unit);
    hidden.discriminant = 9;
    hidden.rules.skip = true;
    let variants = vec![first, fifth, hidden];
    let node = synth_enum(
        &"Rank".to_string(),
        variants,
        &rules(EnumRepresentation::External),
        None,
        &Some("u8".to_string()),
    )
    .unwrap();
    match &node.kind {
        SchemaKind::IntValues { numbers, base } => {
            assert_eq!(*numbers, vec![1, 5]);
            assert_eq!(base, "u8");
        },
        other => panic!("expected a numeric enumeration, got {:?}", other),
    }
}

#[test]
fn externally_tagged_unit_variant_is_a_single_key_object() {
    let v = variant("Active", VariantShape::Unit);
    let r = rules(EnumRepresentation::External);
    let node = synth_complex_variant(&"Status".to_string(), v, &r, None).unwrap();
    match &node.kind {
        SchemaKind::Object { properties, required, .. } => {
            assert_eq!(properties.len(), 1);
            assert_eq!(properties[0].name, "Active");
            assert_eq!(properties[0].schema.kind, SchemaKind::Empty);
            assert_eq!(*required, vec!["Active"]);
        },
        other => panic!("expected a single-key object, got {:?}", other),
    }
}

#[test]
fn internally_tagged_named_variant_merges_the_tag() {
    let v = variant("Circle", VariantShape::Named(vec![field("radius", "number")]));
    let r = rules(EnumRepresentation::Internal { tag: "type".to_string() });
    let node = synth_complex_variant(&"Shape".to_string(), v, &r, None).unwrap();
    match &node.kind {
        SchemaKind::Object { properties, required, .. } => {
            let names: Vec<&str> = properties.iter().map(|p| p.name.as_str()).collect();
            assert_eq!(names, vec!["radius", "type"]);
            assert_eq!(properties[0].schema, leaf("number"));
            assert_eq!(string_values(&properties[1].schema), vec!["Circle"]);
            assert_eq!(*required, vec!["radius", "type"]);
        },
        other => panic!("expected a merged object, got {:?}", other),
    }
}

#[test]
fn internally_tagged_reference_payload_is_conjoined() {
    let mut f = field("0", "Inner");
    f.schema = SchemaNode {
        kind: SchemaKind::Reference { target: "Inner".to_string() },
        meta: Meta::none(),
    };
    let v = variant("Wrap", VariantShape::Positional(vec![f]));
    let r = rules(EnumRepresentation::Internal { tag: "type".to_string() });
    let node = synth_complex_variant(&"Holder".to_string(), v, &r, None).unwrap();
    match &node.kind {
        SchemaKind::AllOf { items } => {
            assert_eq!(items.len(), 2);
            assert_eq!(
                items[0].kind,
                SchemaKind::Reference { target: "Inner".to_string() }
            );
            match &items[1].kind {
                SchemaKind::Object { properties, required, .. } => {
                    assert_eq!(properties[0].name, "type");
                    assert_eq!(string_values(&properties[0].schema), vec!["Wrap"]);
                    assert_eq!(*required, vec!["type"]);
                },
                other => panic!("expected a tag object, got {:?}", other),
            }
        },
        other => panic!("expected a conjunction, got {:?}", other),
    }
}

#[test]
fn adjacently_tagged_single_field_variant() {
    let v = variant("Wrapper", VariantShape::Positional(vec![field("0", "string")]));
    let r = rules(EnumRepresentation::Adjacent { tag: "t".to_string(), content: "c".to_string() });
    let node = synth_complex_variant(&"Packet".to_string(), v, &r, None).unwrap();
    match &node.kind {
        SchemaKind::Object { properties, required, .. } => {
            let names: Vec<&str> = properties.iter().map(|p| p.name.as_str()).collect();
            assert_eq!(names, vec!["t", "c"]);
            assert_eq!(string_values(&properties[0].schema), vec!["Wrapper"]);
            assert_eq!(properties[1].schema, leaf("string"));
            assert_eq!(*required, vec!["t", "c"]);
        },
        other => panic!("expected an adjacent object, got {:?}", other),
    }
}

#[test]
fn untagged_single_field_variant_is_its_inner_schema() {
    let v = variant("Wrapper", VariantShape::Positional(vec![field("0", "string")]));
    let r = rules(EnumRepresentation::Untagged);
    let node = synth_complex_variant(&"Loose".to_string(), v, &r, None).unwrap();
    assert_eq!(node, leaf("string"));
}

#[test]
fn internally_tagged_tuple_variant_is_refused() {
    let v = variant(
        "Pair",
        VariantShape::Positional(vec![field("0", "number"), field("1", "number")]),
    );
    let r = rules(EnumRepresentation::Internal { tag: "type".to_string() });
    let err = synth_complex_variant(&"Geo".to_string(), v, &r, None).unwrap_err();
    assert_eq!(
        err,
        SynthError::UnsupportedTaggedTuple {
            container: "Geo".to_string(),
            variant: "Pair".to_string(),
        }
    );
}

#[test]
fn adjacently_tagged_tuple_variant_is_refused() {
    let v = variant(
        "Pair",
        VariantShape::Positional(vec![field("0", "number"), field("1", "number")]),
    );
    let r = rules(EnumRepresentation::Adjacent { tag: "t".to_string(), content: "c".to_string() });
    let err = synth_complex_variant(&"Geo".to_string(), v, &r, None).unwrap_err();
    assert_eq!(
        err,
        SynthError::UnsupportedTaggedTuple {
            container: "Geo".to_string(),
            variant: "Pair".to_string(),
        }
    );
}

#[test]
fn mixed_enum_is_a_union_with_discriminator() {
    let variants = vec![
        variant("None", VariantShape::Unit),
        variant("Circle", VariantShape::Named(vec![field("radius", "number")])),
    ];
    let r = rules(EnumRepresentation::Internal { tag: "kind".to_string() });
    let node = synth_enum(&"Shape".to_string(), variants, &r, None, &None).unwrap();
    match &node.kind {
        SchemaKind::OneOf { items, discriminator } => {
            assert_eq!(items.len(), 2);
            assert_eq!(*discriminator, Some("kind".to_string()));
        },
        other => panic!("expected a union, got {:?}", other),
    }
}

#[test]
fn mixed_enum_error_in_a_variant_fails_the_enum() {
    let variants = vec![
        variant("Fine", VariantShape::Unit),
        variant(
            "Pair",
            VariantShape::Positional(vec![field("0", "number"), field("1", "number")]),
        ),
    ];
    let r = rules(EnumRepresentation::Internal { tag: "kind".to_string() });
    let err = synth_enum(&"Bad".to_string(), variants, &r, None, &None).unwrap_err();
    assert_eq!(
        err,
        SynthError::UnsupportedTaggedTuple {
            container: "Bad".to_string(),
            variant: "Pair".to_string(),
        }
    );
}

#[test]
fn rename_enum_variant_precedence() {
    let vr = VariantRules { skip: false, rename: Some("wire".to_string()) };
    let cr = rules(EnumRepresentation::External);
    let renamed = rename_enum_variant("MyVariant", &None, &vr, &cr, Some(CaseRule::Snake));
    assert_eq!(renamed, Some("wire".to_string()));
    let vr_plain = VariantRules { skip: false, rename: None };
    let renamed = rename_enum_variant("MyVariant", &None, &vr_plain, &cr, Some(CaseRule::Snake));
    assert_eq!(renamed, Some("my_variant".to_string()));
    let renamed = rename_enum_variant("MyVariant", &None, &vr_plain, &cr, None);
    assert_eq!(renamed, None);
}
