use schema_synth::model::{
    ContainerRules, EnumRepresentation, Field, FieldRules, Variant, VariantRules, VariantShape,
};
use schema_synth::names::CaseRule;
use schema_synth::node::{Meta, SchemaKind, SchemaNode};
use schema_synth::enums::{synth_complex_variant, synth_enum};
use schema_synth::types::{PathSeg, TypeExpr, TypePath};

fn path_ty(name: &str) -> TypeExpr {
    TypeExpr::Path(TypePath {
        segments: vec![PathSeg { name: name.to_string(), args: vec![] }],
    })
}

fn leaf(name: &str) -> SchemaNode {
    SchemaNode { kind: SchemaKind::Leaf { name: name.to_string() }, meta: Meta::none() }
}

fn field(ident: &str, ty: &str) -> Field {
    Field {
        ident: ident.to_string(),
        rules: FieldRules { skip: false, flatten: false, rename: None, default: false },
        feature_rename: None,
        feature_default: false,
        required_override: None,
        schema: leaf(ty),
        is_optional: false,
        is_map_like: false,
        ty: path_ty(ty),
    }
}

fn variant(ident: &str, shape: VariantShape) -> Variant {
    Variant {
        ident: ident.to_string(),
        shape,
        rules: VariantRules { skip: false, rename: None },
        feature_rename: None,
        rename_all: None,
        title: None,
        example: None,
        description: None,
        discriminant: 0,
    }
}

fn rules(repr: EnumRepresentation) -> ContainerRules {
    ContainerRules { rename_all: None, deny_unknown_fields: false, default: false, repr }
}

#[test]
fn externally_tagged_named_variant_nests_its_object() {
    let v = variant("Circle", VariantShape::Named(vec![field("radius", "number")]));
    let r = rules(EnumRepresentation::External);
    let node = synth_complex_variant(&"Shape".to_string(), v, &r, None).unwrap();
    match &node.kind {
        SchemaKind::Object { properties, required, .. } => {
            assert_eq!(properties.len(), 1);
            assert_eq!(properties[0].name, "Circle");
            assert_eq!(*required, vec!["Circle"]);
            match &properties[0].schema.kind {
                SchemaKind::Object { properties: inner, required: inner_req, .. } => {
                    assert_eq!(inner.len(), 1);
                    assert_eq!(inner[0].name, "radius");
                    assert_eq!(inner[0].schema, leaf("number"));
                    assert_eq!(*inner_req, vec!["radius"]);
                },
                other => panic!("expected the payload object, got {:?}", other),
            }
        },
        other => panic!("expected a single-key object, got {:?}", other),
    }
}

#[test]
fn externally_tagged_wide_tuple_variant_nests_an_array() {
    let v = variant(
        "Pair",
        VariantShape::Positional(vec![field("0", "number"), field("1", "number")]),
    );
    let r = rules(EnumRepresentation::External);
    let node = synth_complex_variant(&"Geo".to_string(), v, &r, None).unwrap();
    match &node.kind {
        SchemaKind::Object { properties, .. } => {
            match &properties[0].schema.kind {
                SchemaKind::Array { item, min_items, max_items } => {
                    assert_eq!(**item, leaf("number"));
                    assert_eq!(*min_items, Some(2));
                    assert_eq!(*max_items, Some(2));
                },
                other => panic!("expected an array payload, got {:?}", other),
            }
        },
        other => panic!("expected a single-key object, got {:?}", other),
    }
}

#[test]
fn adjacently_tagged_named_variant_keeps_tag_and_content() {
    let v = variant("Circle", VariantShape::Named(vec![field("radius", "number")]));
    let r = rules(EnumRepresentation::Adjacent { tag: "t".to_string(), content: "c".to_string() });
    let node = synth_complex_variant(&"Shape".to_string(), v, &r, None).unwrap();
    match &node.kind {
        SchemaKind::Object { properties, required, .. } => {
            let names: Vec<&str> = properties.iter().map(|p| p.name.as_str()).collect();
            assert_eq!(names, vec!["t", "c"]);
            assert_eq!(*required, vec!["t", "c"]);
            match &properties[1].schema.kind {
                SchemaKind::Object { properties: inner, .. } => {
                    assert_eq!(inner[0].name, "radius");
                },
                other => panic!("expected the payload object, got {:?}", other),
            }
        },
        other => panic!("expected an adjacent object, got {:?}", other),
    }
}

#[test]
fn adjacently_tagged_unit_variant_omits_the_content() {
    let v = variant("Ping", VariantShape::Unit);
    let r = rules(EnumRepresentation::Adjacent { tag: "t".to_string(), content: "c".to_string() });
    let node = synth_complex_variant(&"Msg".to_string(), v, &r, None).unwrap();
    match &node.kind {
        SchemaKind::Object { properties, required, .. } => {
            assert_eq!(properties.len(), 1);
            assert_eq!(properties[0].name, "t");
            assert_eq!(*required, vec!["t"]);
        },
        other => panic!("expected a tag-only object, got {:?}", other),
    }
}

#[test]
fn untagged_named_variant_is_its_object() {
    let v = variant("Circle", VariantShape::Named(vec![field("radius", "number")]));
    let r = rules(EnumRepresentation::Untagged);
    let node = synth_complex_variant(&"Shape".to_string(), v, &r, None).unwrap();
    match &node.kind {
        SchemaKind::Object { properties, .. } => {
            assert_eq!(properties[0].name, "radius");
        },
        other => panic!("expected the bare payload object, got {:?}", other),
    }
}

#[test]
fn untagged_unit_variant_is_the_empty_schema() {
    let v = variant("Nothing", VariantShape::Unit);
    let r = rules(EnumRepresentation::Untagged);
    let node = synth_complex_variant(&"Maybe".to_string(), v, &r, None).unwrap();
    assert_eq!(node.kind, SchemaKind::Empty);
}

#[test]
fn variant_annotations_reach_its_node() {
    let mut v = variant("Active", VariantShape::Unit);
    v.title = Some("The active state".to_string());
    v.description = Some("Currently running.".to_string());
    let r = rules(EnumRepresentation::External);
    let node = synth_complex_variant(&"Status".to_string(), v, &r, None).unwrap();
    assert_eq!(node.meta.title, Some("The active state".to_string()));
    assert_eq!(node.meta.description, Some("Currently running.".to_string()));
}

#[test]
fn variant_rename_all_reaches_its_own_fields() {
    let mut v = variant("Data", VariantShape::Named(vec![field("max_speed", "number")]));
    v.rename_all = Some(CaseRule::Camel);
    let r = rules(EnumRepresentation::Untagged);
    let node = synth_complex_variant(&"Payload".to_string(), v, &r, None).unwrap();
    match &node.kind {
        SchemaKind::Object { properties, .. } => {
            assert_eq!(properties[0].name, "maxSpeed");
        },
        other => panic!("expected the payload object, got {:?}", other),
    }
}

#[test]
fn variant_feature_rename_applies_when_no_rule_renames() {
    let mut v = variant("Alpha", VariantShape::Unit);
    v.feature_rename = Some("first".to_string());
    let r = rules(EnumRepresentation::External);
    let node = synth_complex_variant(&"Greek".to_string(), v, &r, None).unwrap();
    match &node.kind {
        SchemaKind::Object { properties, .. } => {
            assert_eq!(properties[0].name, "first");
        },
        other => panic!("expected a single-key object, got {:?}", other),
    }
}

#[test]
fn untagged_mixed_enum_has_no_discriminator() {
    let variants = vec![
        variant("Nothing", VariantShape::Unit),
        variant("Value", VariantShape::Positional(vec![field("0", "string")])),
    ];
    let r = rules(EnumRepresentation::Untagged);
    let node = synth_enum(&"Maybe".to_string(), variants, &r, None, &None).unwrap();
    match &node.kind {
        SchemaKind::OneOf { items, discriminator } => {
            assert_eq!(items.len(), 2);
            assert_eq!(*discriminator, None);
            assert_eq!(items[0].kind, SchemaKind::Empty);
            assert_eq!(items[1], leaf("string"));
        },
        other => panic!("expected a union, got {:?}", other),
    }
}

#[test]
fn empty_enum_is_an_empty_string_enumeration() {
    let node = synth_enum(
        &"Never".to_string(),
        vec![],
        &rules(EnumRepresentation::External),
        None,
        &None,
    )
    .unwrap();
    match &node.kind {
        SchemaKind::StringValues { values } => assert!(values.is_empty()),
        other => panic!("expected a string enumeration, got {:?}", other),
    }
}
