use schema_synth::model::{ContainerRules, EnumRepresentation, Field, FieldRules, SynthError};
use schema_synth::names::CaseRule;
use schema_synth::node::{AdditionalProps, Meta, Property, SchemaKind, SchemaNode};
use schema_synth::structs::{synth_named_struct, synth_positional_struct, synth_unit_struct};
use schema_synth::types::{PathSeg, TypeExpr, TypePath};

fn path_ty(name: &str) -> TypeExpr {
    TypeExpr::Path(TypePath {
        segments: vec![PathSeg { name: name.to_string(), args: vec![] }],
    })
}

fn leaf(name: &str) -> SchemaNode {
    SchemaNode { kind: SchemaKind::Leaf { name: name.to_string() }, meta: Meta::none() }
}

fn plain_rules() -> FieldRules {
    FieldRules { skip: false, flatten: false, rename: None, default: false }
}

fn field(ident: &str, ty: &str) -> Field {
    Field {
        ident: ident.to_string(),
        rules: plain_rules(),
        feature_rename: None,
        feature_default: false,
        required_override: None,
        schema: leaf(ty),
        is_optional: false,
        is_map_like: false,
        ty: path_ty(ty),
    }
}

fn container() -> ContainerRules {
    ContainerRules {
        rename_all: None,
        deny_unknown_fields: false,
        default: false,
        repr: EnumRepresentation::External,
    }
}

fn object_parts(node: &SchemaNode) -> (Vec<String>, Vec<String>, &AdditionalProps) {
    match &node.kind {
        SchemaKind::Object { properties, required, additional } => (
            properties.iter().map(|p| p.name.clone()).collect(),
            required.clone(),
            additional,
        ),
        other => panic!("expected an object, got {:?}", other),
    }
}

#[test]
fn named_struct_properties_and_required() {
    let mut f_note = field("note", "string");
    f_note.is_optional = true;
    let mut f_secret = field("secret", "string");
    f_secret.rules.skip = true;
    let mut f_speed = field("max_speed", "number");
    f_speed.rules.default = true;
    let mut f_legacy = field("legacy", "string");
    f_legacy.is_optional = true;
    f_legacy.required_override = Some(true);
    let mut f_loose = field("loose", "string");
    f_loose.required_override = Some(false);
    let fields = vec![field("id", "integer"), f_note, f_secret, f_speed, f_legacy, f_loose];
    let mut rules = container();
    rules.rename_all = Some(CaseRule::Camel);
    let node = synth_named_struct(&"Car".to_string(), fields, &rules, None).unwrap();
    let (names, required, additional) = object_parts(&node);
    // Skipped fields vanish; the rest keep declaration order under camel names.
    assert_eq!(names, vec!["id", "note", "maxSpeed", "legacy", "loose"]);
    // Required: neither optional nor defaulted, or overridden to true; an
    // override of false does not un-require a plain field.
    assert_eq!(required, vec!["id", "legacy", "loose"]);
    assert_eq!(*additional, AdditionalProps::Unset);
}

#[test]
fn property_keeps_field_schema_and_explicit_rename_wins() {
    let mut f = field("r#type", "string");
    f.rules.rename = Some("kind".to_string());
    let fields = vec![f];
    let rules = container();
    let node = synth_named_struct(&"Tag".to_string(), fields, &rules, Some(CaseRule::Upper))
        .unwrap();
    match &node.kind {
        SchemaKind::Object { properties, .. } => {
            assert_eq!(properties.len(), 1);
            assert_eq!(properties[0].name, "kind");
            assert_eq!(properties[0].schema, leaf("string"));
        },
        other => panic!("expected an object, got {:?}", other),
    }
}

#[test]
fn container_default_clears_required() {
    let fields = vec![field("id", "integer")];
    let mut rules = container();
    rules.default = true;
    let node = synth_named_struct(&"Lax".to_string(), fields, &rules, None).unwrap();
    let (_, required, _) = object_parts(&node);
    assert!(required.is_empty());
}

#[test]
fn field_feature_default_clears_required() {
    let mut f = field("count", "integer");
    f.feature_default = true;
    let fields = vec![f];
    let rules = container();
    let node = synth_named_struct(&"Counted".to_string(), fields, &rules, None).unwrap();
    let (_, required, _) = object_parts(&node);
    assert!(required.is_empty());
}

#[test]
fn field_feature_rename_applies_when_no_rule_renames() {
    let mut f = field("inner_value", "string");
    f.feature_rename = Some("value".to_string());
    let fields = vec![f];
    let rules = container();
    let node = synth_named_struct(&"Wrapper".to_string(), fields, &rules, None).unwrap();
    let (names, _, _) = object_parts(&node);
    assert_eq!(names, vec!["value"]);
}

#[test]
fn deny_unknown_fields_forbids_extras() {
    let fields = vec![field("id", "integer")];
    let mut rules = container();
    rules.deny_unknown_fields = true;
    let node = synth_named_struct(&"Strict".to_string(), fields, &rules, None).unwrap();
    let (_, _, additional) = object_parts(&node);
    assert_eq!(*additional, AdditionalProps::Forbidden);
}

#[test]
fn flatten_composition() {
    // One plain flattened object and one flattened free-form map: the
    // result is a conjunction of the flattened schema and the object,
    // whose unknown properties the map constrains.
    let mut f_base = field("base", "base_obj");
    f_base.rules.flatten = true;
    let mut f_extra = field("extra", "map");
    f_extra.rules.flatten = true;
    f_extra.is_map_like = true;
    let fields = vec![f_base, f_extra, field("name", "string")];
    let rules = container();
    let node = synth_named_struct(&"Mixed".to_string(), fields, &rules, None).unwrap();
    match &node.kind {
        SchemaKind::AllOf { items } => {
            assert_eq!(items.len(), 2);
            assert_eq!(items[0], leaf("base_obj"));
            let (names, required, additional) = object_parts(&items[1]);
            assert_eq!(names, vec!["name"]);
            assert_eq!(required, vec!["name"]);
            assert_eq!(*additional, AdditionalProps::Constrained(Box::new(leaf("map"))));
        },
        other => panic!("expected a conjunction, got {:?}", other),
    }
}

#[test]
fn flattened_map_alone_constrains_object() {
    let mut f_extra = field("extra", "map");
    f_extra.rules.flatten = true;
    f_extra.is_map_like = true;
    let fields = vec![f_extra, field("name", "string")];
    let mut rules = container();
    rules.deny_unknown_fields = true;
    let node = synth_named_struct(&"Mapped".to_string(), fields, &rules, None).unwrap();
    let (names, _, additional) = object_parts(&node);
    assert_eq!(names, vec!["name"]);
    // The map wins over deny-unknown-fields, which asks for no flattening.
    assert_eq!(*additional, AdditionalProps::Constrained(Box::new(leaf("map"))));
}

#[test]
fn second_flattened_map_is_refused() {
    let mut m1 = field("first_extras", "map");
    m1.rules.flatten = true;
    m1.is_map_like = true;
    let mut m2 = field("second_extras", "map");
    m2.rules.flatten = true;
    m2.is_map_like = true;
    let fields = vec![m1, field("name", "string"), m2];
    let rules = container();
    let err = synth_named_struct(&"Greedy".to_string(), fields, &rules, None).unwrap_err();
    assert_eq!(
        err,
        SynthError::MultipleFlattenedMaps {
            container: "Greedy".to_string(),
            first_field: "first_extras".to_string(),
            second_field: "second_extras".to_string(),
        }
    );
}

#[test]
fn positional_three_identical_fields() {
    let fields = vec![field("0", "number"), field("1", "number"), field("2", "number")];
    let node = synth_positional_struct(fields);
    match &node.kind {
        SchemaKind::Array { item, min_items, max_items } => {
            assert_eq!(**item, leaf("number"));
            assert_eq!(*min_items, Some(3));
            assert_eq!(*max_items, Some(3));
        },
        other => panic!("expected an array, got {:?}", other),
    }
}

#[test]
fn positional_single_field_is_its_schema() {
    let fields = vec![field("0", "string")];
    let node = synth_positional_struct(fields);
    assert_eq!(node, leaf("string"));
}

#[test]
fn positional_mixed_fields_degrade_to_object_array() {
    let fields = vec![field("0", "number"), field("1", "string")];
    let node = synth_positional_struct(fields);
    match &node.kind {
        SchemaKind::Array { item, min_items, max_items } => {
            match &item.kind {
                SchemaKind::Object { properties, required, additional } => {
                    assert!(properties.is_empty());
                    assert!(required.is_empty());
                    assert_eq!(*additional, AdditionalProps::Unset);
                },
                other => panic!("expected a free-form object, got {:?}", other),
            }
            assert_eq!(*min_items, Some(2));
            assert_eq!(*max_items, Some(2));
        },
        other => panic!("expected an array, got {:?}", other),
    }
}

#[test]
fn unit_struct_is_empty_schema() {
    let node = synth_unit_struct();
    assert_eq!(node.kind, SchemaKind::Empty);
    let _ = Property { name: "x".to_string(), schema: leaf("string") };
}
