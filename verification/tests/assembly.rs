use schema_synth::alias::{AliasBinding, Binding, ResolvedLeaf, ResolverEntry};
use schema_synth::assemble::{Declaration, assemble};
use schema_synth::model::{
    ContainerRules, EnumRepresentation, Field, FieldRules, SynthError, TypeShape, Variant,
    VariantRules, VariantShape,
};
use schema_synth::node::{Meta, SchemaKind, SchemaNode};
use schema_synth::types::{PathSeg, TypeArg, TypeExpr, TypePath};

fn path_ty(name: &str) -> TypeExpr {
    TypeExpr::Path(TypePath {
        segments: vec![PathSeg { name: name.to_string(), args: vec![] }],
    })
}

fn leaf(name: &str) -> SchemaNode {
    SchemaNode { kind: SchemaKind::Leaf { name: name.to_string() }, meta: Meta::none() }
}

fn field_with_ty(ident: &str, ty: TypeExpr, schema: SchemaNode) -> Field {
    Field {
        ident: ident.to_string(),
        rules: FieldRules { skip: false, flatten: false, rename: None, default: false },
        feature_rename: None,
        feature_default: false,
        required_override: None,
        schema,
        is_optional: false,
        is_map_like: false,
        ty,
    }
}

fn container() -> ContainerRules {
    ContainerRules {
        rename_all: None,
        deny_unknown_fields: false,
        default: false,
        repr: EnumRepresentation::External,
    }
}

fn declaration(ident: &str, shape: TypeShape) -> Declaration {
    Declaration {
        ident: ident.to_string(),
        shape,
        rules: container(),
        feature_rename_all: None,
        repr_base: None,
        description: None,
        deprecated: false,
        feature_deprecated: false,
        title: None,
        example: None,
        schema_as: None,
        has_type_params: false,
        aliases: vec![],
    }
}

#[test]
fn unit_declaration_with_annotations() {
    let mut d = declaration("Marker", TypeShape::Unit);
    d.description = Some("A plain marker.".to_string());
    d.deprecated = true;
    d.title = Some("Marker".to_string());
    let out = assemble(d, &vec![]).unwrap();
    assert_eq!(out.name, "Marker");
    assert_eq!(out.schema.kind, SchemaKind::Empty);
    assert_eq!(out.schema.meta.description, Some("A plain marker.".to_string()));
    assert!(out.schema.meta.deprecated);
    assert_eq!(out.schema.meta.title, Some("Marker".to_string()));
    assert!(out.aliases.is_empty());
}

#[test]
fn empty_description_is_suppressed() {
    let mut d = declaration("Quiet", TypeShape::Unit);
    d.description = Some(String::new());
    let out = assemble(d, &vec![]).unwrap();
    assert_eq!(out.schema.meta.description, None);
}

#[test]
fn schema_as_overrides_the_emitted_name() {
    let mut d = declaration("Value", TypeShape::Unit);
    d.schema_as = Some(TypePath {
        segments: vec![
            PathSeg { name: "api".to_string(), args: vec![] },
            PathSeg { name: "rest".to_string(), args: vec![] },
            PathSeg {
                name: "Value".to_string(),
                args: vec![TypeArg::Ty(path_ty("String"))],
            },
        ],
    });
    let out = assemble(d, &vec![]).unwrap();
    // Path separators render as periods; generic arguments are stripped.
    assert_eq!(out.name, "api.rest.Value");
}

#[test]
fn alias_instantiation_matches_the_concrete_container() {
    // A generic holder whose field is the bare parameter, resolved to an
    // opaque placeholder in the primary schema.
    let generic = declaration(
        "Holder",
        TypeShape::Named(vec![field_with_ty("value", path_ty("T"), leaf("unresolved"))]),
    );
    let mut generic = generic;
    generic.has_type_params = true;
    generic.aliases = vec![AliasBinding {
        name: "HolderString".to_string(),
        bindings: vec![Binding { param: "T".to_string(), ty: path_ty("String") }],
    }];
    // The resolver view knows what a bare String resolves to.
    let entries = vec![ResolverEntry {
        ty: path_ty("String"),
        leaf: ResolvedLeaf { schema: leaf("string"), is_optional: false, is_map_like: false },
    }];
    let out = assemble(generic, &entries).unwrap();
    assert_eq!(out.aliases.len(), 1);
    assert_eq!(out.aliases[0].name, "HolderString");
    assert!(out.aliases[0].lifetimes.is_empty());

    // The same container written concretely, with the string schema in place.
    let concrete = declaration(
        "Holder",
        TypeShape::Named(vec![field_with_ty("value", path_ty("String"), leaf("string"))]),
    );
    let expected = assemble(concrete, &vec![]).unwrap();
    assert_eq!(out.aliases[0].schema, expected.schema);
}

#[test]
fn alias_substitutes_nested_type_arguments() {
    // Vec<T> with T bound to String: the view resolves the substituted
    // Vec<String>, not the bare parameter.
    let vec_of_t = TypeExpr::Path(TypePath {
        segments: vec![PathSeg {
            name: "Vec".to_string(),
            args: vec![TypeArg::Ty(path_ty("T"))],
        }],
    });
    let vec_of_string = TypeExpr::Path(TypePath {
        segments: vec![PathSeg {
            name: "Vec".to_string(),
            args: vec![TypeArg::Ty(path_ty("String"))],
        }],
    });
    let mut d = declaration(
        "Many",
        TypeShape::Named(vec![field_with_ty("items", vec_of_t, leaf("unresolved"))]),
    );
    d.has_type_params = true;
    d.aliases = vec![AliasBinding {
        name: "ManyStrings".to_string(),
        bindings: vec![Binding { param: "T".to_string(), ty: path_ty("String") }],
    }];
    let entries = vec![ResolverEntry {
        ty: vec_of_string,
        leaf: ResolvedLeaf {
            schema: SchemaNode {
                kind: SchemaKind::Array {
                    item: Box::new(leaf("string")),
                    min_items: None,
                    max_items: None,
                },
                meta: Meta::none(),
            },
            is_optional: false,
            is_map_like: false,
        },
    }];
    let out = assemble(d, &entries).unwrap();
    match &out.aliases[0].schema.kind {
        SchemaKind::Object { properties, .. } => {
            assert_eq!(properties[0].name, "items");
            match &properties[0].schema.kind {
                SchemaKind::Array { item, .. } => assert_eq!(**item, leaf("string")),
                other => panic!("expected the resolved array, got {:?}", other),
            }
        },
        other => panic!("expected an object, got {:?}", other),
    }
}

#[test]
fn duplicate_alias_names_are_refused() {
    let mut d = declaration(
        "Holder",
        TypeShape::Named(vec![field_with_ty("value", path_ty("T"), leaf("unresolved"))]),
    );
    d.has_type_params = true;
    d.aliases = vec![
        AliasBinding {
            name: "Twice".to_string(),
            bindings: vec![Binding { param: "T".to_string(), ty: path_ty("u32") }],
        },
        AliasBinding {
            name: "Twice".to_string(),
            bindings: vec![Binding { param: "T".to_string(), ty: path_ty("u64") }],
        },
    ];
    let err = assemble(d, &vec![]).unwrap_err();
    assert_eq!(
        err,
        SynthError::MalformedDeclaration {
            container: "Holder".to_string(),
            offender: "Twice".to_string(),
        }
    );
}

#[test]
fn non_path_alias_target_is_refused() {
    let mut d = declaration(
        "Holder",
        TypeShape::Named(vec![field_with_ty("value", path_ty("T"), leaf("unresolved"))]),
    );
    d.has_type_params = true;
    d.aliases = vec![AliasBinding {
        name: "Weird".to_string(),
        bindings: vec![Binding {
            param: "T".to_string(),
            ty: TypeExpr::Other { form: "&dyn Reader".to_string() },
        }],
    }];
    let err = assemble(d, &vec![]).unwrap_err();
    assert_eq!(
        err,
        SynthError::UnsupportedAliasTarget {
            container: "Holder".to_string(),
            form: "&dyn Reader".to_string(),
        }
    );
}

#[test]
fn aliases_need_type_parameters() {
    let mut d = declaration("Plain", TypeShape::Unit);
    d.has_type_params = false;
    d.aliases = vec![AliasBinding { name: "Ignored".to_string(), bindings: vec![] }];
    let out = assemble(d, &vec![]).unwrap();
    assert!(out.aliases.is_empty());
}

#[test]
fn alias_lifetimes_skip_the_static_one() {
    let borrowed = TypeExpr::Path(TypePath {
        segments: vec![PathSeg {
            name: "Cow".to_string(),
            args: vec![
                TypeArg::Lifetime("a".to_string()),
                TypeArg::Lifetime("static".to_string()),
                TypeArg::Ty(path_ty("str")),
            ],
        }],
    });
    let mut d = declaration(
        "Holder",
        TypeShape::Named(vec![field_with_ty("value", path_ty("T"), leaf("unresolved"))]),
    );
    d.has_type_params = true;
    d.aliases = vec![AliasBinding {
        name: "Borrowed".to_string(),
        bindings: vec![Binding { param: "T".to_string(), ty: borrowed }],
    }];
    let out = assemble(d, &vec![]).unwrap();
    assert_eq!(out.aliases[0].lifetimes, vec!["a".to_string()]);
}

#[test]
fn alias_of_an_enum_repeats_the_primary_schema() {
    let variants = vec![Variant {
        ident: "Only".to_string(),
        shape: VariantShape::Unit,
        rules: VariantRules { skip: false, rename: None },
        feature_rename: None,
        rename_all: None,
        title: None,
        example: None,
        description: None,
        discriminant: 0,
    }];
    let mut d = declaration("Choice", TypeShape::Enum(variants));
    d.has_type_params = true;
    d.aliases = vec![AliasBinding {
        name: "ChoiceString".to_string(),
        bindings: vec![Binding { param: "T".to_string(), ty: path_ty("String") }],
    }];
    let out = assemble(d, &vec![]).unwrap();
    assert_eq!(out.aliases.len(), 1);
    assert_eq!(out.aliases[0].schema, out.schema);
}
