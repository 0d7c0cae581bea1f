use schema_synth::names::{
    CaseRule, apply_field_case, apply_variant_case, resolve_field_name, resolve_variant_name,
    strip_raw,
};

#[test]
fn field_case_transforms() {
    let s = "max_speed";
    assert_eq!(apply_field_case(CaseRule::Lower, s), "max_speed");
    assert_eq!(apply_field_case(CaseRule::Upper, s), "MAX_SPEED");
    assert_eq!(apply_field_case(CaseRule::Pascal, s), "MaxSpeed");
    assert_eq!(apply_field_case(CaseRule::Camel, s), "maxSpeed");
    assert_eq!(apply_field_case(CaseRule::Snake, s), "max_speed");
    assert_eq!(apply_field_case(CaseRule::ScreamingSnake, s), "MAX_SPEED");
    assert_eq!(apply_field_case(CaseRule::Kebab, s), "max-speed");
    assert_eq!(apply_field_case(CaseRule::ScreamingKebab, s), "MAX-SPEED");
}

#[test]
fn variant_case_transforms() {
    let s = "VariantName";
    assert_eq!(apply_variant_case(CaseRule::Lower, s), "variantname");
    assert_eq!(apply_variant_case(CaseRule::Upper, s), "VARIANTNAME");
    assert_eq!(apply_variant_case(CaseRule::Pascal, s), "VariantName");
    assert_eq!(apply_variant_case(CaseRule::Camel, s), "variantName");
    assert_eq!(apply_variant_case(CaseRule::Snake, s), "variant_name");
    assert_eq!(apply_variant_case(CaseRule::ScreamingSnake, s), "VARIANT_NAME");
    assert_eq!(apply_variant_case(CaseRule::Kebab, s), "variant-name");
    assert_eq!(apply_variant_case(CaseRule::ScreamingKebab, s), "VARIANT-NAME");
}

#[test]
fn field_case_empty_and_single() {
    assert_eq!(apply_field_case(CaseRule::Pascal, ""), "");
    assert_eq!(apply_field_case(CaseRule::Camel, "a"), "a");
    assert_eq!(apply_field_case(CaseRule::Pascal, "a"), "A");
    assert_eq!(apply_field_case(CaseRule::Pascal, "_leading"), "Leading");
}

#[test]
fn strip_raw_prefix() {
    assert_eq!(strip_raw("r#type"), "type");
    assert_eq!(strip_raw("plain"), "plain");
    assert_eq!(strip_raw("r#"), "");
    assert_eq!(strip_raw("r"), "r");
}

#[test]
fn resolve_field_name_precedence() {
    // An explicit rename wins over the inherited case transform.
    let explicit = Some(String::from("wire"));
    assert_eq!(
        resolve_field_name("max_speed", &explicit, Some(CaseRule::Camel)),
        "wire"
    );
    // Without a rename the transform applies to the stripped identifier.
    assert_eq!(
        resolve_field_name("r#type", &None, Some(CaseRule::Upper)),
        "TYPE"
    );
    // Without either, the identifier is kept, stripped of a raw prefix.
    assert_eq!(resolve_field_name("r#type", &None, None), "type");
}

#[test]
fn resolve_variant_name_precedence() {
    let explicit = Some(String::from("renamed"));
    assert_eq!(
        resolve_variant_name("MyVariant", &explicit, Some(CaseRule::Snake)),
        "renamed"
    );
    assert_eq!(
        resolve_variant_name("MyVariant", &None, Some(CaseRule::Snake)),
        "my_variant"
    );
    assert_eq!(resolve_variant_name("MyVariant", &None, None), "MyVariant");
}
