use vstd::prelude::*;
use crate::names::{
    CaseRule, apply_variant_case, spec_resolve_variant_name, strip_raw,
};
use crate::node::{
    AdditionalProps, Meta, Property, SchemaKind, SchemaNode, SpecAdditionalProps, SpecMeta,
    SpecSchema, SpecSchemaKind, lemma_take_succ, node_view, opt_str_view, props_view,
    strings_view,
};
use crate::model::{
    ContainerRules, SpecContainerRules, SpecEnumRepresentation, SpecField, SpecSynthError,
    SpecVariant, SpecVariantShape, SynthError, Variant, VariantRules, VariantShape, fields_view,
    res_view, variant_view,
};
use crate::structs::{
    spec_effective_rename_all, spec_flat_maps, spec_named_struct, spec_positional_struct,
    synth_named_struct, synth_positional_struct,
};

verus! {

/// The explicit rename in force on a variant: a serialization rule wins
/// over a schema feature.
pub open spec fn spec_variant_explicit_rename(
    rule_rename: Option<Seq<char>>,
    feature_rename: Option<Seq<char>>,
) -> Option<Seq<char>> {
    match rule_rename {
        Option::Some(r) => Option::Some(r),
        Option::None => feature_rename,
    }
}

/// The renamed form of a variant, when an explicit rename or an inherited
/// rename-all rule applies at all.
pub open spec fn spec_rename_enum_variant(
    name: Seq<char>,
    rule_rename: Option<Seq<char>>,
    feature_rename: Option<Seq<char>>,
    container_rename_all: Option<CaseRule>,
    rename_all: Option<CaseRule>,
) -> Option<Seq<char>> {
    let explicit = spec_variant_explicit_rename(rule_rename, feature_rename);
    let eff_ra = spec_effective_rename_all(container_rename_all, rename_all);
    match explicit {
        Option::Some(e) => Option::Some(e),
        Option::None => match eff_ra {
            Option::Some(rule) => Option::Some(
                crate::names::spec_apply_variant_case(rule, crate::names::spec_strip_raw(name)),
            ),
            Option::None => Option::None,
        },
    }
}

/// Resolves the renamed form of a variant, when one applies at all: an
/// explicit rename wins, then a rename-all rule inherited from the
/// container, then one local to the enum's schema features.
pub fn rename_enum_variant(
    name: &str,
    feature_rename: &Option<String>,
    variant_rules: &VariantRules,
    container_rules: &ContainerRules,
    rename_all: Option<CaseRule>,
) -> (r: Option<String>)
    ensures
        opt_str_view(r) == spec_rename_enum_variant(
            name@,
            opt_str_view(variant_rules.rename),
            opt_str_view(*feature_rename),
            container_rules.rename_all,
            rename_all,
        ),
{
    let explicit: &Option<String> = match &variant_rules.rename {
        Some(_) => &variant_rules.rename,
        None => feature_rename,
    };
    let eff_ra: Option<CaseRule> = match container_rules.rename_all {
        Some(c) => Some(c),
        None => rename_all,
    };
    match explicit {
        Some(e) => Some(e.clone()),
        None => match eff_ra {
            Some(rule) => {
                let stripped = strip_raw(name);
                Some(apply_variant_case(rule, stripped.as_str()))
            },
            None => None,
        },
    }
}

/// The wire name of a variant: its renamed form when one applies, else the
/// identifier itself with a raw prefix stripped.
pub open spec fn spec_variant_wire_name(
    v: SpecVariant,
    c: SpecContainerRules,
    rename_all: Option<CaseRule>,
) -> Seq<char> {
    spec_resolve_variant_name(
        v.ident,
        spec_variant_explicit_rename(v.rules.rename, v.feature_rename),
        spec_effective_rename_all(c.rename_all, rename_all),
    )
}

/// Resolves the wire name of a variant.
pub fn variant_wire_name(
    v: &Variant,
    container_rules: &ContainerRules,
    rename_all: Option<CaseRule>,
) -> (r: String)
    ensures
        r@ == spec_variant_wire_name(v@, container_rules@, rename_all),
{
    let renamed = rename_enum_variant(
        v.ident.as_str(),
        &v.feature_rename,
        &v.rules,
        container_rules,
        rename_all,
    );
    match renamed {
        Some(n) => n,
        None => strip_raw(v.ident.as_str()),
    }
}

/// The annotations a variant hands to its schema node.
pub open spec fn spec_variant_meta(v: SpecVariant) -> SpecMeta {
    SpecMeta { description: v.description, deprecated: false, title: v.title, example: v.example }
}

/// The empty schema, unannotated.
pub open spec fn spec_empty_schema() -> SpecSchema {
    SpecSchema { kind: SpecSchemaKind::Empty, meta: Meta::spec_none() }
}

/// A one-value string enumeration: how a tag property pins the variant name.
pub open spec fn spec_one_string(nm: Seq<char>) -> SpecSchema {
    SpecSchema { kind: SpecSchemaKind::StringValues { values: seq![nm] }, meta: Meta::spec_none() }
}

/// An object holding only the tag property, pinned to the variant name.
pub open spec fn spec_tag_object(tag: Seq<char>, nm: Seq<char>) -> SpecSchemaKind {
    SpecSchemaKind::Object {
        properties: seq![(tag, spec_one_string(nm))],
        required: seq![tag],
        additional: SpecAdditionalProps::Unset,
    }
}

/// The container rules a variant's own fields are synthesized under: none
/// but the variant's rename-all rule apply.
pub open spec fn spec_inner_rules() -> SpecContainerRules {
    SpecContainerRules {
        rename_all: Option::None,
        deny_unknown_fields: false,
        default: false,
        repr: SpecEnumRepresentation::External,
    }
}

/// The schema of a variant's named fields, or the flatten error that
/// refuses them, named after the enclosing enum.
pub open spec fn spec_named_inner(
    enum_name: Seq<char>,
    fs: Seq<SpecField>,
    rename_all: Option<CaseRule>,
) -> Result<SpecSchema, SpecSynthError> {
    if spec_flat_maps(fs).len() <= 1 {
        Result::Ok(spec_named_struct(fs, spec_inner_rules(), rename_all))
    } else {
        Result::Err(SpecSynthError::MultipleFlattenedMaps {
            container: enum_name,
            first_field: spec_flat_maps(fs)[0].ident,
            second_field: spec_flat_maps(fs)[1].ident,
        })
    }
}

/// Folds the tag property into a variant's schema: an object takes the tag
/// as one more required property; any other schema is conjoined with an
/// object holding only the tag.
pub open spec fn spec_with_tag(
    inner: SpecSchema,
    tag: Seq<char>,
    nm: Seq<char>,
    meta: SpecMeta,
) -> SpecSchema {
    match inner.kind {
        SpecSchemaKind::Object { properties, required, additional } => SpecSchema {
            kind: SpecSchemaKind::Object {
                properties: properties.push((tag, spec_one_string(nm))),
                required: required.push(tag),
                additional: additional,
            },
            meta: meta,
        },
        _ => SpecSchema {
            kind: SpecSchemaKind::AllOf {
                items: seq![
                    inner,
                    SpecSchema { kind: spec_tag_object(tag, nm), meta: Meta::spec_none() },
                ],
            },
            meta: meta,
        },
    }
}

/// An object with one property holding the variant's payload under its
/// wire name.
pub open spec fn spec_keyed_object(
    nm: Seq<char>,
    payload: SpecSchema,
    meta: SpecMeta,
) -> SpecSchema {
    SpecSchema {
        kind: SpecSchemaKind::Object {
            properties: seq![(nm, payload)],
            required: seq![nm],
            additional: SpecAdditionalProps::Unset,
        },
        meta: meta,
    }
}

/// An object with the tag property and, beside it, the payload under the
/// content property, both required.
pub open spec fn spec_adjacent_object(
    tag: Seq<char>,
    content: Seq<char>,
    nm: Seq<char>,
    payload: SpecSchema,
    meta: SpecMeta,
) -> SpecSchema {
    SpecSchema {
        kind: SpecSchemaKind::Object {
            properties: seq![(tag, spec_one_string(nm)), (content, payload)],
            required: seq![tag, content],
            additional: SpecAdditionalProps::Unset,
        },
        meta: meta,
    }
}

/// The schema of one variant of a mixed enum, by representation and shape.
pub open spec fn spec_complex_variant(
    enum_name: Seq<char>,
    v: SpecVariant,
    c: SpecContainerRules,
    rename_all: Option<CaseRule>,
) -> Result<SpecSchema, SpecSynthError>
    recommends
        v.shape matches SpecVariantShape::Positional(fs) ==> fs.len() >= 1,
{
    let nm = spec_variant_wire_name(v, c, rename_all);
    let meta = spec_variant_meta(v);
    match c.repr {
        SpecEnumRepresentation::External => match v.shape {
            SpecVariantShape::Unit => Result::Ok(spec_keyed_object(nm, spec_empty_schema(), meta)),
            SpecVariantShape::Named(fs) => match spec_named_inner(enum_name, fs, v.rename_all) {
                Result::Ok(inner) => Result::Ok(spec_keyed_object(nm, inner, meta)),
                Result::Err(e) => Result::Err(e),
            },
            SpecVariantShape::Positional(fs) => Result::Ok(
                spec_keyed_object(nm, spec_positional_struct(fs), meta),
            ),
        },
        SpecEnumRepresentation::Internal { tag } => match v.shape {
            SpecVariantShape::Unit => Result::Ok(
                SpecSchema { kind: spec_tag_object(tag, nm), meta: meta },
            ),
            SpecVariantShape::Named(fs) => match spec_named_inner(enum_name, fs, v.rename_all) {
                Result::Ok(inner) => Result::Ok(spec_with_tag(inner, tag, nm, meta)),
                Result::Err(e) => Result::Err(e),
            },
            SpecVariantShape::Positional(fs) => if fs.len() >= 2 {
                Result::Err(SpecSynthError::UnsupportedTaggedTuple {
                    container: enum_name,
                    variant: v.ident,
                })
            } else {
                Result::Ok(spec_with_tag(fs[0].schema, tag, nm, meta))
            },
        },
        SpecEnumRepresentation::Adjacent { tag, content } => match v.shape {
            SpecVariantShape::Unit => Result::Ok(
                SpecSchema { kind: spec_tag_object(tag, nm), meta: meta },
            ),
            SpecVariantShape::Named(fs) => match spec_named_inner(enum_name, fs, v.rename_all) {
                Result::Ok(inner) => Result::Ok(
                    spec_adjacent_object(tag, content, nm, inner, meta),
                ),
                Result::Err(e) => Result::Err(e),
            },
            SpecVariantShape::Positional(fs) => if fs.len() >= 2 {
                Result::Err(SpecSynthError::UnsupportedTaggedTuple {
                    container: enum_name,
                    variant: v.ident,
                })
            } else {
                Result::Ok(spec_adjacent_object(tag, content, nm, fs[0].schema, meta))
            },
        },
        SpecEnumRepresentation::Untagged => match v.shape {
            SpecVariantShape::Unit => Result::Ok(SpecSchema { kind: SpecSchemaKind::Empty, meta: meta }),
            SpecVariantShape::Named(fs) => spec_named_inner(enum_name, fs, v.rename_all),
            SpecVariantShape::Positional(fs) => Result::Ok(spec_positional_struct(fs)),
        },
    }
}

/// Builds a one-value string enumeration node.
fn one_string_node(nm: String) -> (r: SchemaNode)
    ensures
        node_view(r) == spec_one_string(nm@),
{
    let ghost nv = nm@;
    let mut values: Vec<String> = Vec::new();
    values.push(nm);
    proof {
        assert(strings_view(values@) =~= seq![nv]);
    }
    SchemaNode { kind: SchemaKind::StringValues { values }, meta: Meta::none() }
}

/// Builds an object node holding only the tag property.
fn tag_object_node(tag: &String, nm: String, meta: Meta) -> (r: SchemaNode)
    ensures
        node_view(r) == (SpecSchema { kind: spec_tag_object(tag@, nm@), meta: meta@ }),
{
    let ghost nv = nm@;
    let inner = one_string_node(nm);
    let mut properties: Vec<Property> = Vec::new();
    properties.push(Property { name: tag.clone(), schema: inner });
    let mut required: Vec<String> = Vec::new();
    required.push(tag.clone());
    proof {
        crate::node::lemma_props_view_index(properties@);
        assert(props_view(properties@) =~= seq![(tag@, spec_one_string(nv))]);
        assert(strings_view(required@) =~= seq![tag@]);
    }
    SchemaNode {
        kind: SchemaKind::Object { properties, required, additional: AdditionalProps::Unset },
        meta,
    }
}

/// Builds an object node with one property holding the payload.
fn keyed_object_node(nm: String, payload: SchemaNode, meta: Meta) -> (r: SchemaNode)
    ensures
        node_view(r) == spec_keyed_object(nm@, node_view(payload), meta@),
{
    let ghost nv = nm@;
    let ghost pv = node_view(payload);
    let mut properties: Vec<Property> = Vec::new();
    properties.push(Property { name: nm.clone(), schema: payload });
    let mut required: Vec<String> = Vec::new();
    required.push(nm);
    proof {
        crate::node::lemma_props_view_index(properties@);
        assert(props_view(properties@) =~= seq![(nv, pv)]);
        assert(strings_view(required@) =~= seq![nv]);
    }
    SchemaNode {
        kind: SchemaKind::Object { properties, required, additional: AdditionalProps::Unset },
        meta,
    }
}

/// Builds the adjacent form: tag and content side by side, both required.
fn adjacent_object_node(
    tag: &String,
    content: &String,
    nm: String,
    payload: SchemaNode,
    meta: Meta,
) -> (r: SchemaNode)
    ensures
        node_view(r) == spec_adjacent_object(tag@, content@, nm@, node_view(payload), meta@),
{
    let ghost nv = nm@;
    let ghost pv = node_view(payload);
    let tag_schema = one_string_node(nm);
    let mut properties: Vec<Property> = Vec::new();
    properties.push(Property { name: tag.clone(), schema: tag_schema });
    properties.push(Property { name: content.clone(), schema: payload });
    let mut required: Vec<String> = Vec::new();
    required.push(tag.clone());
    required.push(content.clone());
    proof {
        crate::node::lemma_props_view_index(properties@);
        assert(props_view(properties@) =~= seq![(tag@, spec_one_string(nv)), (content@, pv)]);
        assert(strings_view(required@) =~= seq![tag@, content@]);
    }
    SchemaNode {
        kind: SchemaKind::Object { properties, required, additional: AdditionalProps::Unset },
        meta,
    }
}

/// Folds the tag property into a variant's schema node.
fn with_tag_node(inner: SchemaNode, tag: &String, nm: String, meta: Meta) -> (r: SchemaNode)
    ensures
        node_view(r) == spec_with_tag(node_view(inner), tag@, nm@, meta@),
{
    let ghost iv = node_view(inner);
    let ghost nv = nm@;
    match inner.kind {
        SchemaKind::Object { properties, required, additional } => {
            let ghost props0 = properties@;
            let ghost req0 = required@;
            let mut properties = properties;
            let mut required = required;
            let tag_schema = one_string_node(nm);
            properties.push(Property { name: tag.clone(), schema: tag_schema });
            required.push(tag.clone());
            proof {
                crate::node::lemma_props_view_push(props0, properties@.last());
                assert(properties@ == props0.push(properties@.last()));
                crate::node::lemma_strings_view_push(req0, required@.last());
                assert(required@ == req0.push(required@.last()));
            }
            SchemaNode {
                kind: SchemaKind::Object { properties, required, additional },
                meta,
            }
        },
        kind => {
            let inner_back = SchemaNode { kind, meta: inner.meta };
            let tagobj = tag_object_node(tag, nm, Meta::none());
            let mut items: Vec<SchemaNode> = Vec::new();
            items.push(inner_back);
            items.push(tagobj);
            proof {
                crate::node::lemma_nodes_view_index(items@);
                assert(crate::node::nodes_view(items@) =~= seq![
                    iv,
                    SpecSchema { kind: spec_tag_object(tag@, nv), meta: Meta::spec_none() },
                ]);
            }
            SchemaNode { kind: SchemaKind::AllOf { items }, meta }
        },
    }
}

/// Builds the annotations a variant hands to its schema node.
fn variant_meta(v: &Variant) -> (r: Meta)
    ensures
        r@ == spec_variant_meta(v@),
{
    Meta {
        description: v.description.clone(),
        deprecated: false,
        title: v.title.clone(),
        example: v.example.clone(),
    }
}

/// Builds the schema of one variant of a mixed enum.
///
/// Under the external representation the payload sits under the variant
/// name; under the internal one the tag is folded into the payload's
/// object; under the adjacent one tag and payload sit side by side; an
/// untagged payload stands alone. A positional variant of two or more
/// fields is refused under the internal and adjacent representations.
pub fn synth_complex_variant(
    enum_name: &String,
    v: Variant,
    rules: &ContainerRules,
    rename_all: Option<CaseRule>,
) -> (r: Result<SchemaNode, SynthError>)
    requires
        v@.shape matches SpecVariantShape::Positional(fs) ==> fs.len() >= 1,
    ensures
        res_view(r) == spec_complex_variant(enum_name@, v@, rules@, rename_all),
{
    let ghost vv = v@;
    let nm = variant_wire_name(&v, rules, rename_all);
    let meta = variant_meta(&v);
    let inner_rules = ContainerRules {
        rename_all: None,
        deny_unknown_fields: false,
        default: false,
        repr: crate::model::EnumRepresentation::External,
    };
    let v_rename_all = v.rename_all;
    let v_ident = v.ident;
    match rules.repr {
        crate::model::EnumRepresentation::External => match v.shape {
            VariantShape::Unit => Ok(keyed_object_node(nm, SchemaNode::empty(), meta)),
            VariantShape::Named(fs) => {
                match synth_named_struct(enum_name, fs, &inner_rules, v_rename_all) {
                    Ok(inner) => Ok(keyed_object_node(nm, inner, meta)),
                    Err(e) => Err(e),
                }
            },
            VariantShape::Positional(fs) => {
                proof {
                    assert(fields_view(fs@).len() >= 1);
                }
                Ok(keyed_object_node(nm, synth_positional_struct(fs), meta))
            },
        },
        crate::model::EnumRepresentation::Internal { ref tag } => match v.shape {
            VariantShape::Unit => Ok(tag_object_node(tag, nm, meta)),
            VariantShape::Named(fs) => {
                match synth_named_struct(enum_name, fs, &inner_rules, v_rename_all) {
                    Ok(inner) => Ok(with_tag_node(inner, tag, nm, meta)),
                    Err(e) => Err(e),
                }
            },
            VariantShape::Positional(fs) => {
                if fs.len() >= 2 {
                    Err(SynthError::UnsupportedTaggedTuple {
                        container: enum_name.clone(),
                        variant: v_ident,
                    })
                } else {
                    let mut fs = fs;
                    let f0 = fs.remove(0);
                    Ok(with_tag_node(f0.schema, tag, nm, meta))
                }
            },
        },
        crate::model::EnumRepresentation::Adjacent { ref tag, ref content } => match v.shape {
            VariantShape::Unit => Ok(tag_object_node(tag, nm, meta)),
            VariantShape::Named(fs) => {
                match synth_named_struct(enum_name, fs, &inner_rules, v_rename_all) {
                    Ok(inner) => Ok(adjacent_object_node(tag, content, nm, inner, meta)),
                    Err(e) => Err(e),
                }
            },
            VariantShape::Positional(fs) => {
                if fs.len() >= 2 {
                    Err(SynthError::UnsupportedTaggedTuple {
                        container: enum_name.clone(),
                        variant: v_ident,
                    })
                } else {
                    let mut fs = fs;
                    let f0 = fs.remove(0);
                    Ok(adjacent_object_node(tag, content, nm, f0.schema, meta))
                }
            },
        },
        crate::model::EnumRepresentation::Untagged => match v.shape {
            VariantShape::Unit => Ok(SchemaNode { kind: SchemaKind::Empty, meta }),
            VariantShape::Named(fs) => {
                match synth_named_struct(enum_name, fs, &inner_rules, v_rename_all) {
                    Ok(inner) => Ok(inner),
                    Err(e) => Err(e),
                }
            },
            VariantShape::Positional(fs) => {
                proof {
                    assert(fields_view(fs@).len() >= 1);
                }
                Ok(synth_positional_struct(fs))
            },
        },
    }
}

/// Whether every variant carries a unit shape.
pub open spec fn spec_all_unit(vs: Seq<SpecVariant>) -> bool {
    forall|i: int| 0 <= i < vs.len() ==> (#[trigger] vs[i]).shape is Unit
}

/// Every positional variant carries at least one field.
pub open spec fn spec_variants_wf(vs: Seq<SpecVariant>) -> bool {
    forall|i: int|
        0 <= i < vs.len() ==> ((#[trigger] vs[i]).shape matches SpecVariantShape::Positional(fs)
            ==> fs.len() >= 1)
}

/// The wire names of the non-skipped variants, in declaration order.
pub open spec fn spec_simple_values(
    vs: Seq<SpecVariant>,
    c: SpecContainerRules,
    rename_all: Option<CaseRule>,
) -> Seq<Seq<char>>
    decreases vs.len(),
{
    if vs.len() == 0 {
        Seq::empty()
    } else {
        let rest = spec_simple_values(vs.drop_last(), c, rename_all);
        if !vs.last().rules.skip {
            rest.push(spec_variant_wire_name(vs.last(), c, rename_all))
        } else {
            rest
        }
    }
}

/// The numeric discriminants of the non-skipped variants, in order.
pub open spec fn spec_discriminants(vs: Seq<SpecVariant>) -> Seq<int>
    decreases vs.len(),
{
    if vs.len() == 0 {
        Seq::empty()
    } else {
        let rest = spec_discriminants(vs.drop_last());
        if !vs.last().rules.skip {
            rest.push(vs.last().discriminant)
        } else {
            rest
        }
    }
}

/// The tag-only objects of a unit-variant enum under an inner tag.
pub open spec fn spec_string_tag_items(values: Seq<Seq<char>>, tag: Seq<char>) -> Seq<SpecSchema> {
    values.map_values(
        |nm: Seq<char>| SpecSchema { kind: spec_tag_object(tag, nm), meta: Meta::spec_none() },
    )
}

/// An object whose tag property is pinned to one numeric discriminant.
pub open spec fn spec_int_tag_object(tag: Seq<char>, d: int, base: Seq<char>) -> SpecSchemaKind {
    SpecSchemaKind::Object {
        properties: seq![
            (
                tag,
                SpecSchema {
                    kind: SpecSchemaKind::IntValues { numbers: seq![d], base: base },
                    meta: Meta::spec_none(),
                },
            ),
        ],
        required: seq![tag],
        additional: SpecAdditionalProps::Unset,
    }
}

/// The tag-only objects of a discriminant enum under an inner tag.
pub open spec fn spec_int_tag_items(ds: Seq<int>, tag: Seq<char>, base: Seq<char>) -> Seq<
    SpecSchema,
> {
    ds.map_values(
        |d: int| SpecSchema { kind: spec_int_tag_object(tag, d, base), meta: Meta::spec_none() },
    )
}

/// The property name that discriminates a tagged union, when one exists.
pub open spec fn spec_repr_tag(repr: SpecEnumRepresentation) -> Option<Seq<char>> {
    match repr {
        SpecEnumRepresentation::Internal { tag } => Option::Some(tag),
        SpecEnumRepresentation::Adjacent { tag, content } => Option::Some(tag),
        _ => Option::None,
    }
}

/// The schema of an enum of unit variants: a plain string enumeration,
/// folded into tag objects or erased as the representation asks.
pub open spec fn spec_simple_enum(
    vs: Seq<SpecVariant>,
    c: SpecContainerRules,
    rename_all: Option<CaseRule>,
) -> SpecSchema {
    let values = spec_simple_values(vs, c, rename_all);
    match c.repr {
        SpecEnumRepresentation::External => SpecSchema {
            kind: SpecSchemaKind::StringValues { values },
            meta: Meta::spec_none(),
        },
        SpecEnumRepresentation::Untagged => spec_empty_schema(),
        SpecEnumRepresentation::Internal { tag } => SpecSchema {
            kind: SpecSchemaKind::OneOf {
                items: spec_string_tag_items(values, tag),
                discriminator: Option::Some(tag),
            },
            meta: Meta::spec_none(),
        },
        SpecEnumRepresentation::Adjacent { tag, content } => SpecSchema {
            kind: SpecSchemaKind::OneOf {
                items: spec_string_tag_items(values, tag),
                discriminator: Option::Some(tag),
            },
            meta: Meta::spec_none(),
        },
    }
}

/// The schema of a unit-variant enum with a numeric base type: each
/// variant's value is its discriminant, not its name.
pub open spec fn spec_discriminant_enum(
    vs: Seq<SpecVariant>,
    c: SpecContainerRules,
    base: Seq<char>,
) -> SpecSchema {
    let ds = spec_discriminants(vs);
    match c.repr {
        SpecEnumRepresentation::External => SpecSchema {
            kind: SpecSchemaKind::IntValues { numbers: ds, base: base },
            meta: Meta::spec_none(),
        },
        SpecEnumRepresentation::Untagged => spec_empty_schema(),
        SpecEnumRepresentation::Internal { tag } => SpecSchema {
            kind: SpecSchemaKind::OneOf {
                items: spec_int_tag_items(ds, tag, base),
                discriminator: Option::Some(tag),
            },
            meta: Meta::spec_none(),
        },
        SpecEnumRepresentation::Adjacent { tag, content } => SpecSchema {
            kind: SpecSchemaKind::OneOf {
                items: spec_int_tag_items(ds, tag, base),
                discriminator: Option::Some(tag),
            },
            meta: Meta::spec_none(),
        },
    }
}

/// The variant schemas of a mixed enum, in declaration order; the first
/// refusal wins.
pub open spec fn spec_complex_items(
    enum_name: Seq<char>,
    vs: Seq<SpecVariant>,
    c: SpecContainerRules,
    rename_all: Option<CaseRule>,
) -> Result<Seq<SpecSchema>, SpecSynthError>
    decreases vs.len(),
{
    if vs.len() == 0 {
        Result::Ok(Seq::empty())
    } else {
        match spec_complex_items(enum_name, vs.drop_last(), c, rename_all) {
            Result::Err(e) => Result::Err(e),
            Result::Ok(rest) => if vs.last().rules.skip {
                Result::Ok(rest)
            } else {
                match spec_complex_variant(enum_name, vs.last(), c, rename_all) {
                    Result::Err(e) => Result::Err(e),
                    Result::Ok(s) => Result::Ok(rest.push(s)),
                }
            },
        }
    }
}

/// The schema of a mixed enum: a union of its variant schemas, with the
/// tag property as discriminator where the representation has one.
pub open spec fn spec_complex_enum(
    enum_name: Seq<char>,
    vs: Seq<SpecVariant>,
    c: SpecContainerRules,
    rename_all: Option<CaseRule>,
) -> Result<SpecSchema, SpecSynthError> {
    match spec_complex_items(enum_name, vs, c, rename_all) {
        Result::Err(e) => Result::Err(e),
        Result::Ok(items) => Result::Ok(
            SpecSchema {
                kind: SpecSchemaKind::OneOf { items, discriminator: spec_repr_tag(c.repr) },
                meta: Meta::spec_none(),
            },
        ),
    }
}

/// The schema of an enum declaration: a string enumeration when every
/// variant is a unit, its numeric counterpart when a discriminant base
/// type is declared, and a tagged union otherwise.
pub open spec fn spec_enum_schema(
    enum_name: Seq<char>,
    vs: Seq<SpecVariant>,
    c: SpecContainerRules,
    rename_all: Option<CaseRule>,
    repr_base: Option<Seq<char>>,
) -> Result<SpecSchema, SpecSynthError> {
    if spec_all_unit(vs) {
        match repr_base {
            Option::Some(base) => Result::Ok(spec_discriminant_enum(vs, c, base)),
            Option::None => Result::Ok(spec_simple_enum(vs, c, rename_all)),
        }
    } else {
        spec_complex_enum(enum_name, vs, c, rename_all)
    }
}

/// A refusal among the first variants settles the whole list.
proof fn lemma_complex_items_err(
    enum_name: Seq<char>,
    vs: Seq<SpecVariant>,
    c: SpecContainerRules,
    rename_all: Option<CaseRule>,
    i: int,
)
    requires
        0 <= i <= vs.len(),
        spec_complex_items(enum_name, vs.take(i), c, rename_all) is Err,
    ensures
        spec_complex_items(enum_name, vs, c, rename_all) == spec_complex_items(
            enum_name,
            vs.take(i),
            c,
            rename_all,
        ),
    decreases vs.len() - i,
{
    if i == vs.len() {
        assert(vs.take(i) =~= vs);
    } else {
        lemma_take_succ(vs, i);
        assert(spec_complex_items(enum_name, vs.take(i + 1), c, rename_all)
            == spec_complex_items(enum_name, vs.take(i), c, rename_all));
        lemma_complex_items_err(enum_name, vs, c, rename_all, i + 1);
    }
}

/// Builds an object node whose tag property is pinned to one discriminant.
fn int_tag_node(tag: &String, d: i64, base: &String) -> (r: SchemaNode)
    ensures
        node_view(r) == (SpecSchema {
            kind: spec_int_tag_object(tag@, d as int, base@),
            meta: Meta::spec_none(),
        }),
{
    let mut numbers: Vec<i64> = Vec::new();
    numbers.push(d);
    proof {
        assert(crate::node::ints_view(numbers@) =~= seq![d as int]);
    }
    let value_node = SchemaNode {
        kind: SchemaKind::IntValues { numbers, base: base.clone() },
        meta: Meta::none(),
    };
    let mut properties: Vec<Property> = Vec::new();
    properties.push(Property { name: tag.clone(), schema: value_node });
    let mut required: Vec<String> = Vec::new();
    required.push(tag.clone());
    proof {
        crate::node::lemma_props_view_index(properties@);
        assert(props_view(properties@) =~= seq![
            (
                tag@,
                SpecSchema {
                    kind: SpecSchemaKind::IntValues { numbers: seq![d as int], base: base@ },
                    meta: Meta::spec_none(),
                },
            ),
        ]);
        assert(strings_view(required@) =~= seq![tag@]);
    }
    SchemaNode {
        kind: SchemaKind::Object { properties, required, additional: AdditionalProps::Unset },
        meta: Meta::none(),
    }
}

/// Builds the schema of an enum declaration.
///
/// An enum of unit variants becomes a string enumeration of its resolved
/// variant names, or of its numeric discriminants when a base type is
/// declared; a mixed enum becomes a union of its variant schemas with the
/// tag property as discriminator where one exists. Skipped variants are
/// left out everywhere.
pub fn synth_enum(
    enum_name: &String,
    variants: Vec<Variant>,
    rules: &ContainerRules,
    feature_rename_all: Option<CaseRule>,
    repr_base: &Option<String>,
) -> (r: Result<SchemaNode, SynthError>)
    requires
        spec_variants_wf(crate::model::variants_view(variants@)),
    ensures
        res_view(r) == spec_enum_schema(
            enum_name@,
            crate::model::variants_view(variants@),
            rules@,
            feature_rename_all,
            opt_str_view(*repr_base),
        ),
{
    let ghost vv = crate::model::variants_view(variants@);
    let n = variants.len();
    let mut all_unit = true;
    let mut i: usize = 0;
    while i < n
        invariant
            n == variants@.len(),
            vv == crate::model::variants_view(variants@),
            i <= n,
            all_unit == (forall|j: int| 0 <= j < i ==> (#[trigger] vv[j]).shape is Unit),
        decreases n - i,
    {
        let ghost a0 = all_unit;
        let unit_here = match &variants[i].shape {
            VariantShape::Unit => true,
            _ => false,
        };
        proof {
            assert(unit_here == (vv[i as int].shape is Unit));
        }
        all_unit = all_unit && unit_here;
        proof {
            if all_unit {
                assert forall|j: int| 0 <= j < i + 1 implies (#[trigger] vv[j]).shape is Unit by {
                    if j < i {
                        assert(vv[j].shape is Unit);
                    }
                }
            } else {
                if a0 && !unit_here {
                    assert(!(vv[i as int].shape is Unit));
                }
            }
        }
        i += 1;
    }
    proof {
        assert(all_unit == spec_all_unit(vv));
    }
    if all_unit {
        if repr_base.is_some() {
            let base = match repr_base {
                Some(b) => b.clone(),
                None => String::new(),
            };
            let mut numbers: Vec<i64> = Vec::new();
            let mut i: usize = 0;
            proof {
                assert(vv.take(0) =~= Seq::<SpecVariant>::empty());
                assert(crate::node::ints_view(numbers@) =~= spec_discriminants(vv.take(0)));
            }
            while i < n
                invariant
                    n == variants@.len(),
                    vv == crate::model::variants_view(variants@),
                    i <= n,
                    crate::node::ints_view(numbers@) == spec_discriminants(vv.take(i as int)),
                decreases n - i,
            {
                proof {
                    lemma_take_succ(vv, i as int);
                }
                let ghost nums0 = numbers@;
                if !variants[i].rules.skip {
                    numbers.push(variants[i].discriminant);
                    proof {
                        assert(crate::node::ints_view(numbers@) =~= crate::node::ints_view(
                            nums0,
                        ).push(vv[i as int].discriminant));
                    }
                }
                i += 1;
            }
            proof {
                assert(vv.take(n as int) =~= vv);
            }
            match rules.repr {
                crate::model::EnumRepresentation::External => Ok(
                    SchemaNode {
                        kind: SchemaKind::IntValues { numbers, base },
                        meta: Meta::none(),
                    },
                ),
                crate::model::EnumRepresentation::Untagged => Ok(SchemaNode::empty()),
                crate::model::EnumRepresentation::Internal { ref tag } => Ok(
                    int_tag_union(tag, numbers, &base),
                ),
                crate::model::EnumRepresentation::Adjacent { ref tag, content: _ } => Ok(
                    int_tag_union(tag, numbers, &base),
                ),
            }
        } else {
            let mut values: Vec<String> = Vec::new();
            let mut i: usize = 0;
            proof {
                assert(vv.take(0) =~= Seq::<SpecVariant>::empty());
                assert(strings_view(values@) =~= spec_simple_values(
                    vv.take(0),
                    rules@,
                    feature_rename_all,
                ));
            }
            while i < n
                invariant
                    n == variants@.len(),
                    vv == crate::model::variants_view(variants@),
                    i <= n,
                    strings_view(values@) == spec_simple_values(
                        vv.take(i as int),
                        rules@,
                        feature_rename_all,
                    ),
                decreases n - i,
            {
                proof {
                    lemma_take_succ(vv, i as int);
                }
                let ghost vals0 = values@;
                if !variants[i].rules.skip {
                    let nm = variant_wire_name(&variants[i], rules, feature_rename_all);
                    values.push(nm);
                    proof {
                        assert(strings_view(values@) =~= strings_view(vals0).push(
                            spec_variant_wire_name(vv[i as int], rules@, feature_rename_all),
                        ));
                    }
                }
                i += 1;
            }
            proof {
                assert(vv.take(n as int) =~= vv);
            }
            match rules.repr {
                crate::model::EnumRepresentation::External => Ok(
                    SchemaNode {
                        kind: SchemaKind::StringValues { values },
                        meta: Meta::none(),
                    },
                ),
                crate::model::EnumRepresentation::Untagged => Ok(SchemaNode::empty()),
                crate::model::EnumRepresentation::Internal { ref tag } => Ok(
                    string_tag_union(tag, values),
                ),
                crate::model::EnumRepresentation::Adjacent { ref tag, content: _ } => Ok(
                    string_tag_union(tag, values),
                ),
            }
        }
    } else {
        let mut remaining = variants;
        let mut items: Vec<SchemaNode> = Vec::new();
        let ghost orig = remaining@;
        let ghost mut i: int = 0;
        proof {
            assert(orig.skip(0) =~= orig);
            assert(vv.take(0) =~= Seq::<SpecVariant>::empty());
            assert(crate::node::nodes_view(items@) =~= Seq::<SpecSchema>::empty());
        }
        while remaining.len() > 0
            invariant
                0 <= i <= orig.len(),
                remaining@ == orig.skip(i),
                orig == variants@,
                vv == crate::model::variants_view(orig),
                spec_variants_wf(vv),
                spec_complex_items(enum_name@, vv.take(i), rules@, feature_rename_all)
                    == Result::<Seq<SpecSchema>, SpecSynthError>::Ok(crate::node::nodes_view(
                    items@,
                )),
            decreases remaining@.len(),
        {
            proof {
                assert(orig.skip(i).len() > 0);
                assert(orig.skip(i)[0] == orig[i]);
                lemma_take_succ(vv, i);
                assert(vv[i] == variant_view(orig[i]));
            }
            let v = remaining.remove(0);
            proof {
                assert(remaining@ =~= orig.skip(i + 1));
            }
            if v.rules.skip {
                proof {
                    i = i + 1;
                }
            } else {
                let ghost items0 = items@;
                match synth_complex_variant(enum_name, v, rules, feature_rename_all) {
                    Ok(node) => {
                        items.push(node);
                        proof {
                            crate::node::lemma_nodes_view_push(items0, items@.last());
                            assert(items@ == items0.push(items@.last()));
                            i = i + 1;
                        }
                    },
                    Err(e) => {
                        proof {
                            lemma_complex_items_err(
                                enum_name@,
                                vv,
                                rules@,
                                feature_rename_all,
                                i + 1,
                            );
                        }
                        return Err(e);
                    },
                }
            }
        }
        proof {
            assert(i == orig.len());
            assert(vv.take(i) =~= vv);
        }
        let discriminator: Option<String> = match rules.repr {
            crate::model::EnumRepresentation::Internal { ref tag } => Some(tag.clone()),
            crate::model::EnumRepresentation::Adjacent { ref tag, content: _ } => Some(
                tag.clone(),
            ),
            _ => None,
        };
        Ok(SchemaNode { kind: SchemaKind::OneOf { items, discriminator }, meta: Meta::none() })
    }
}

/// Builds the union of tag-only objects for a unit-variant enum.
fn string_tag_union(tag: &String, values: Vec<String>) -> (r: SchemaNode)
    ensures
        node_view(r) == (SpecSchema {
            kind: SpecSchemaKind::OneOf {
                items: spec_string_tag_items(strings_view(values@), tag@),
                discriminator: Option::Some(tag@),
            },
            meta: Meta::spec_none(),
        }),
{
    let ghost sv = strings_view(values@);
    let n = values.len();
    let mut items: Vec<SchemaNode> = Vec::new();
    let mut i: usize = 0;
    proof {
        assert(crate::node::nodes_view(items@) =~= spec_string_tag_items(sv, tag@).take(0));
    }
    while i < n
        invariant
            n == values@.len(),
            sv == strings_view(values@),
            i <= n,
            crate::node::nodes_view(items@) == spec_string_tag_items(sv, tag@).take(i as int),
        decreases n - i,
    {
        let ghost items0 = items@;
        let node = tag_object_node(tag, values[i].clone(), Meta::none());
        items.push(node);
        proof {
            crate::node::lemma_nodes_view_push(items0, items@.last());
            assert(items@ == items0.push(items@.last()));
            assert(spec_string_tag_items(sv, tag@).take(i + 1) =~= spec_string_tag_items(
                sv,
                tag@,
            ).take(i as int).push(spec_string_tag_items(sv, tag@)[i as int]));
        }
        i += 1;
    }
    proof {
        assert(spec_string_tag_items(sv, tag@).take(n as int) =~= spec_string_tag_items(sv, tag@));
    }
    SchemaNode {
        kind: SchemaKind::OneOf { items, discriminator: Some(tag.clone()) },
        meta: Meta::none(),
    }
}

/// Builds the union of tag-only objects for a discriminant enum.
fn int_tag_union(tag: &String, numbers: Vec<i64>, base: &String) -> (r: SchemaNode)
    ensures
        node_view(r) == (SpecSchema {
            kind: SpecSchemaKind::OneOf {
                items: spec_int_tag_items(crate::node::ints_view(numbers@), tag@, base@),
                discriminator: Option::Some(tag@),
            },
            meta: Meta::spec_none(),
        }),
{
    let ghost dv = crate::node::ints_view(numbers@);
    let n = numbers.len();
    let mut items: Vec<SchemaNode> = Vec::new();
    let mut i: usize = 0;
    proof {
        assert(crate::node::nodes_view(items@) =~= spec_int_tag_items(dv, tag@, base@).take(0));
    }
    while i < n
        invariant
            n == numbers@.len(),
            dv == crate::node::ints_view(numbers@),
            i <= n,
            crate::node::nodes_view(items@) == spec_int_tag_items(dv, tag@, base@).take(i as int),
        decreases n - i,
    {
        let ghost items0 = items@;
        let node = int_tag_node(tag, numbers[i], base);
        items.push(node);
        proof {
            crate::node::lemma_nodes_view_push(items0, items@.last());
            assert(items@ == items0.push(items@.last()));
            assert(spec_int_tag_items(dv, tag@, base@).take(i + 1) =~= spec_int_tag_items(
                dv,
                tag@,
                base@,
            ).take(i as int).push(spec_int_tag_items(dv, tag@, base@)[i as int]));
        }
        i += 1;
    }
    proof {
        assert(spec_int_tag_items(dv, tag@, base@).take(n as int) =~= spec_int_tag_items(
            dv,
            tag@,
            base@,
        ));
    }
    SchemaNode {
        kind: SchemaKind::OneOf { items, discriminator: Some(tag.clone()) },
        meta: Meta::none(),
    }
}

} // verus!
