use vstd::prelude::*;
use crate::names::{CaseRule, spec_resolve_field_name, resolve_field_name};
use crate::node::{
    AdditionalProps, Meta, Property, SchemaKind, SchemaNode, SpecAdditionalProps, SpecSchema,
    SpecSchemaKind, lemma_nodes_view_push, lemma_props_view_push, lemma_strings_view_push,
    lemma_take_succ, node_view, nodes_view, opt_str_view, props_view, strings_view,
};
use crate::model::{
    ContainerRules, Field, SpecContainerRules, SpecField, SynthError, SpecSynthError, field_view,
    fields_view, is_flatten, is_not_skipped,
};

verus! {

/// The rename-all rule in force: a serialization rule wins over a schema
/// feature.
pub open spec fn spec_effective_rename_all(
    rule: Option<CaseRule>,
    feature: Option<CaseRule>,
) -> Option<CaseRule> {
    match rule {
        Option::Some(r) => Option::Some(r),
        Option::None => feature,
    }
}

/// The explicit rename in force on a field: a serialization rule wins over
/// a schema feature.
pub open spec fn spec_field_explicit_rename(f: SpecField) -> Option<Seq<char>> {
    match f.rules.rename {
        Option::Some(r) => Option::Some(r),
        Option::None => f.feature_rename,
    }
}

/// The wire name of a field.
pub open spec fn spec_field_wire_name(f: SpecField, rename_all: Option<CaseRule>) -> Seq<char> {
    spec_resolve_field_name(f.ident, spec_field_explicit_rename(f), rename_all)
}

/// Whether a field appears as a plain property of its parent object.
pub open spec fn spec_field_included(f: SpecField) -> bool {
    !f.rules.skip && !f.rules.flatten
}

/// Whether a field is filled from a default when absent.
pub open spec fn spec_field_defaulted(f: SpecField, c: SpecContainerRules) -> bool {
    f.rules.default || f.feature_default || c.default
}

/// Whether a field belongs to the required set: it is neither optional nor
/// defaulted, or its explicit override says so.
pub open spec fn spec_field_required(f: SpecField, c: SpecContainerRules) -> bool {
    (!f.is_optional && !spec_field_defaulted(f, c)) || f.required_override == Option::Some(true)
}

/// The properties of the object node: every non-skipped, non-flattened
/// field, keyed by its wire name, in declaration order.
pub open spec fn spec_object_props(fs: Seq<SpecField>, rename_all: Option<CaseRule>) -> Seq<
    (Seq<char>, SpecSchema),
>
    decreases fs.len(),
{
    if fs.len() == 0 {
        Seq::empty()
    } else {
        let rest = spec_object_props(fs.drop_last(), rename_all);
        if spec_field_included(fs.last()) {
            rest.push((spec_field_wire_name(fs.last(), rename_all), fs.last().schema))
        } else {
            rest
        }
    }
}

/// The required set of the object node, in declaration order.
pub open spec fn spec_required_names(
    fs: Seq<SpecField>,
    c: SpecContainerRules,
    rename_all: Option<CaseRule>,
) -> Seq<Seq<char>>
    decreases fs.len(),
{
    if fs.len() == 0 {
        Seq::empty()
    } else {
        let rest = spec_required_names(fs.drop_last(), c, rename_all);
        if spec_field_included(fs.last()) && spec_field_required(fs.last(), c) {
            rest.push(spec_field_wire_name(fs.last(), rename_all))
        } else {
            rest
        }
    }
}

/// The flattened fields, in declaration order.
pub open spec fn spec_flattened(fs: Seq<SpecField>) -> Seq<SpecField>
    decreases fs.len(),
{
    if fs.len() == 0 {
        Seq::empty()
    } else {
        let rest = spec_flattened(fs.drop_last());
        if fs.last().rules.flatten {
            rest.push(fs.last())
        } else {
            rest
        }
    }
}

/// The flattened fields whose type is a free-form map, in declaration order.
pub open spec fn spec_flat_maps(fs: Seq<SpecField>) -> Seq<SpecField>
    decreases fs.len(),
{
    if fs.len() == 0 {
        Seq::empty()
    } else {
        let rest = spec_flat_maps(fs.drop_last());
        if fs.last().rules.flatten && fs.last().is_map_like {
            rest.push(fs.last())
        } else {
            rest
        }
    }
}

/// The schemas of the flattened non-map fields, in declaration order.
pub open spec fn spec_flat_plain_schemas(fs: Seq<SpecField>) -> Seq<SpecSchema>
    decreases fs.len(),
{
    if fs.len() == 0 {
        Seq::empty()
    } else {
        let rest = spec_flat_plain_schemas(fs.drop_last());
        if fs.last().rules.flatten && !fs.last().is_map_like {
            rest.push(fs.last().schema)
        } else {
            rest
        }
    }
}

/// What the object node says about unknown properties: the single flattened
/// map constrains them; otherwise a deny-unknown-fields rule forbids them,
/// but only when no flattening occurred at all.
pub open spec fn spec_named_additional(
    fs: Seq<SpecField>,
    c: SpecContainerRules,
) -> SpecAdditionalProps {
    if spec_flat_maps(fs).len() >= 1 {
        SpecAdditionalProps::Constrained(Box::new(spec_flat_maps(fs)[0].schema))
    } else if c.deny_unknown_fields && spec_flattened(fs).len() == 0 {
        SpecAdditionalProps::Forbidden
    } else {
        SpecAdditionalProps::Unset
    }
}

/// The object node of a named-field struct, before flatten composition.
pub open spec fn spec_named_object(
    fs: Seq<SpecField>,
    c: SpecContainerRules,
    rename_all: Option<CaseRule>,
) -> SpecSchema {
    SpecSchema {
        kind: SpecSchemaKind::Object {
            properties: spec_object_props(fs, rename_all),
            required: spec_required_names(fs, c, rename_all),
            additional: spec_named_additional(fs, c),
        },
        meta: Meta::spec_none(),
    }
}

/// The schema of a named-field struct: the object node alone, or, when
/// plain object fields are flattened into it, a conjunction of those
/// fields' schemas with the object node last.
pub open spec fn spec_named_struct(
    fs: Seq<SpecField>,
    c: SpecContainerRules,
    rename_all: Option<CaseRule>,
) -> SpecSchema {
    if spec_flat_plain_schemas(fs).len() == 0 {
        spec_named_object(fs, c, rename_all)
    } else {
        SpecSchema {
            kind: SpecSchemaKind::AllOf {
                items: spec_flat_plain_schemas(fs).push(spec_named_object(fs, c, rename_all)),
            },
            meta: Meta::spec_none(),
        }
    }
}

/// Every prefix of the field list yields a prefix of the flattened-map list.
proof fn lemma_flat_maps_prefix(fs: Seq<SpecField>, i: int)
    requires
        0 <= i <= fs.len(),
    ensures
        spec_flat_maps(fs.take(i)).is_prefix_of(spec_flat_maps(fs)),
    decreases fs.len() - i,
{
    if i == fs.len() {
        assert(fs.take(i) =~= fs);
    } else {
        lemma_flat_maps_prefix(fs, i + 1);
        lemma_take_succ(fs, i);
        assert(spec_flat_maps(fs.take(i)).is_prefix_of(spec_flat_maps(fs.take(i + 1))));
    }
}

/// The explicit rename in force on a field.
fn field_explicit_rename(f: &Field) -> (r: &Option<String>)
    ensures
        opt_str_view(*r) == spec_field_explicit_rename(f@),
{
    match &f.rules.rename {
        Some(_) => &f.rules.rename,
        None => &f.feature_rename,
    }
}

/// Builds the schema of a struct with named fields.
///
/// Each non-skipped, non-flattened field becomes a property under its wire
/// name, required exactly when the rules say so. Flattened object fields
/// are folded in by conjunction; at most one flattened field may be a
/// free-form map, which constrains the unknown properties; a second one is
/// refused, naming both offenders.
pub fn synth_named_struct(
    struct_name: &String,
    fields: Vec<Field>,
    rules: &ContainerRules,
    feature_rename_all: Option<CaseRule>,
) -> (r: Result<SchemaNode, SynthError>)
    ensures
        r is Ok <==> spec_flat_maps(fields_view(fields@)).len() <= 1,
        r matches Ok(n) ==> node_view(n) == spec_named_struct(
            fields_view(fields@),
            rules@,
            spec_effective_rename_all(rules.rename_all, feature_rename_all),
        ),
        r matches Err(e) ==> e@ == (SpecSynthError::MultipleFlattenedMaps {
            container: struct_name@,
            first_field: spec_flat_maps(fields_view(fields@))[0].ident,
            second_field: spec_flat_maps(fields_view(fields@))[1].ident,
        }),
{
    let ghost fv = fields_view(fields@);
    let ghost orig = fields@;
    let eff_ra: Option<CaseRule> = match rules.rename_all {
        Some(c) => Some(c),
        None => feature_rename_all,
    };
    let mut remaining = fields;
    let mut props: Vec<Property> = Vec::new();
    let mut required: Vec<String> = Vec::new();
    let mut flat_items: Vec<SchemaNode> = Vec::new();
    let mut map_entry: Option<(String, SchemaNode)> = None;
    let mut saw_flatten = false;
    let ghost mut i: int = 0;
    proof {
        assert(orig.skip(0) =~= orig);
        assert(fv.take(0) =~= Seq::<SpecField>::empty());
    }
    while remaining.len() > 0
        invariant
            0 <= i <= orig.len(),
            remaining@ == orig.skip(i),
            orig == fields@,
            fv == fields_view(orig),
            eff_ra == spec_effective_rename_all(rules.rename_all, feature_rename_all),
            props_view(props@) == spec_object_props(fv.take(i), eff_ra),
            strings_view(required@) == spec_required_names(fv.take(i), rules@, eff_ra),
            nodes_view(flat_items@) == spec_flat_plain_schemas(fv.take(i)),
            map_entry matches Some(p) ==> (spec_flat_maps(fv.take(i)).len() == 1 && p.0@
                == spec_flat_maps(fv.take(i))[0].ident && node_view(p.1) == spec_flat_maps(
                fv.take(i),
            )[0].schema),
            map_entry is None ==> spec_flat_maps(fv.take(i)).len() == 0,
            saw_flatten == (spec_flattened(fv.take(i)).len() > 0),
        decreases remaining@.len(),
    {
        proof {
            assert(orig.skip(i).len() > 0);
            assert(orig.skip(i)[0] == orig[i]);
            lemma_take_succ(fv, i);
            assert(fv[i] == field_view(orig[i]));
        }
        let f = remaining.remove(0);
        proof {
            assert(remaining@ =~= orig.skip(i + 1));
        }
        if is_flatten(&f.rules) {
            saw_flatten = true;
            if f.is_map_like {
                if map_entry.is_none() {
                    map_entry = Some((f.ident, f.schema));
                } else {
                    let first_field = match &map_entry {
                        Some(p) => p.0.clone(),
                        None => String::new(),
                    };
                    proof {
                        assert(spec_flat_maps(fv.take(i + 1)) == spec_flat_maps(fv.take(i)).push(
                            fv[i],
                        ));
                        assert(spec_flat_maps(fv.take(i + 1)).len() == 2);
                        assert(spec_flat_maps(fv.take(i + 1))[0] == spec_flat_maps(fv.take(i))[0]);
                        assert(spec_flat_maps(fv.take(i + 1))[1] == fv[i]);
                        lemma_flat_maps_prefix(fv, i + 1);
                        assert(spec_flat_maps(fv.take(i + 1)) == spec_flat_maps(fv).subrange(
                            0,
                            2,
                        ));
                        assert(spec_flat_maps(fv)[0] == spec_flat_maps(fv.take(i + 1))[0]);
                        assert(spec_flat_maps(fv)[1] == spec_flat_maps(fv.take(i + 1))[1]);
                        assert(spec_flat_maps(fv).len() >= 2);
                        assert(first_field@ == spec_flat_maps(fv)[0].ident);
                        assert(f.ident@ == spec_flat_maps(fv)[1].ident);
                    }
                    return Err(SynthError::MultipleFlattenedMaps {
                        container: struct_name.clone(),
                        first_field,
                        second_field: f.ident,
                    });
                }
            } else {
                let ghost flat0 = flat_items@;
                flat_items.push(f.schema);
                proof {
                    lemma_nodes_view_push(flat0, flat_items@.last());
                    assert(flat_items@ == flat0.push(flat_items@.last()));
                }
            }
        } else if is_not_skipped(&f.rules) {
            let explicit = field_explicit_rename(&f);
            let name = resolve_field_name(f.ident.as_str(), explicit, eff_ra);
            let defaulted = f.rules.default || f.feature_default || rules.default;
            let overridden = match f.required_override {
                Some(b) => b,
                None => false,
            };
            if (!f.is_optional && !defaulted) || overridden {
                let ghost req0 = required@;
                required.push(name.clone());
                proof {
                    lemma_strings_view_push(req0, required@.last());
                    assert(required@ == req0.push(required@.last()));
                }
            }
            let ghost props0 = props@;
            props.push(Property { name, schema: f.schema });
            proof {
                lemma_props_view_push(props0, props@.last());
                assert(props@ == props0.push(props@.last()));
            }
        }
        proof {
            i = i + 1;
        }
    }
    proof {
        assert(i == orig.len());
        assert(fv.take(i) =~= fv);
    }
    let additional = match map_entry {
        Some(p) => AdditionalProps::Constrained(Box::new(p.1)),
        None => if rules.deny_unknown_fields && !saw_flatten {
            AdditionalProps::Forbidden
        } else {
            AdditionalProps::Unset
        },
    };
    let main = SchemaNode {
        kind: SchemaKind::Object { properties: props, required, additional },
        meta: Meta::none(),
    };
    proof {
        assert(node_view(main) == spec_named_object(fv, rules@, eff_ra));
    }
    proof {
        crate::node::lemma_nodes_view_index(flat_items@);
    }
    if flat_items.len() > 0 {
        let ghost flat0 = flat_items@;
        let ghost main_view = node_view(main);
        let mut items = flat_items;
        items.push(main);
        proof {
            lemma_nodes_view_push(flat0, items@.last());
            assert(items@ == flat0.push(items@.last()));
            assert(nodes_view(items@) == spec_flat_plain_schemas(fv).push(main_view));
        }
        Ok(SchemaNode { kind: SchemaKind::AllOf { items }, meta: Meta::none() })
    } else {
        Ok(main)
    }
}

/// Builds the schema of a unit struct: the empty schema.
pub fn synth_unit_struct() -> (r: SchemaNode)
    ensures
        node_view(r) == (SpecSchema { kind: SpecSchemaKind::Empty, meta: Meta::spec_none() }),
{
    SchemaNode::empty()
}

/// Whether every field declares the same type as the first one.
pub open spec fn spec_homogeneous(fs: Seq<SpecField>) -> bool {
    forall|j: int| 0 <= j < fs.len() ==> #[trigger] fs[j].ty == fs[0].ty
}

/// The free-form object that stands in for a tuple of differing types.
pub open spec fn spec_free_form_object() -> SpecSchema {
    SpecSchema {
        kind: SpecSchemaKind::Object {
            properties: Seq::empty(),
            required: Seq::empty(),
            additional: SpecAdditionalProps::Unset,
        },
        meta: Meta::spec_none(),
    }
}

/// The schema of a positional-field struct: a single field stands for its
/// own schema; several fields of one shared type make a fixed-length array
/// of that schema; a tuple of differing types degrades to a fixed-length
/// array of free-form objects.
pub open spec fn spec_positional_struct(fs: Seq<SpecField>) -> SpecSchema
    recommends
        fs.len() >= 1,
{
    let base = if spec_homogeneous(fs) {
        fs[0].schema
    } else {
        spec_free_form_object()
    };
    if fs.len() == 1 {
        base
    } else {
        SpecSchema {
            kind: SpecSchemaKind::Array {
                item: Box::new(base),
                min_items: Option::Some(fs.len()),
                max_items: Option::Some(fs.len()),
            },
            meta: Meta::spec_none(),
        }
    }
}

/// Builds the schema of a struct with positional fields.
pub fn synth_positional_struct(fields: Vec<Field>) -> (r: SchemaNode)
    requires
        fields@.len() >= 1,
    ensures
        node_view(r) == spec_positional_struct(fields_view(fields@)),
{
    let ghost fv = fields_view(fields@);
    let n = fields.len();
    let mut homogeneous = true;
    let mut i: usize = 1;
    while i < n
        invariant
            n == fields@.len(),
            fv == fields_view(fields@),
            1 <= i <= n,
            homogeneous == (forall|j: int| 0 <= j < i ==> #[trigger] fv[j].ty == fv[0].ty),
        decreases n - i,
    {
        let ghost h0 = homogeneous;
        let same = crate::types::type_expr_eq(&fields[i].ty, &fields[0].ty);
        proof {
            assert(same == (fv[i as int].ty == fv[0].ty));
        }
        homogeneous = homogeneous && same;
        proof {
            if homogeneous {
                assert forall|j: int| 0 <= j < i + 1 implies #[trigger] fv[j].ty == fv[0].ty by {
                    if j < i {
                        assert(fv[j].ty == fv[0].ty);
                    }
                }
            } else {
                if h0 && !same {
                    assert(fv[i as int].ty != fv[0].ty);
                }
            }
        }
        i += 1;
    }
    proof {
        assert(homogeneous == spec_homogeneous(fv));
    }
    let mut rest = fields;
    let base = if homogeneous {
        let f0 = rest.remove(0);
        f0.schema
    } else {
        SchemaNode {
            kind: SchemaKind::Object {
                properties: Vec::new(),
                required: Vec::new(),
                additional: AdditionalProps::Unset,
            },
            meta: Meta::none(),
        }
    };
    proof {
        assert(props_view(Seq::<Property>::empty()) =~= Seq::<(Seq<char>, SpecSchema)>::empty());
        assert(strings_view(Seq::<String>::empty()) =~= Seq::<Seq<char>>::empty());
        assert(node_view(base) == (if spec_homogeneous(fv) {
            fv[0].schema
        } else {
            spec_free_form_object()
        }));
    }
    if n == 1 {
        base
    } else {
        SchemaNode {
            kind: SchemaKind::Array {
                item: Box::new(base),
                min_items: Some(n),
                max_items: Some(n),
            },
            meta: Meta::none(),
        }
    }
}

} // verus!
