use vstd::prelude::*;
use crate::alias::{
    SpecAliasBinding, SpecBinding, SpecResolverEntry, lemma_first_dup_none, spec_alias_names,
    spec_first_dup, spec_instantiate_fields,
};
use crate::assemble::{
    SpecAliasInstance, SpecDeclaration, spec_alias_instances, spec_assemble, spec_effective_aliases,
    spec_shape_schema,
};
use crate::enums::{spec_complex_variant, spec_empty_schema};
use crate::model::{
    SpecContainerRules, SpecField, SpecSynthError, SpecTypeShape, SpecVariant, SpecVariantShape,
};
use crate::names::CaseRule;
use crate::node::{
    SpecAdditionalProps, SpecSchema, SpecSchemaKind, Meta, lemma_take_succ,
};
use crate::structs::{
    spec_field_included, spec_field_required, spec_field_wire_name, spec_flat_maps,
    spec_flat_plain_schemas, spec_homogeneous, spec_named_additional, spec_named_object,
    spec_named_struct, spec_object_props, spec_positional_struct, spec_required_names,
};

verus! {

/// Whether a field stands as a plain property of its parent object.
pub open spec fn included_pred() -> spec_fn(SpecField) -> bool {
    |f: SpecField| spec_field_included(f)
}

/// The property a field contributes: its wire name with its schema.
pub open spec fn prop_entry(rename_all: Option<CaseRule>) -> spec_fn(SpecField) -> (
    Seq<char>,
    SpecSchema,
) {
    |f: SpecField| (spec_field_wire_name(f, rename_all), f.schema)
}

/// Law: the object node of a named-field struct holds exactly its
/// non-skipped, non-flattened fields, each under its resolved wire name
/// with its resolved schema, in declaration order.
pub proof fn lemma_object_properties(fs: Seq<SpecField>, rename_all: Option<CaseRule>)
    ensures
        spec_object_props(fs, rename_all) == fs.filter(included_pred()).map_values(
            prop_entry(rename_all),
        ),
    decreases fs.len(),
{
    reveal(Seq::filter);
    let pred = included_pred();
    let entry = prop_entry(rename_all);
    if fs.len() == 0 {
        assert(fs.filter(pred).map_values(entry) =~= Seq::<(Seq<char>, SpecSchema)>::empty());
    } else {
        lemma_object_properties(fs.drop_last(), rename_all);
        let sub = fs.drop_last().filter(pred);
        if pred(fs.last()) {
            assert(fs.filter(pred) == sub.push(fs.last()));
            assert(sub.push(fs.last()).map_values(entry) =~= sub.map_values(entry).push(
                entry(fs.last()),
            ));
        } else {
            assert(fs.filter(pred) == sub);
        }
    }
}

/// The property names of a named-field struct, in order.
pub open spec fn spec_prop_names(fs: Seq<SpecField>, rename_all: Option<CaseRule>) -> Seq<
    Seq<char>,
> {
    spec_object_props(fs, rename_all).map_values(|p: (Seq<char>, SpecSchema)| p.0)
}

/// Every property name is the wire name of some included field.
proof fn lemma_prop_names_member(fs: Seq<SpecField>, rename_all: Option<CaseRule>, k: int)
    requires
        0 <= k < spec_prop_names(fs, rename_all).len(),
    ensures
        exists|i: int|
            0 <= i < fs.len() && spec_field_included(#[trigger] fs[i]) && spec_prop_names(
                fs,
                rename_all,
            )[k] == spec_field_wire_name(fs[i], rename_all),
    decreases fs.len(),
{
    if fs.len() > 0 {
        let names = spec_prop_names(fs, rename_all);
        let sub_names = spec_prop_names(fs.drop_last(), rename_all);
        if spec_field_included(fs.last()) {
            assert(names =~= sub_names.push(spec_field_wire_name(fs.last(), rename_all)));
            if k < sub_names.len() {
                lemma_prop_names_member(fs.drop_last(), rename_all, k);
                let i = choose|i: int|
                    0 <= i < fs.drop_last().len() && spec_field_included(
                        #[trigger] fs.drop_last()[i],
                    ) && sub_names[k] == spec_field_wire_name(fs.drop_last()[i], rename_all);
                assert(fs[i] == fs.drop_last()[i]);
                assert(spec_field_included(fs[i]) && names[k] == spec_field_wire_name(
                    fs[i],
                    rename_all,
                ));
            } else {
                assert(spec_field_included(fs[fs.len() - 1]) && names[k]
                    == spec_field_wire_name(fs[fs.len() - 1], rename_all));
            }
        } else {
            assert(names =~= sub_names);
            lemma_prop_names_member(fs.drop_last(), rename_all, k);
            let i = choose|i: int|
                0 <= i < fs.drop_last().len() && spec_field_included(#[trigger] fs.drop_last()[i])
                    && sub_names[k] == spec_field_wire_name(fs.drop_last()[i], rename_all);
            assert(fs[i] == fs.drop_last()[i]);
            assert(spec_field_included(fs[i]) && names[k] == spec_field_wire_name(
                fs[i],
                rename_all,
            ));
        }
    }
}

/// Law: when the included fields' wire names are pairwise distinct, the
/// object node carries no duplicate property name.
pub proof fn lemma_prop_names_no_duplicates(fs: Seq<SpecField>, rename_all: Option<CaseRule>)
    requires
        forall|i: int, j: int|
            0 <= i < j < fs.len() && spec_field_included(#[trigger] fs[i]) && spec_field_included(
                #[trigger] fs[j],
            ) ==> spec_field_wire_name(fs[i], rename_all) != spec_field_wire_name(
                fs[j],
                rename_all,
            ),
    ensures
        spec_prop_names(fs, rename_all).no_duplicates(),
    decreases fs.len(),
{
    if fs.len() > 0 {
        lemma_prop_names_no_duplicates(fs.drop_last(), rename_all);
        let names = spec_prop_names(fs, rename_all);
        let sub_names = spec_prop_names(fs.drop_last(), rename_all);
        if spec_field_included(fs.last()) {
            let last_name = spec_field_wire_name(fs.last(), rename_all);
            assert(names =~= sub_names.push(last_name));
            if sub_names.contains(last_name) {
                let k = choose|k: int| 0 <= k < sub_names.len() && sub_names[k] == last_name;
                lemma_prop_names_member(fs.drop_last(), rename_all, k);
                let i = choose|i: int|
                    0 <= i < fs.drop_last().len() && spec_field_included(
                        #[trigger] fs.drop_last()[i],
                    ) && sub_names[k] == spec_field_wire_name(fs.drop_last()[i], rename_all);
                assert(fs[i] == fs.drop_last()[i]);
                assert(spec_field_wire_name(fs[i], rename_all) == spec_field_wire_name(
                    fs[fs.len() - 1],
                    rename_all,
                ));
                assert(false);
            }
            assert(names.drop_last() =~= sub_names);
        } else {
            assert(names =~= sub_names);
        }
    }
}

/// Every required name is the wire name of some included, required field.
proof fn lemma_required_names_member(
    fs: Seq<SpecField>,
    c: SpecContainerRules,
    rename_all: Option<CaseRule>,
    k: int,
)
    requires
        0 <= k < spec_required_names(fs, c, rename_all).len(),
    ensures
        exists|i: int|
            0 <= i < fs.len() && spec_field_included(#[trigger] fs[i]) && spec_field_required(
                fs[i],
                c,
            ) && spec_required_names(fs, c, rename_all)[k] == spec_field_wire_name(
                fs[i],
                rename_all,
            ),
    decreases fs.len(),
{
    if fs.len() > 0 {
        let names = spec_required_names(fs, c, rename_all);
        let sub_names = spec_required_names(fs.drop_last(), c, rename_all);
        if spec_field_included(fs.last()) && spec_field_required(fs.last(), c) && k
            == sub_names.len() {
            assert(spec_field_included(fs[fs.len() - 1]) && spec_field_required(
                fs[fs.len() - 1],
                c,
            ) && names[k] == spec_field_wire_name(fs[fs.len() - 1], rename_all));
        } else {
            lemma_required_names_member(fs.drop_last(), c, rename_all, k);
            let i = choose|i: int|
                0 <= i < fs.drop_last().len() && spec_field_included(#[trigger] fs.drop_last()[i])
                    && spec_field_required(fs.drop_last()[i], c) && sub_names[k]
                    == spec_field_wire_name(fs.drop_last()[i], rename_all);
            assert(fs[i] == fs.drop_last()[i]);
            assert(spec_field_included(fs[i]) && spec_field_required(fs[i], c) && names[k]
                == spec_field_wire_name(fs[i], rename_all));
        }
    }
}

/// Law: an included field stands in the required set exactly when it is
/// neither optional nor defaulted, or its explicit override says so —
/// for every combination of the optionality, default and override flags,
/// as long as the included fields' wire names are pairwise distinct.
pub proof fn lemma_required_iff(
    fs: Seq<SpecField>,
    c: SpecContainerRules,
    rename_all: Option<CaseRule>,
    i: int,
)
    requires
        0 <= i < fs.len(),
        spec_field_included(fs[i]),
        forall|a: int, b: int|
            0 <= a < b < fs.len() && spec_field_included(#[trigger] fs[a]) && spec_field_included(
                #[trigger] fs[b],
            ) ==> spec_field_wire_name(fs[a], rename_all) != spec_field_wire_name(
                fs[b],
                rename_all,
            ),
    ensures
        spec_required_names(fs, c, rename_all).contains(spec_field_wire_name(fs[i], rename_all))
            <==> spec_field_required(fs[i], c),
    decreases fs.len(),
{
    let names = spec_required_names(fs, c, rename_all);
    let target = spec_field_wire_name(fs[i], rename_all);
    if spec_field_required(fs[i], c) {
        lemma_required_contains(fs, c, rename_all, i);
    }
    if names.contains(target) {
        let k = choose|k: int| 0 <= k < names.len() && names[k] == target;
        lemma_required_names_member(fs, c, rename_all, k);
        let j = choose|j: int|
            0 <= j < fs.len() && spec_field_included(#[trigger] fs[j]) && spec_field_required(
                fs[j],
                c,
            ) && names[k] == spec_field_wire_name(fs[j], rename_all);
        if j != i {
            assert(spec_field_wire_name(fs[i], rename_all) == spec_field_wire_name(
                fs[j],
                rename_all,
            ));
            assert(false);
        }
    }
}

/// A required included field's wire name is in the required set.
proof fn lemma_required_contains(
    fs: Seq<SpecField>,
    c: SpecContainerRules,
    rename_all: Option<CaseRule>,
    i: int,
)
    requires
        0 <= i < fs.len(),
        spec_field_included(fs[i]),
        spec_field_required(fs[i], c),
    ensures
        spec_required_names(fs, c, rename_all).contains(spec_field_wire_name(fs[i], rename_all)),
    decreases fs.len(),
{
    let names = spec_required_names(fs, c, rename_all);
    let sub_names = spec_required_names(fs.drop_last(), c, rename_all);
    if i == fs.len() - 1 {
        assert(names[sub_names.len() as int] == spec_field_wire_name(fs[i], rename_all));
    } else {
        lemma_required_contains(fs.drop_last(), c, rename_all, i);
        assert(fs.drop_last()[i] == fs[i]);
        let k = choose|k: int|
            0 <= k < sub_names.len() && sub_names[k] == spec_field_wire_name(
                fs.drop_last()[i],
                rename_all,
            );
        assert(names[k] == spec_field_wire_name(fs[i], rename_all));
    }
}

/// Law: with exactly one flattened free-form map and at least one plain
/// flattened field, the schema is a conjunction of the plain flattened
/// schemas with the object node last, and the map's schema constrains the
/// object's unknown properties.
pub proof fn lemma_flatten_composition(
    fs: Seq<SpecField>,
    c: SpecContainerRules,
    rename_all: Option<CaseRule>,
)
    requires
        spec_flat_maps(fs).len() == 1,
        spec_flat_plain_schemas(fs).len() >= 1,
    ensures
        spec_named_struct(fs, c, rename_all) == (SpecSchema {
            kind: SpecSchemaKind::AllOf {
                items: spec_flat_plain_schemas(fs).push(spec_named_object(fs, c, rename_all)),
            },
            meta: Meta::spec_none(),
        }),
        spec_named_additional(fs, c) == SpecAdditionalProps::Constrained(
            Box::new(spec_flat_maps(fs)[0].schema),
        ),
{
}

/// Law: a second flattened free-form map is always refused, naming both
/// offending fields.
pub proof fn lemma_multiple_flattened_maps(
    ident: Seq<char>,
    fs: Seq<SpecField>,
    c: SpecContainerRules,
    fra: Option<CaseRule>,
    repr_base: Option<Seq<char>>,
)
    requires
        spec_flat_maps(fs).len() >= 2,
    ensures
        spec_shape_schema(ident, SpecTypeShape::Named(fs), c, fra, repr_base) == Result::<
            SpecSchema,
            SpecSynthError,
        >::Err(SpecSynthError::MultipleFlattenedMaps {
            container: ident,
            first_field: spec_flat_maps(fs)[0].ident,
            second_field: spec_flat_maps(fs)[1].ident,
        }),
{
}

/// Law: a positional variant of two or more fields is refused under a
/// representation that stores the variant name inside or beside the value.
pub proof fn lemma_tagged_tuple_refused(
    enum_name: Seq<char>,
    v: SpecVariant,
    c: SpecContainerRules,
    rename_all: Option<CaseRule>,
)
    requires
        c.repr is Internal || c.repr is Adjacent,
        v.shape matches SpecVariantShape::Positional(fs) && fs.len() >= 2,
    ensures
        spec_complex_variant(enum_name, v, c, rename_all) == Result::<
            SpecSchema,
            SpecSynthError,
        >::Err(SpecSynthError::UnsupportedTaggedTuple { container: enum_name, variant: v.ident }),
{
}

/// Law: a positional struct whose fields all declare one shared type is an
/// array of that type's schema, with both length bounds pinned to the
/// field count.
pub proof fn lemma_homogeneous_positional(fs: Seq<SpecField>)
    requires
        fs.len() >= 2,
        spec_homogeneous(fs),
    ensures
        spec_positional_struct(fs) == (SpecSchema {
            kind: SpecSchemaKind::Array {
                item: Box::new(fs[0].schema),
                min_items: Option::Some(fs.len()),
                max_items: Option::Some(fs.len()),
            },
            meta: Meta::spec_none(),
        }),
{
}

/// Law: instantiating an alias substitutes the declared types and touches
/// nothing else: identifiers, rules, annotations, schemas and flags are
/// carried over field by field, in order.
pub proof fn lemma_instantiate_preserves(fs: Seq<SpecField>, bs: Seq<SpecBinding>)
    ensures
        spec_instantiate_fields(fs, bs).len() == fs.len(),
        forall|i: int|
            #![trigger spec_instantiate_fields(fs, bs)[i]]
            0 <= i < fs.len() ==> {
                let g = spec_instantiate_fields(fs, bs)[i];
                g.ident == fs[i].ident && g.rules == fs[i].rules && g.feature_rename
                    == fs[i].feature_rename && g.feature_default == fs[i].feature_default
                    && g.required_override == fs[i].required_override && g.schema == fs[i].schema
                    && g.is_optional == fs[i].is_optional && g.is_map_like == fs[i].is_map_like
                    && g.ty == crate::alias::spec_subst(fs[i].ty, bs)
            },
{
}

/// Law: instantiating an alias binding on a generic named-field container
/// yields the very schema of the container written concretely, with every
/// occurrence of the bound parameters replaced as the resolver view says.
pub proof fn lemma_alias_matches_concrete(
    d: SpecDeclaration,
    a: SpecAliasBinding,
    c: SpecDeclaration,
    es: Seq<SpecResolverEntry>,
)
    requires
        d.shape is Named,
        c.shape == SpecTypeShape::Named(
            crate::alias::spec_annotate_fields(
                spec_instantiate_fields(d.shape->Named_0, a.bindings),
                es,
            ),
        ),
        c.ident == d.ident,
        c.rules == d.rules,
        c.feature_rename_all == d.feature_rename_all,
        c.repr_base == d.repr_base,
        c.description == d.description,
        c.deprecated == d.deprecated,
        c.feature_deprecated == d.feature_deprecated,
        c.title == d.title,
        c.example == d.example,
        !c.has_type_params,
        crate::assemble::spec_alias_instance(d, a, es) is Ok,
    ensures
        spec_assemble(c, es) is Ok,
        crate::assemble::spec_alias_instance(d, a, es)->Ok_0.schema == spec_assemble(
            c,
            es,
        )->Ok_0.schema,
{
    let fs2 = crate::alias::spec_annotate_fields(
        spec_instantiate_fields(d.shape->Named_0, a.bindings),
        es,
    );
    assert(spec_flat_maps(fs2).len() <= 1);
    assert(spec_alias_names(spec_effective_aliases(c)) =~= Seq::<Seq<char>>::empty());
    assert(spec_first_dup(Seq::<Seq<char>>::empty()) is None);
    assert(spec_alias_instances(c, spec_effective_aliases(c), es) == Result::<
        Seq<SpecAliasInstance>,
        crate::model::SpecSynthError,
    >::Ok(Seq::empty()));
}

/// Law: a declaration that assembles at all introduces no duplicate alias
/// names.
pub proof fn lemma_alias_names_unique(d: SpecDeclaration, es: Seq<SpecResolverEntry>)
    requires
        spec_assemble(d, es) is Ok,
    ensures
        spec_alias_names(spec_effective_aliases(d)).no_duplicates(),
{
    lemma_first_dup_none(spec_alias_names(spec_effective_aliases(d)));
}

/// Law: the emitted aliases carry the declared alias names, in order: one
/// schema per binding, under its own fresh name.
pub proof fn lemma_alias_instance_names(
    d: SpecDeclaration,
    aliases: Seq<SpecAliasBinding>,
    es: Seq<SpecResolverEntry>,
)
    requires
        spec_alias_instances(d, aliases, es) is Ok,
    ensures
        spec_alias_instances(d, aliases, es)->Ok_0.map_values(|a: SpecAliasInstance| a.name)
            == spec_alias_names(aliases),
    decreases aliases.len(),
{
    if aliases.len() == 0 {
        assert(spec_alias_instances(d, aliases, es)->Ok_0.map_values(
            |a: SpecAliasInstance| a.name,
        ) =~= spec_alias_names(aliases));
    } else {
        lemma_alias_instance_names(d, aliases.drop_last(), es);
        let whole = spec_alias_instances(d, aliases, es)->Ok_0;
        let rest = spec_alias_instances(d, aliases.drop_last(), es)->Ok_0;
        assert(whole == rest.push(
            crate::assemble::spec_alias_instance(d, aliases.last(), es)->Ok_0,
        ));
        assert(whole.map_values(|a: SpecAliasInstance| a.name) =~= rest.map_values(
            |a: SpecAliasInstance| a.name,
        ).push(aliases.last().name));
        assert(spec_alias_names(aliases) =~= spec_alias_names(aliases.drop_last()).push(
            aliases.last().name,
        ));
    }
}

} // verus!
