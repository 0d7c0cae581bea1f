use vstd::prelude::*;
use crate::alias::{
    AliasBinding, ResolverEntry, SpecAliasBinding, SpecBinding, aliases_view, alias_lifetimes,
    alias_view, check_alias_names, format_path_ref, instantiate_annotated_fields, resolver_view,
    spec_alias_names, spec_annotate_fields, spec_dotted, spec_first_dup,
    spec_instantiate_fields, spec_lifetimes, spec_seg_names, SpecResolverEntry,
};
use crate::enums::{spec_enum_schema, spec_variants_wf, synth_enum, spec_empty_schema};
use crate::model::{
    ContainerRules, SpecContainerRules, SpecSynthError, SpecTypeShape, SynthError, TypeShape,
    dup_shape, res_view,
};
use crate::names::CaseRule;
use crate::node::{
    Meta, SchemaNode, SpecMeta, SpecSchema, lemma_take_succ, node_view, opt_str_view,
    strings_view,
};
use crate::structs::{
    spec_effective_rename_all, spec_flat_maps, spec_named_struct, spec_positional_struct,
    synth_named_struct, synth_positional_struct,
};
use crate::types::{SpecTypeExpr, SpecTypePath, TypePath, path_view};

verus! {

/// A type declaration as the synthesizer receives it: its shape, its
/// serialization rules, its schema features, and its alias bindings.
#[derive(Debug, PartialEq, Eq)]
pub struct Declaration {
    /// The declared type name.
    pub ident: String,
    /// The declaration's shape.
    pub shape: TypeShape,
    /// The declared serialization rules.
    pub rules: ContainerRules,
    /// A rename-all rule given as a schema feature.
    pub feature_rename_all: Option<CaseRule>,
    /// The numeric discriminant base type, when one is declared.
    pub repr_base: Option<String>,
    /// The accumulated doc-comment text.
    pub description: Option<String>,
    /// The declaration-level deprecation marker.
    pub deprecated: bool,
    /// A deprecation override given as a schema feature.
    pub feature_deprecated: bool,
    /// A title feature on the declaration.
    pub title: Option<String>,
    /// An example feature on the declaration.
    pub example: Option<String>,
    /// An explicit path to emit the schema under, instead of the identifier.
    pub schema_as: Option<TypePath>,
    /// Whether the declaration has type parameters; aliases apply only then.
    pub has_type_params: bool,
    /// The declared alias bindings.
    pub aliases: Vec<AliasBinding>,
}

/// Mathematical model of [`Declaration`].
#[verifier::ext_equal]
pub struct SpecDeclaration {
    pub ident: Seq<char>,
    pub shape: SpecTypeShape,
    pub rules: SpecContainerRules,
    pub feature_rename_all: Option<CaseRule>,
    pub repr_base: Option<Seq<char>>,
    pub description: Option<Seq<char>>,
    pub deprecated: bool,
    pub feature_deprecated: bool,
    pub title: Option<Seq<char>>,
    pub example: Option<Seq<char>>,
    pub schema_as: Option<SpecTypePath>,
    pub has_type_params: bool,
    pub aliases: Seq<SpecAliasBinding>,
}

/// View of an optional path.
pub open spec fn opt_path_view(o: Option<TypePath>) -> Option<SpecTypePath> {
    match o {
        Option::Some(p) => Option::Some(path_view(p)),
        Option::None => Option::None,
    }
}

impl View for Declaration {
    type V = SpecDeclaration;

    open spec fn view(&self) -> SpecDeclaration {
        SpecDeclaration {
            ident: self.ident@,
            shape: self.shape@,
            rules: self.rules@,
            feature_rename_all: self.feature_rename_all,
            repr_base: opt_str_view(self.repr_base),
            description: opt_str_view(self.description),
            deprecated: self.deprecated,
            feature_deprecated: self.feature_deprecated,
            title: opt_str_view(self.title),
            example: opt_str_view(self.example),
            schema_as: opt_path_view(self.schema_as),
            has_type_params: self.has_type_params,
            aliases: aliases_view(self.aliases@),
        }
    }
}

/// The shapes the synthesizer accepts: a positional struct or variant must
/// carry at least one field.
pub open spec fn spec_shape_wf(s: SpecTypeShape) -> bool {
    match s {
        SpecTypeShape::Positional(fs) => fs.len() >= 1,
        SpecTypeShape::Enum(vs) => spec_variants_wf(vs),
        _ => true,
    }
}

/// The externally visible schema name: the declared identifier, unless an
/// explicit path overrides it, rendered in its dotted form.
pub open spec fn spec_schema_name(d: SpecDeclaration) -> Seq<char> {
    match d.schema_as {
        Option::Some(p) => spec_dotted(spec_seg_names(p.segments)),
        Option::None => d.ident,
    }
}

/// The declaration's annotations folded onto a schema node: a non-empty
/// doc comment becomes the description, a declared or feature-level
/// deprecation marks the node, and title and example features override
/// what the node carried.
pub open spec fn spec_apply_meta(s: SpecSchema, d: SpecDeclaration) -> SpecSchema {
    SpecSchema {
        kind: s.kind,
        meta: SpecMeta {
            description: match d.description {
                Option::Some(t) => if t.len() > 0 {
                    Option::Some(t)
                } else {
                    s.meta.description
                },
                Option::None => s.meta.description,
            },
            deprecated: s.meta.deprecated || d.deprecated || d.feature_deprecated,
            title: match d.title {
                Option::Some(t) => Option::Some(t),
                Option::None => s.meta.title,
            },
            example: match d.example {
                Option::Some(e) => Option::Some(e),
                Option::None => s.meta.example,
            },
        },
    }
}

/// The bare schema of a shape, before annotations.
pub open spec fn spec_shape_schema(
    ident: Seq<char>,
    shape: SpecTypeShape,
    c: SpecContainerRules,
    fra: Option<CaseRule>,
    repr_base: Option<Seq<char>>,
) -> Result<SpecSchema, SpecSynthError> {
    match shape {
        SpecTypeShape::Named(fs) => if spec_flat_maps(fs).len() <= 1 {
            Result::Ok(spec_named_struct(fs, c, spec_effective_rename_all(c.rename_all, fra)))
        } else {
            Result::Err(SpecSynthError::MultipleFlattenedMaps {
                container: ident,
                first_field: spec_flat_maps(fs)[0].ident,
                second_field: spec_flat_maps(fs)[1].ident,
            })
        },
        SpecTypeShape::Positional(fs) => Result::Ok(spec_positional_struct(fs)),
        SpecTypeShape::Unit => Result::Ok(spec_empty_schema()),
        SpecTypeShape::Enum(vs) => spec_enum_schema(ident, vs, c, fra, repr_base),
    }
}

/// The lifetimes an alias's bindings must thread through, or the first
/// binding whose target is no named path.
pub open spec fn spec_binding_lifetimes(
    ident: Seq<char>,
    bs: Seq<SpecBinding>,
) -> Result<Seq<Seq<char>>, SpecSynthError>
    decreases bs.len(),
{
    if bs.len() == 0 {
        Result::Ok(Seq::empty())
    } else {
        match spec_binding_lifetimes(ident, bs.drop_last()) {
            Result::Err(e) => Result::Err(e),
            Result::Ok(ls) => match bs.last().ty {
                SpecTypeExpr::Other { form } => Result::Err(
                    SpecSynthError::UnsupportedAliasTarget { container: ident, form: form },
                ),
                SpecTypeExpr::Path(p) => Result::Ok(ls + spec_lifetimes(bs.last().ty)),
            },
        }
    }
}

/// One emitted alias: its fresh name, its schema, and the lifetimes its
/// declaration must carry.
#[derive(Debug, PartialEq, Eq)]
pub struct AliasInstance {
    pub name: String,
    pub schema: SchemaNode,
    pub lifetimes: Vec<String>,
}

/// Mathematical model of [`AliasInstance`].
#[verifier::ext_equal]
pub struct SpecAliasInstance {
    pub name: Seq<char>,
    pub schema: SpecSchema,
    pub lifetimes: Seq<Seq<char>>,
}

/// View of one alias instance.
pub open spec fn instance_view(a: AliasInstance) -> SpecAliasInstance {
    SpecAliasInstance {
        name: a.name@,
        schema: node_view(a.schema),
        lifetimes: strings_view(a.lifetimes@),
    }
}

/// View of an instance list.
pub open spec fn instances_view(instances: Seq<AliasInstance>) -> Seq<SpecAliasInstance> {
    Seq::new(instances.len(), |i: int| instance_view(instances[i]))
}

/// The schema emitted for one alias: a named-field struct is re-annotated
/// under the substituted types; any other shape repeats the primary
/// schema.
pub open spec fn spec_alias_instance(
    d: SpecDeclaration,
    a: SpecAliasBinding,
    es: Seq<SpecResolverEntry>,
) -> Result<SpecAliasInstance, SpecSynthError> {
    match spec_binding_lifetimes(d.ident, a.bindings) {
        Result::Err(e) => Result::Err(e),
        Result::Ok(lts) => {
            let shape_res = match d.shape {
                SpecTypeShape::Named(fs) => {
                    let fs2 = spec_annotate_fields(spec_instantiate_fields(fs, a.bindings), es);
                    if spec_flat_maps(fs2).len() <= 1 {
                        Result::<SpecSchema, SpecSynthError>::Ok(
                            spec_named_struct(
                                fs2,
                                d.rules,
                                spec_effective_rename_all(d.rules.rename_all, d.feature_rename_all),
                            ),
                        )
                    } else {
                        Result::Err(SpecSynthError::MultipleFlattenedMaps {
                            container: d.ident,
                            first_field: spec_flat_maps(fs2)[0].ident,
                            second_field: spec_flat_maps(fs2)[1].ident,
                        })
                    }
                },
                _ => spec_shape_schema(d.ident, d.shape, d.rules, d.feature_rename_all, d.repr_base),
            };
            match shape_res {
                Result::Err(e) => Result::Err(e),
                Result::Ok(s) => Result::Ok(
                    SpecAliasInstance {
                        name: a.name,
                        schema: spec_apply_meta(s, d),
                        lifetimes: lts,
                    },
                ),
            }
        },
    }
}

/// The emitted aliases, in declaration order; the first refusal wins.
pub open spec fn spec_alias_instances(
    d: SpecDeclaration,
    aliases: Seq<SpecAliasBinding>,
    es: Seq<SpecResolverEntry>,
) -> Result<Seq<SpecAliasInstance>, SpecSynthError>
    decreases aliases.len(),
{
    if aliases.len() == 0 {
        Result::Ok(Seq::empty())
    } else {
        match spec_alias_instances(d, aliases.drop_last(), es) {
            Result::Err(e) => Result::Err(e),
            Result::Ok(rest) => match spec_alias_instance(d, aliases.last(), es) {
                Result::Err(e) => Result::Err(e),
                Result::Ok(inst) => Result::Ok(rest.push(inst)),
            },
        }
    }
}

/// The aliases in force: none unless the declaration is generic.
pub open spec fn spec_effective_aliases(d: SpecDeclaration) -> Seq<SpecAliasBinding> {
    if d.has_type_params {
        d.aliases
    } else {
        Seq::empty()
    }
}

/// The assembled output: the resolved schema name, the primary schema, and
/// one schema per alias.
#[derive(Debug, PartialEq, Eq)]
pub struct Assembled {
    pub name: String,
    pub schema: SchemaNode,
    pub aliases: Vec<AliasInstance>,
}

/// Mathematical model of [`Assembled`].
#[verifier::ext_equal]
pub struct SpecAssembled {
    pub name: Seq<char>,
    pub schema: SpecSchema,
    pub aliases: Seq<SpecAliasInstance>,
}

/// View of an assembled output.
pub open spec fn assembled_view(a: Assembled) -> SpecAssembled {
    SpecAssembled {
        name: a.name@,
        schema: node_view(a.schema),
        aliases: instances_view(a.aliases@),
    }
}

/// View of an assembly result.
pub open spec fn assembled_res_view(r: Result<Assembled, SynthError>) -> Result<
    SpecAssembled,
    SpecSynthError,
> {
    match r {
        Result::Ok(a) => Result::Ok(assembled_view(a)),
        Result::Err(e) => Result::Err(e@),
    }
}

/// What assembling a declaration yields: its shape's schema with the
/// declaration's annotations, under its resolved name, with one more
/// schema per alias; or the first refusal, with the primary shape judged
/// first, then the alias names, then each alias in order.
pub open spec fn spec_assemble(d: SpecDeclaration, es: Seq<SpecResolverEntry>) -> Result<
    SpecAssembled,
    SpecSynthError,
> {
    match spec_shape_schema(d.ident, d.shape, d.rules, d.feature_rename_all, d.repr_base) {
        Result::Err(e) => Result::Err(e),
        Result::Ok(s) => match spec_first_dup(spec_alias_names(spec_effective_aliases(d))) {
            Option::Some(dup) => Result::Err(
                SpecSynthError::MalformedDeclaration { container: d.ident, offender: dup },
            ),
            Option::None => match spec_alias_instances(d, spec_effective_aliases(d), es) {
                Result::Err(e) => Result::Err(e),
                Result::Ok(insts) => Result::Ok(
                    SpecAssembled {
                        name: spec_schema_name(d),
                        schema: spec_apply_meta(s, d),
                        aliases: insts,
                    },
                ),
            },
        },
    }
}

/// A refusal among the first aliases settles the whole list.
proof fn lemma_alias_instances_err(
    d: SpecDeclaration,
    aliases: Seq<SpecAliasBinding>,
    es: Seq<SpecResolverEntry>,
    i: int,
)
    requires
        0 <= i <= aliases.len(),
        spec_alias_instances(d, aliases.take(i), es) is Err,
    ensures
        spec_alias_instances(d, aliases, es) == spec_alias_instances(d, aliases.take(i), es),
    decreases aliases.len() - i,
{
    if i == aliases.len() {
        assert(aliases.take(i) =~= aliases);
    } else {
        lemma_take_succ(aliases, i);
        assert(spec_alias_instances(d, aliases.take(i + 1), es) == spec_alias_instances(
            d,
            aliases.take(i),
            es,
        ));
        lemma_alias_instances_err(d, aliases, es, i + 1);
    }
}

/// A refusal among the first bindings settles the whole list.
proof fn lemma_binding_lifetimes_err(ident: Seq<char>, bs: Seq<SpecBinding>, i: int)
    requires
        0 <= i <= bs.len(),
        spec_binding_lifetimes(ident, bs.take(i)) is Err,
    ensures
        spec_binding_lifetimes(ident, bs) == spec_binding_lifetimes(ident, bs.take(i)),
    decreases bs.len() - i,
{
    if i == bs.len() {
        assert(bs.take(i) =~= bs);
    } else {
        lemma_take_succ(bs, i);
        assert(spec_binding_lifetimes(ident, bs.take(i + 1)) == spec_binding_lifetimes(
            ident,
            bs.take(i),
        ));
        lemma_binding_lifetimes_err(ident, bs, i + 1);
    }
}

/// Builds the bare schema of a shape.
fn synth_shape(
    ident: &String,
    shape: TypeShape,
    rules: &ContainerRules,
    fra: Option<CaseRule>,
    repr_base: &Option<String>,
) -> (r: Result<SchemaNode, SynthError>)
    requires
        spec_shape_wf(shape@),
    ensures
        res_view(r) == spec_shape_schema(ident@, shape@, rules@, fra, opt_str_view(*repr_base)),
{
    match shape {
        TypeShape::Named(fs) => synth_named_struct(ident, fs, rules, fra),
        TypeShape::Positional(fs) => {
            proof {
                assert(crate::model::fields_view(fs@).len() >= 1);
            }
            Ok(synth_positional_struct(fs))
        },
        TypeShape::Unit => Ok(SchemaNode::empty()),
        TypeShape::Enum(vs) => synth_enum(ident, vs, rules, fra, repr_base),
    }
}

/// Folds the declaration's annotations onto a schema node.
fn apply_meta(s: SchemaNode, d: &Declaration) -> (r: SchemaNode)
    ensures
        node_view(r) == spec_apply_meta(node_view(s), d@),
{
    let SchemaNode { kind, meta } = s;
    let description = match &d.description {
        Some(t) => if t.as_str().unicode_len() > 0 {
            Some(t.clone())
        } else {
            meta.description
        },
        None => meta.description,
    };
    let deprecated = meta.deprecated || d.deprecated || d.feature_deprecated;
    let title = match &d.title {
        Some(t) => Some(t.clone()),
        None => meta.title,
    };
    let example = match &d.example {
        Some(e) => Some(e.clone()),
        None => meta.example,
    };
    SchemaNode { kind, meta: Meta { description, deprecated, title, example } }
}

/// Assembles the schema of one declaration: dispatches on its shape,
/// folds the declaration's annotations on, resolves the emitted name, and
/// instantiates each declared alias. Nothing partial is ever returned:
/// the first refusal ends the whole declaration.
pub fn assemble(d: Declaration, entries: &Vec<ResolverEntry>) -> (r: Result<Assembled, SynthError>)
    requires
        spec_shape_wf(d@.shape),
    ensures
        assembled_res_view(r) == spec_assemble(d@, resolver_view(entries@)),
{
    let ghost dv = d@;
    let ghost ev = resolver_view(entries@);
    let primary = {
        let shape_copy = dup_shape(&d.shape);
        synth_shape(&d.ident, shape_copy, &d.rules, d.feature_rename_all, &d.repr_base)
    };
    let primary = match primary {
        Ok(s) => s,
        Err(e) => {
            return Err(e);
        },
    };
    let primary = apply_meta(primary, &d);
    let mut instances: Vec<AliasInstance> = Vec::new();
    if d.has_type_params {
        proof {
            assert(spec_effective_aliases(dv) == dv.aliases);
        }
        match check_alias_names(&d.aliases, &d.ident) {
            Err(e) => {
                return Err(e);
            },
            Ok(u) => u,
        };
        let n = d.aliases.len();
        let mut i: usize = 0;
        proof {
            assert(dv.aliases.take(0) =~= Seq::<SpecAliasBinding>::empty());
            assert(instances_view(instances@) =~= Seq::<SpecAliasInstance>::empty());
        }
        while i < n
            invariant
                n == d.aliases@.len(),
                dv == d@,
                ev == resolver_view(entries@),
                spec_shape_wf(dv.shape),
                dv.has_type_params,
                spec_shape_schema(dv.ident, dv.shape, dv.rules, dv.feature_rename_all, dv.repr_base)
                    is Ok,
                spec_first_dup(spec_alias_names(spec_effective_aliases(dv))) is None,
                i <= n,
                spec_alias_instances(dv, dv.aliases.take(i as int), ev) == Result::<
                    Seq<SpecAliasInstance>,
                    SpecSynthError,
                >::Ok(instances_view(instances@)),
            decreases n - i,
        {
            proof {
                lemma_take_succ(dv.aliases, i as int);
                assert(dv.aliases[i as int] == alias_view(d.aliases@[i as int]));
            }
            let a = &d.aliases[i];
            let ghost av = alias_view(d.aliases@[i as int]);
            let mut lts: Vec<String> = Vec::new();
            let m = a.bindings.len();
            let mut j: usize = 0;
            proof {
                assert(av.bindings.take(0) =~= Seq::<SpecBinding>::empty());
                assert(strings_view(lts@) =~= Seq::<Seq<char>>::empty());
            }
            while j < m
                invariant
                    dv == d@,
                    ev == resolver_view(entries@),
                    dv.has_type_params,
                    spec_shape_schema(
                        dv.ident,
                        dv.shape,
                        dv.rules,
                        dv.feature_rename_all,
                        dv.repr_base,
                    ) is Ok,
                    spec_first_dup(spec_alias_names(spec_effective_aliases(dv))) is None,
                    i < d.aliases@.len(),
                    *a == d.aliases@[i as int],
                    av == alias_view(d.aliases@[i as int]),
                    spec_alias_instances(dv, dv.aliases.take(i as int), ev) == Result::<
                        Seq<SpecAliasInstance>,
                        SpecSynthError,
                    >::Ok(instances_view(instances@)),
                    m == a.bindings@.len(),
                    av.bindings.len() == m,
                    j <= m,
                    spec_binding_lifetimes(dv.ident, av.bindings.take(j as int)) == Result::<
                        Seq<Seq<char>>,
                        SpecSynthError,
                    >::Ok(strings_view(lts@)),
                decreases m - j,
            {
                proof {
                    lemma_take_succ(av.bindings, j as int);
                    assert(av.bindings[j as int] == crate::alias::binding_view(
                        a.bindings@[j as int],
                    ));
                }
                match alias_lifetimes(&a.bindings[j].ty, &d.ident) {
                    Ok(mut ls) => {
                        let ghost lts0 = lts@;
                        let ghost lsv = ls@;
                        lts.append(&mut ls);
                        proof {
                            assert(lts@ == lts0 + lsv);
                            assert(strings_view(lts0 + lsv) =~= strings_view(lts0)
                                + strings_view(lsv));
                        }
                    },
                    Err(e) => {
                        proof {
                            assert(spec_binding_lifetimes(dv.ident, av.bindings.take(j as int + 1))
                                == Result::<Seq<Seq<char>>, SpecSynthError>::Err(e@));
                            lemma_binding_lifetimes_err(dv.ident, av.bindings, j as int + 1);
                            assert(spec_alias_instance(dv, av, ev) == Result::<
                                SpecAliasInstance,
                                SpecSynthError,
                            >::Err(e@));
                            lemma_take_succ(dv.aliases, i as int);
                            assert(dv.aliases[i as int] == av);
                            assert(spec_alias_instances(dv, dv.aliases.take(i as int + 1), ev)
                                == Result::<Seq<SpecAliasInstance>, SpecSynthError>::Err(e@));
                            lemma_alias_instances_err(dv, dv.aliases, ev, i as int + 1);
                        }
                        return Err(e);
                    },
                }
                j += 1;
            }
            proof {
                assert(av.bindings.take(m as int) =~= av.bindings);
            }
            let inst_schema = match &d.shape {
                TypeShape::Named(fs) => {
                    let fs2 = instantiate_annotated_fields(fs, &a.bindings, entries);
                    synth_named_struct(&d.ident, fs2, &d.rules, d.feature_rename_all)
                },
                _ => {
                    let sc = dup_shape(&d.shape);
                    synth_shape(&d.ident, sc, &d.rules, d.feature_rename_all, &d.repr_base)
                },
            };
            match inst_schema {
                Err(e) => {
                    proof {
                        assert(spec_alias_instance(dv, av, ev) == Result::<
                            SpecAliasInstance,
                            SpecSynthError,
                        >::Err(e@));
                        lemma_alias_instances_err(dv, dv.aliases, ev, i as int + 1);
                    }
                    return Err(e);
                },
                Ok(s) => {
                    let s = apply_meta(s, &d);
                    let ghost inst0 = instances@;
                    instances.push(AliasInstance { name: a.name.clone(), schema: s, lifetimes: lts });
                    proof {
                        assert(instances_view(instances@) =~= instances_view(inst0).push(
                            instance_view(instances@.last()),
                        ));
                    }
                },
            }
            i += 1;
        }
        proof {
            assert(dv.aliases.take(n as int) =~= dv.aliases);
        }
    } else {
        proof {
            assert(spec_effective_aliases(dv) =~= Seq::<SpecAliasBinding>::empty());
            assert(instances_view(instances@) =~= Seq::<SpecAliasInstance>::empty());
        }
    }
    let name = match &d.schema_as {
        Some(p) => format_path_ref(p),
        None => d.ident.clone(),
    };
    Ok(Assembled { name, schema: primary, aliases: instances })
}

} // verus!
