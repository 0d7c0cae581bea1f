use vstd::prelude::*;
use crate::model::{Field, SpecField, SpecSynthError, SynthError, field_view, fields_view};
use crate::node::{lemma_take_succ, opt_str_view, strings_view};
use crate::types::{
    PathSeg, SpecPathSeg, SpecTypeArg, SpecTypeExpr, SpecTypePath, TypeArg, TypeExpr, TypePath,
    arg_view, args_view, dup_type_expr, lemma_args_view_index, lemma_segs_view_index, path_view,
    seg_view, segs_view, type_expr_view,
};

verus! {

/// One substitution: a type parameter bound to a concrete type.
#[derive(Debug, PartialEq, Eq)]
pub struct Binding {
    pub param: String,
    pub ty: TypeExpr,
}

/// Mathematical model of [`Binding`].
#[verifier::ext_equal]
pub struct SpecBinding {
    pub param: Seq<char>,
    pub ty: SpecTypeExpr,
}

/// View of one binding.
pub open spec fn binding_view(b: Binding) -> SpecBinding {
    SpecBinding { param: b.param@, ty: type_expr_view(b.ty) }
}

/// View of a binding list.
pub open spec fn bindings_view(bs: Seq<Binding>) -> Seq<SpecBinding> {
    Seq::new(bs.len(), |i: int| binding_view(bs[i]))
}

/// A named alias: a fresh public name with its parameter substitutions.
#[derive(Debug, PartialEq, Eq)]
pub struct AliasBinding {
    pub name: String,
    pub bindings: Vec<Binding>,
}

/// Mathematical model of [`AliasBinding`].
#[verifier::ext_equal]
pub struct SpecAliasBinding {
    pub name: Seq<char>,
    pub bindings: Seq<SpecBinding>,
}

/// View of one alias binding.
pub open spec fn alias_view(a: AliasBinding) -> SpecAliasBinding {
    SpecAliasBinding { name: a.name@, bindings: bindings_view(a.bindings@) }
}

/// View of an alias list.
pub open spec fn aliases_view(aliases: Seq<AliasBinding>) -> Seq<SpecAliasBinding> {
    Seq::new(aliases.len(), |i: int| alias_view(aliases[i]))
}

/// The concrete type bound to a parameter name, if any; the first binding
/// of a name wins.
pub open spec fn spec_lookup(bs: Seq<SpecBinding>, name: Seq<char>) -> Option<SpecTypeExpr>
    decreases bs.len(),
{
    if bs.len() == 0 {
        Option::None
    } else if bs[0].param == name {
        Option::Some(bs[0].ty)
    } else {
        spec_lookup(bs.drop_first(), name)
    }
}

/// The parameter name a type consists of, when it is a bare single-segment
/// path without arguments.
pub open spec fn spec_param_ref(t: SpecTypeExpr) -> Option<Seq<char>> {
    match t {
        SpecTypeExpr::Path(p) => if p.segments.len() == 1 && p.segments[0].args.len() == 0 {
            Option::Some(p.segments[0].name)
        } else {
            Option::None
        },
        SpecTypeExpr::Other { form } => Option::None,
    }
}

/// Substitutes bound type parameters throughout a type expression: a bare
/// reference to a bound parameter becomes its concrete type; any other
/// path keeps its spine and substitutes inside its generic arguments.
pub open spec fn spec_subst(t: SpecTypeExpr, bs: Seq<SpecBinding>) -> SpecTypeExpr
    decreases t,
{
    match t {
        SpecTypeExpr::Path(p) => match spec_param_ref(t) {
            Option::Some(name) => match spec_lookup(bs, name) {
                Option::Some(replacement) => replacement,
                Option::None => SpecTypeExpr::Path(
                    SpecTypePath { segments: spec_subst_segs(p.segments, bs) },
                ),
            },
            Option::None => SpecTypeExpr::Path(
                SpecTypePath { segments: spec_subst_segs(p.segments, bs) },
            ),
        },
        SpecTypeExpr::Other { form } => t,
    }
}

/// Substitution inside a segment list.
pub open spec fn spec_subst_segs(ss: Seq<SpecPathSeg>, bs: Seq<SpecBinding>) -> Seq<SpecPathSeg>
    decreases ss,
{
    if ss.len() == 0 {
        Seq::empty()
    } else {
        spec_subst_segs(ss.subrange(0, ss.len() - 1), bs).push(spec_subst_seg(ss.last(), bs))
    }
}

/// Substitution inside one segment: the name stays, the arguments are
/// rewritten.
pub open spec fn spec_subst_seg(s: SpecPathSeg, bs: Seq<SpecBinding>) -> SpecPathSeg
    decreases s,
{
    SpecPathSeg { name: s.name, args: spec_subst_args(s.args, bs) }
}

/// Substitution inside an argument list.
pub open spec fn spec_subst_args(args: Seq<SpecTypeArg>, bs: Seq<SpecBinding>) -> Seq<SpecTypeArg>
    decreases args,
{
    if args.len() == 0 {
        Seq::empty()
    } else {
        spec_subst_args(args.subrange(0, args.len() - 1), bs).push(
            spec_subst_arg(args.last(), bs),
        )
    }
}

/// Substitution inside one argument: a lifetime stays, a type is rewritten.
pub open spec fn spec_subst_arg(a: SpecTypeArg, bs: Seq<SpecBinding>) -> SpecTypeArg
    decreases a,
{
    match a {
        SpecTypeArg::Ty(t) => SpecTypeArg::Ty(spec_subst(t, bs)),
        SpecTypeArg::Lifetime(l) => a,
    }
}

/// Substituted segment lists are pointwise substitutions.
pub proof fn lemma_subst_segs_index(ss: Seq<SpecPathSeg>, bs: Seq<SpecBinding>)
    ensures
        spec_subst_segs(ss, bs).len() == ss.len(),
        forall|i: int|
            0 <= i < ss.len() ==> spec_subst_segs(ss, bs)[i] == spec_subst_seg(ss[i], bs),
    decreases ss.len(),
{
    if ss.len() > 0 {
        lemma_subst_segs_index(ss.subrange(0, ss.len() - 1), bs);
        assert(forall|i: int| 0 <= i < ss.len() - 1 ==> ss.subrange(0, ss.len() - 1)[i] == ss[i]);
    }
}

/// Substituted argument lists are pointwise substitutions.
pub proof fn lemma_subst_args_index(args: Seq<SpecTypeArg>, bs: Seq<SpecBinding>)
    ensures
        spec_subst_args(args, bs).len() == args.len(),
        forall|i: int|
            0 <= i < args.len() ==> spec_subst_args(args, bs)[i] == spec_subst_arg(args[i], bs),
    decreases args.len(),
{
    if args.len() > 0 {
        lemma_subst_args_index(args.subrange(0, args.len() - 1), bs);
        assert(forall|i: int|
            0 <= i < args.len() - 1 ==> args.subrange(0, args.len() - 1)[i] == args[i]);
    }
}

/// Whether a bare reference to the named parameter occurs anywhere in a
/// type expression.
pub open spec fn spec_occurs(t: SpecTypeExpr, name: Seq<char>) -> bool
    decreases t,
{
    match t {
        SpecTypeExpr::Path(p) => spec_param_ref(t) == Option::Some(name) || spec_occurs_segs(
            p.segments,
            name,
        ),
        SpecTypeExpr::Other { form } => false,
    }
}

/// Occurrence inside a segment list.
pub open spec fn spec_occurs_segs(ss: Seq<SpecPathSeg>, name: Seq<char>) -> bool
    decreases ss,
{
    if ss.len() == 0 {
        false
    } else {
        spec_occurs_segs(ss.subrange(0, ss.len() - 1), name) || spec_occurs_args(
            ss.last().args,
            name,
        )
    }
}

/// Occurrence inside an argument list.
pub open spec fn spec_occurs_args(args: Seq<SpecTypeArg>, name: Seq<char>) -> bool
    decreases args,
{
    if args.len() == 0 {
        false
    } else {
        spec_occurs_args(args.subrange(0, args.len() - 1), name) || (match args.last() {
            SpecTypeArg::Ty(t) => spec_occurs(t, name),
            SpecTypeArg::Lifetime(l) => false,
        })
    }
}

/// A found binding came from the list.
proof fn lemma_lookup_found(bs: Seq<SpecBinding>, name: Seq<char>)
    requires
        spec_lookup(bs, name) is Some,
    ensures
        exists|j: int|
            0 <= j < bs.len() && (#[trigger] bs[j]).param == name && spec_lookup(bs, name)
                == Option::Some(bs[j].ty),
    decreases bs.len(),
{
    if bs.len() > 0 {
        if bs[0].param == name {
            assert(0 <= 0 < bs.len() && bs[0].param == name && spec_lookup(bs, name)
                == Option::Some(bs[0].ty));
        } else {
            lemma_lookup_found(bs.drop_first(), name);
            let j0 = choose|j: int|
                0 <= j < bs.drop_first().len() && (#[trigger] bs.drop_first()[j]).param == name
                    && spec_lookup(bs.drop_first(), name) == Option::Some(bs.drop_first()[j].ty);
            assert(bs[j0 + 1] == bs.drop_first()[j0]);
        }
    }
}

/// No replacement in the list mentions the named parameter.
pub open spec fn spec_bindings_avoid(bs: Seq<SpecBinding>, name: Seq<char>) -> bool {
    forall|j: int| 0 <= j < bs.len() ==> !spec_occurs((#[trigger] bs[j]).ty, name)
}

/// Substitution eliminates every occurrence of a bound parameter whose
/// replacements do not themselves mention it.
pub proof fn lemma_subst_eliminates(t: SpecTypeExpr, bs: Seq<SpecBinding>, name: Seq<char>)
    requires
        spec_lookup(bs, name) is Some,
        spec_bindings_avoid(bs, name),
    ensures
        !spec_occurs(spec_subst(t, bs), name),
    decreases t,
{
    match t {
        SpecTypeExpr::Other { form } => {},
        SpecTypeExpr::Path(p) => {
            match spec_param_ref(t) {
                Option::Some(pname) => {
                    match spec_lookup(bs, pname) {
                        Option::Some(replacement) => {
                            lemma_lookup_found(bs, pname);
                            let j = choose|j: int|
                                0 <= j < bs.len() && (#[trigger] bs[j]).param == pname
                                    && spec_lookup(bs, pname) == Option::Some(bs[j].ty);
                            assert(!spec_occurs(bs[j].ty, name));
                        },
                        Option::None => {
                            assert(pname != name);
                            lemma_subst_segs_index(p.segments, bs);
                            let out = spec_subst_segs(p.segments, bs);
                            assert(out[0] == spec_subst_seg(p.segments[0], bs));
                            lemma_subst_args_index(p.segments[0].args, bs);
                            assert(out[0].args.len() == 0);
                            assert(out.last() == out[0]);
                            assert(spec_occurs_args(out[0].args, name) == false);
                            assert(out.subrange(0, out.len() - 1) =~= Seq::<SpecPathSeg>::empty());
                            assert(spec_occurs_segs(Seq::<SpecPathSeg>::empty(), name) == false);
                            assert(spec_occurs_args(out[0].args, name) == false);
                            assert(!spec_occurs_segs(out, name));
                            let result = SpecTypeExpr::Path(SpecTypePath { segments: out });
                            assert(spec_param_ref(result) == Option::Some(pname));
                        },
                    }
                },
                Option::None => {
                    lemma_subst_eliminates_segs(p.segments, bs, name);
                    lemma_subst_segs_index(p.segments, bs);
                    let out = spec_subst_segs(p.segments, bs);
                    let result = SpecTypeExpr::Path(SpecTypePath { segments: out });
                    if out.len() == 1 && out[0].args.len() == 0 {
                        lemma_subst_args_index(p.segments[0].args, bs);
                        assert(p.segments.len() == 1 && p.segments[0].args.len() == 0);
                        assert(false);
                    }
                    assert(spec_param_ref(result) is None);
                },
            }
        },
    }
}

/// Substitution eliminates the parameter throughout a segment list.
proof fn lemma_subst_eliminates_segs(ss: Seq<SpecPathSeg>, bs: Seq<SpecBinding>, name: Seq<char>)
    requires
        spec_lookup(bs, name) is Some,
        spec_bindings_avoid(bs, name),
    ensures
        !spec_occurs_segs(spec_subst_segs(ss, bs), name),
    decreases ss,
{
    if ss.len() > 0 {
        lemma_subst_eliminates_segs(ss.subrange(0, ss.len() - 1), bs, name);
        lemma_subst_eliminates_args(ss.last().args, bs, name);
        let out = spec_subst_segs(ss, bs);
        assert(out.drop_last() == spec_subst_segs(ss.subrange(0, ss.len() - 1), bs));
        assert(out.drop_last() =~= out.subrange(0, out.len() - 1));
        assert(out.last() == spec_subst_seg(ss.last(), bs));
    }
}

/// Substitution eliminates the parameter throughout an argument list.
proof fn lemma_subst_eliminates_args(args: Seq<SpecTypeArg>, bs: Seq<SpecBinding>, name: Seq<char>)
    requires
        spec_lookup(bs, name) is Some,
        spec_bindings_avoid(bs, name),
    ensures
        !spec_occurs_args(spec_subst_args(args, bs), name),
    decreases args,
{
    if args.len() > 0 {
        lemma_subst_eliminates_args(args.subrange(0, args.len() - 1), bs, name);
        match args.last() {
            SpecTypeArg::Ty(t) => {
                lemma_subst_eliminates(t, bs, name);
            },
            SpecTypeArg::Lifetime(l) => {},
        }
        let out = spec_subst_args(args, bs);
        assert(out.drop_last() == spec_subst_args(args.subrange(0, args.len() - 1), bs));
        assert(out.drop_last() =~= out.subrange(0, out.len() - 1));
        assert(out.last() == spec_subst_arg(args.last(), bs));
    }
}

/// Looks a parameter name up among the bindings.
fn lookup_binding<'a>(bindings: &'a Vec<Binding>, name: &String) -> (r: Option<&'a TypeExpr>)
    ensures
        match r {
            Option::Some(t) => spec_lookup(bindings_view(bindings@), name@) == Option::Some(
                type_expr_view(*t),
            ),
            Option::None => spec_lookup(bindings_view(bindings@), name@) is None,
        },
{
    let ghost bv = bindings_view(bindings@);
    let n = bindings.len();
    let mut i: usize = 0;
    proof {
        assert(bv.skip(0) =~= bv);
    }
    while i < n
        invariant
            n == bindings@.len(),
            bv == bindings_view(bindings@),
            i <= n,
            spec_lookup(bv, name@) == spec_lookup(bv.skip(i as int), name@),
        decreases n - i,
    {
        proof {
            assert(bv.skip(i as int)[0] == bv[i as int]);
        }
        if bindings[i].param == *name {
            return Some(&bindings[i].ty);
        }
        proof {
            assert(bv.skip(i as int).drop_first() =~= bv.skip(i as int + 1));
        }
        i += 1;
    }
    proof {
        assert(bv.skip(n as int) =~= Seq::<SpecBinding>::empty());
    }
    None
}

/// Applies the bindings throughout a type expression.
pub fn subst_type(t: &TypeExpr, bindings: &Vec<Binding>) -> (r: TypeExpr)
    ensures
        type_expr_view(r) == spec_subst(type_expr_view(*t), bindings_view(bindings@)),
    decreases *t,
{
    match t {
        TypeExpr::Other { form } => dup_type_expr(t),
        TypeExpr::Path(p) => {
            proof {
                lemma_segs_view_index(p.segments@);
            }
            if p.segments.len() == 1 && p.segments[0].args.len() == 0 {
                proof {
                    lemma_args_view_index(p.segments@[0].args@);
                    assert(spec_param_ref(type_expr_view(*t)) == Option::Some(
                        p.segments@[0].name@,
                    ));
                }
                match lookup_binding(bindings, &p.segments[0].name) {
                    Some(replacement) => {
                        return dup_type_expr(replacement);
                    },
                    None => {},
                }
                let seg = PathSeg { name: p.segments[0].name.clone(), args: Vec::new() };
                let mut segments: Vec<PathSeg> = Vec::new();
                segments.push(seg);
                proof {
                    lemma_segs_view_index(segments@);
                    lemma_args_view_index(segments@[0].args@);
                    lemma_subst_segs_index(segs_view(p.segments@), bindings_view(bindings@));
                    lemma_subst_args_index(
                        segs_view(p.segments@)[0].args,
                        bindings_view(bindings@),
                    );
                    assert(segs_view(segments@) =~= spec_subst_segs(
                        segs_view(p.segments@),
                        bindings_view(bindings@),
                    ));
                }
                TypeExpr::Path(TypePath { segments })
            } else {
                proof {
                    assert(spec_param_ref(type_expr_view(*t)) is None);
                }
                TypeExpr::Path(TypePath { segments: subst_segs(&p.segments, bindings) })
            }
        },
    }
}

fn subst_segs(ss: &Vec<PathSeg>, bindings: &Vec<Binding>) -> (r: Vec<PathSeg>)
    ensures
        segs_view(r@) == spec_subst_segs(segs_view(ss@), bindings_view(bindings@)),
    decreases *ss,
{
    let ghost bv = bindings_view(bindings@);
    let n = ss.len();
    let mut out: Vec<PathSeg> = Vec::new();
    let mut i: usize = 0;
    proof {
        lemma_segs_view_index(ss@);
        lemma_subst_segs_index(segs_view(ss@), bv);
    }
    while i < n
        invariant
            n == ss@.len(),
            bv == bindings_view(bindings@),
            i <= n,
            out@.len() == i,
            segs_view(ss@).len() == n,
            forall|j: int|
                0 <= j < i ==> seg_view(out@[j]) == spec_subst_seg(segs_view(ss@)[j], bv),
        decreases n - i,
    {
        proof {
            lemma_segs_view_index(ss@);
        }
        let seg = PathSeg {
            name: ss[i].name.clone(),
            args: subst_args(&ss[i].args, bindings),
        };
        out.push(seg);
        i += 1;
    }
    proof {
        lemma_segs_view_index(out@);
        lemma_subst_segs_index(segs_view(ss@), bv);
        assert(segs_view(out@) =~= spec_subst_segs(segs_view(ss@), bv));
    }
    out
}

fn subst_args(args: &Vec<TypeArg>, bindings: &Vec<Binding>) -> (r: Vec<TypeArg>)
    ensures
        args_view(r@) == spec_subst_args(args_view(args@), bindings_view(bindings@)),
    decreases *args,
{
    let ghost bv = bindings_view(bindings@);
    let n = args.len();
    let mut out: Vec<TypeArg> = Vec::new();
    let mut i: usize = 0;
    proof {
        lemma_args_view_index(args@);
        lemma_subst_args_index(args_view(args@), bv);
    }
    while i < n
        invariant
            n == args@.len(),
            bv == bindings_view(bindings@),
            i <= n,
            out@.len() == i,
            args_view(args@).len() == n,
            forall|j: int|
                0 <= j < i ==> arg_view(out@[j]) == spec_subst_arg(args_view(args@)[j], bv),
        decreases n - i,
    {
        proof {
            lemma_args_view_index(args@);
        }
        let a = match &args[i] {
            TypeArg::Ty(t) => TypeArg::Ty(subst_type(t, bindings)),
            TypeArg::Lifetime(l) => TypeArg::Lifetime(l.clone()),
        };
        out.push(a);
        i += 1;
    }
    proof {
        lemma_args_view_index(out@);
        lemma_subst_args_index(args_view(args@), bv);
        assert(args_view(out@) =~= spec_subst_args(args_view(args@), bv));
    }
    out
}

/// A field with its declared type substituted and all else unchanged.
pub open spec fn spec_instantiate_field(f: SpecField, bs: Seq<SpecBinding>) -> SpecField {
    SpecField { ty: spec_subst(f.ty, bs), ..f }
}

/// A field list with every declared type substituted, in order.
pub open spec fn spec_instantiate_fields(fs: Seq<SpecField>, bs: Seq<SpecBinding>) -> Seq<
    SpecField,
> {
    fs.map_values(|f: SpecField| spec_instantiate_field(f, bs))
}

/// Rewrites a field list under an alias's bindings: every declared type is
/// substituted; identifiers, rules, schemas and annotations are untouched.
pub fn instantiate_fields(fields: &Vec<Field>, bindings: &Vec<Binding>) -> (r: Vec<Field>)
    ensures
        fields_view(r@) == spec_instantiate_fields(fields_view(fields@), bindings_view(bindings@)),
{
    let ghost bv = bindings_view(bindings@);
    let n = fields.len();
    let mut out: Vec<Field> = Vec::new();
    let mut i: usize = 0;
    while i < n
        invariant
            n == fields@.len(),
            bv == bindings_view(bindings@),
            i <= n,
            out@.len() == i,
            forall|j: int|
                0 <= j < i ==> field_view(out@[j]) == spec_instantiate_field(
                    field_view(fields@[j]),
                    bv,
                ),
        decreases n - i,
    {
        let mut copy = crate::model::dup_field(&fields[i]);
        copy.ty = subst_type(&fields[i].ty, bindings);
        out.push(copy);
        i += 1;
    }
    proof {
        assert(fields_view(out@) =~= spec_instantiate_fields(fields_view(fields@), bv));
    }
    out
}

/// What the type resolver says about one declared type: its schema node,
/// whether it is optional, and whether it is a free-form map.
#[derive(Debug, PartialEq, Eq)]
pub struct ResolvedLeaf {
    pub schema: crate::node::SchemaNode,
    pub is_optional: bool,
    pub is_map_like: bool,
}

/// Mathematical model of [`ResolvedLeaf`].
#[verifier::ext_equal]
pub struct SpecResolvedLeaf {
    pub schema: crate::node::SpecSchema,
    pub is_optional: bool,
    pub is_map_like: bool,
}

/// View of a resolved leaf.
pub open spec fn leaf_view(l: ResolvedLeaf) -> SpecResolvedLeaf {
    SpecResolvedLeaf {
        schema: crate::node::node_view(l.schema),
        is_optional: l.is_optional,
        is_map_like: l.is_map_like,
    }
}

/// One entry of the type resolver's view: a declared type and what it
/// resolves to.
#[derive(Debug, PartialEq, Eq)]
pub struct ResolverEntry {
    pub ty: TypeExpr,
    pub leaf: ResolvedLeaf,
}

/// Mathematical model of [`ResolverEntry`].
#[verifier::ext_equal]
pub struct SpecResolverEntry {
    pub ty: SpecTypeExpr,
    pub leaf: SpecResolvedLeaf,
}

/// View of one resolver entry.
pub open spec fn entry_view(e: ResolverEntry) -> SpecResolverEntry {
    SpecResolverEntry { ty: type_expr_view(e.ty), leaf: leaf_view(e.leaf) }
}

/// View of a resolver view.
pub open spec fn resolver_view(es: Seq<ResolverEntry>) -> Seq<SpecResolverEntry> {
    Seq::new(es.len(), |i: int| entry_view(es[i]))
}

/// What the resolver view assigns to a type, if anything; the first entry
/// for a type wins.
pub open spec fn spec_resolve(es: Seq<SpecResolverEntry>, ty: SpecTypeExpr) -> Option<
    SpecResolvedLeaf,
>
    decreases es.len(),
{
    if es.len() == 0 {
        Option::None
    } else if es[0].ty == ty {
        Option::Some(es[0].leaf)
    } else {
        spec_resolve(es.drop_first(), ty)
    }
}

/// A field re-annotated under the resolver view: where the view knows the
/// field's declared type, its resolution replaces the field's; elsewhere
/// the field keeps what it had.
pub open spec fn spec_annotate_field(f: SpecField, es: Seq<SpecResolverEntry>) -> SpecField {
    match spec_resolve(es, f.ty) {
        Option::Some(leaf) => SpecField {
            schema: leaf.schema,
            is_optional: leaf.is_optional,
            is_map_like: leaf.is_map_like,
            ..f
        },
        Option::None => f,
    }
}

/// A field list re-annotated under the resolver view.
pub open spec fn spec_annotate_fields(fs: Seq<SpecField>, es: Seq<SpecResolverEntry>) -> Seq<
    SpecField,
> {
    fs.map_values(|f: SpecField| spec_annotate_field(f, es))
}

/// Looks a declared type up in the resolver view.
fn resolve_leaf<'a>(entries: &'a Vec<ResolverEntry>, ty: &TypeExpr) -> (r: Option<
    &'a ResolvedLeaf,
>)
    ensures
        match r {
            Option::Some(l) => spec_resolve(resolver_view(entries@), type_expr_view(*ty))
                == Option::Some(leaf_view(*l)),
            Option::None => spec_resolve(resolver_view(entries@), type_expr_view(*ty)) is None,
        },
{
    let ghost ev = resolver_view(entries@);
    let n = entries.len();
    let mut i: usize = 0;
    proof {
        assert(ev.skip(0) =~= ev);
    }
    while i < n
        invariant
            n == entries@.len(),
            ev == resolver_view(entries@),
            i <= n,
            spec_resolve(ev, type_expr_view(*ty)) == spec_resolve(
                ev.skip(i as int),
                type_expr_view(*ty),
            ),
        decreases n - i,
    {
        proof {
            assert(ev.skip(i as int)[0] == ev[i as int]);
        }
        if crate::types::type_expr_eq(&entries[i].ty, ty) {
            return Some(&entries[i].leaf);
        }
        proof {
            assert(ev.skip(i as int).drop_first() =~= ev.skip(i as int + 1));
        }
        i += 1;
    }
    proof {
        assert(ev.skip(n as int) =~= Seq::<SpecResolverEntry>::empty());
    }
    None
}

/// Rewrites a field list under an alias's bindings and re-annotates it
/// under the resolver view: every declared type is substituted, and where
/// the view resolves the substituted type, the field takes that resolution.
pub fn instantiate_annotated_fields(
    fields: &Vec<Field>,
    bindings: &Vec<Binding>,
    entries: &Vec<ResolverEntry>,
) -> (r: Vec<Field>)
    ensures
        fields_view(r@) == spec_annotate_fields(
            spec_instantiate_fields(fields_view(fields@), bindings_view(bindings@)),
            resolver_view(entries@),
        ),
{
    let ghost bv = bindings_view(bindings@);
    let ghost ev = resolver_view(entries@);
    let n = fields.len();
    let mut out: Vec<Field> = Vec::new();
    let mut i: usize = 0;
    while i < n
        invariant
            n == fields@.len(),
            bv == bindings_view(bindings@),
            ev == resolver_view(entries@),
            i <= n,
            out@.len() == i,
            forall|j: int|
                0 <= j < i ==> field_view(out@[j]) == spec_annotate_field(
                    spec_instantiate_field(field_view(fields@[j]), bv),
                    ev,
                ),
        decreases n - i,
    {
        let mut copy = crate::model::dup_field(&fields[i]);
        copy.ty = subst_type(&fields[i].ty, bindings);
        match resolve_leaf(entries, &copy.ty) {
            Some(leaf) => {
                copy.schema = leaf.schema.duplicate();
                copy.is_optional = leaf.is_optional;
                copy.is_map_like = leaf.is_map_like;
            },
            None => {},
        }
        out.push(copy);
        i += 1;
    }
    proof {
        assert(fields_view(out@) =~= spec_annotate_fields(
            spec_instantiate_fields(fields_view(fields@), bv),
            ev,
        ));
    }
    out
}

/// The names of an alias list, in order.
pub open spec fn spec_alias_names(aliases: Seq<SpecAliasBinding>) -> Seq<Seq<char>> {
    aliases.map_values(|a: SpecAliasBinding| a.name)
}

/// The first name that repeats an earlier one, if any.
pub open spec fn spec_first_dup(ns: Seq<Seq<char>>) -> Option<Seq<char>>
    decreases ns.len(),
{
    if ns.len() == 0 {
        Option::None
    } else {
        match spec_first_dup(ns.drop_last()) {
            Option::Some(d) => Option::Some(d),
            Option::None => if ns.drop_last().contains(ns.last()) {
                Option::Some(ns.last())
            } else {
                Option::None
            },
        }
    }
}

/// A name list has no first repeat exactly when it has no repeats at all.
pub proof fn lemma_first_dup_none(ns: Seq<Seq<char>>)
    ensures
        (spec_first_dup(ns) is None) <==> ns.no_duplicates(),
    decreases ns.len(),
{
    if ns.len() > 0 {
        lemma_first_dup_none(ns.drop_last());
        if spec_first_dup(ns) is None {
            assert(!ns.drop_last().contains(ns.last()));
            assert forall|a: int, b: int|
                0 <= a < ns.len() && 0 <= b < ns.len() && a != b implies ns[a] != ns[b] by {
                if a < ns.len() - 1 && b < ns.len() - 1 {
                    assert(ns.drop_last()[a] == ns[a]);
                    assert(ns.drop_last()[b] == ns[b]);
                } else if a == ns.len() - 1 {
                    assert(ns.drop_last()[b] == ns[b]);
                    assert(!ns.drop_last().contains(ns.last()));
                } else {
                    assert(ns.drop_last()[a] == ns[a]);
                    assert(!ns.drop_last().contains(ns.last()));
                }
            }
        } else {
            if spec_first_dup(ns.drop_last()) is Some {
                assert(!ns.drop_last().no_duplicates());
                assert(exists|a: int, b: int|
                    0 <= a < ns.drop_last().len() && 0 <= b < ns.drop_last().len() && a != b
                        && ns.drop_last()[a] == ns.drop_last()[b]);
                let (a, b) = choose|a: int, b: int|
                    0 <= a < ns.drop_last().len() && 0 <= b < ns.drop_last().len() && a != b
                        && ns.drop_last()[a] == ns.drop_last()[b];
                assert(ns[a] == ns[b]);
            } else {
                let a = choose|a: int| 0 <= a < ns.drop_last().len() && ns.drop_last()[a] == ns.last();
                assert(ns[a] == ns[ns.len() - 1]);
            }
        }
    }
}

/// The first repeat settles longer prefixes too.
proof fn lemma_first_dup_persists(ns: Seq<Seq<char>>, i: int)
    requires
        0 <= i <= ns.len(),
        spec_first_dup(ns.take(i)) is Some,
    ensures
        spec_first_dup(ns) == spec_first_dup(ns.take(i)),
    decreases ns.len() - i,
{
    if i == ns.len() {
        assert(ns.take(i) =~= ns);
    } else {
        crate::node::lemma_take_succ(ns, i);
        assert(spec_first_dup(ns.take(i + 1)) == spec_first_dup(ns.take(i)));
        lemma_first_dup_persists(ns, i + 1);
    }
}

/// Checks that no alias name is declared twice: the first repeated name is
/// refused, naming the declaration it belongs to.
pub fn check_alias_names(aliases: &Vec<AliasBinding>, container: &String) -> (r: Result<
    (),
    SynthError,
>)
    ensures
        r is Ok <==> spec_first_dup(spec_alias_names(aliases_view(aliases@))) is None,
        r matches Err(e) ==> e@ == (SpecSynthError::MalformedDeclaration {
            container: container@,
            offender: spec_first_dup(spec_alias_names(aliases_view(aliases@)))->Some_0,
        }),
{
    let ghost names = spec_alias_names(aliases_view(aliases@));
    let n = aliases.len();
    let mut i: usize = 0;
    proof {
        assert(names.take(0) =~= Seq::<Seq<char>>::empty());
    }
    while i < n
        invariant
            n == aliases@.len(),
            names == spec_alias_names(aliases_view(aliases@)),
            names.len() == n,
            i <= n,
            spec_first_dup(names.take(i as int)) is None,
        decreases n - i,
    {
        proof {
            crate::node::lemma_take_succ(names, i as int);
        }
        let mut j: usize = 0;
        while j < i
            invariant
                n == aliases@.len(),
                names == spec_alias_names(aliases_view(aliases@)),
                names.len() == n,
                j <= i < n,
                spec_first_dup(names.take(i as int)) is None,
                forall|a: int| 0 <= a < j ==> names[a] != names[i as int],
            decreases i - j,
        {
            if aliases[j].name == aliases[i].name {
                proof {
                    let ji = j as int;
                    let ii = i as int;
                    assert(names[ji] == (#[trigger] alias_view(aliases@[ji])).name);
                    assert(names[ii] == (#[trigger] alias_view(aliases@[ii])).name);
                    assert(names[ji] == names[ii]);
                    crate::node::lemma_take_succ(names, ii);
                    assert(names.take(ii)[ji] == names[ji]);
                    assert(names.take(ii).contains(names[ii]));
                    assert(spec_first_dup(names.take(ii + 1)) == Option::Some(names[ii]));
                    lemma_first_dup_persists(names, ii + 1);
                }
                return Err(SynthError::MalformedDeclaration {
                    container: container.clone(),
                    offender: aliases[i].name.clone(),
                });
            }
            j += 1;
        }
        proof {
            assert forall|a: int| 0 <= a < i as int implies #[trigger] names.take(i as int + 1)[a]
                != names.take(i as int + 1)[i as int] by {
                assert(names.take(i as int + 1)[a] == names[a]);
            }
            if names.take(i as int).contains(names[i as int]) {
                let a = choose|a: int|
                    0 <= a < i as int && names.take(i as int)[a] == names[i as int];
                assert(names[a] == names[i as int]);
                assert(false);
            }
            assert(spec_first_dup(names.take(i as int + 1)) is None);
        }
        i += 1;
    }
    proof {
        assert(names.take(n as int) =~= names);
    }
    Ok(())
}

/// The lifetimes to thread through to an alias declaration: every lifetime
/// argument anywhere in the type, in reading order, except the static one.
pub open spec fn spec_lifetimes(t: SpecTypeExpr) -> Seq<Seq<char>>
    decreases t,
{
    match t {
        SpecTypeExpr::Path(p) => spec_lifetimes_segs(p.segments),
        SpecTypeExpr::Other { form } => Seq::empty(),
    }
}

/// Lifetime collection over a segment list.
pub open spec fn spec_lifetimes_segs(ss: Seq<SpecPathSeg>) -> Seq<Seq<char>>
    decreases ss,
{
    if ss.len() == 0 {
        Seq::empty()
    } else {
        spec_lifetimes_segs(ss.subrange(0, ss.len() - 1)) + spec_lifetimes_args(ss.last().args)
    }
}

/// Lifetime collection over an argument list.
pub open spec fn spec_lifetimes_args(args: Seq<SpecTypeArg>) -> Seq<Seq<char>>
    decreases args,
{
    if args.len() == 0 {
        Seq::empty()
    } else {
        spec_lifetimes_args(args.subrange(0, args.len() - 1)) + (match args.last() {
            SpecTypeArg::Ty(t) => spec_lifetimes(t),
            SpecTypeArg::Lifetime(l) => if l == "static"@ {
                Seq::<Seq<char>>::empty()
            } else {
                seq![l]
            },
        })
    }
}

fn collect_lifetimes_into(t: &TypeExpr, out: &mut Vec<String>)
    ensures
        strings_view(final(out)@) == strings_view(old(out)@) + spec_lifetimes(type_expr_view(*t)),
    decreases *t,
{
    match t {
        TypeExpr::Other { form } => {
            proof {
                assert(strings_view(out@) =~= strings_view(out@) + Seq::<Seq<char>>::empty());
            }
        },
        TypeExpr::Path(p) => {
            collect_lifetimes_segs(&p.segments, out);
        },
    }
}

fn collect_lifetimes_segs(ss: &Vec<PathSeg>, out: &mut Vec<String>)
    ensures
        strings_view(final(out)@) == strings_view(old(out)@) + spec_lifetimes_segs(segs_view(ss@)),
    decreases *ss,
{
    let ghost sv = segs_view(ss@);
    let n = ss.len();
    let mut i: usize = 0;
    proof {
        lemma_segs_view_index(ss@);
        assert(strings_view(out@) =~= strings_view(out@) + Seq::<Seq<char>>::empty());
        assert(sv.take(0) =~= Seq::<SpecPathSeg>::empty());
    }
    while i < n
        invariant
            n == ss@.len(),
            sv == segs_view(ss@),
            i <= n,
            strings_view(out@) == strings_view(old(out)@) + spec_lifetimes_segs(
                sv.take(i as int),
            ),
        decreases n - i,
    {
        proof {
            lemma_segs_view_index(ss@);
            lemma_take_succ(sv, i as int);
        }
        let ghost before = out@;
        collect_lifetimes_args(&ss[i].args, out);
        proof {
            assert(strings_view(out@) =~= strings_view(old(out)@) + spec_lifetimes_segs(
                sv.take(i as int + 1),
            ));
        }
        i += 1;
    }
    proof {
        assert(sv.take(n as int) =~= sv);
    }
}

fn collect_lifetimes_args(args: &Vec<TypeArg>, out: &mut Vec<String>)
    ensures
        strings_view(final(out)@) == strings_view(old(out)@) + spec_lifetimes_args(
            args_view(args@),
        ),
    decreases *args,
{
    let ghost av = args_view(args@);
    let n = args.len();
    let mut i: usize = 0;
    proof {
        lemma_args_view_index(args@);
        assert(strings_view(out@) =~= strings_view(out@) + Seq::<Seq<char>>::empty());
        assert(av.take(0) =~= Seq::<SpecTypeArg>::empty());
    }
    while i < n
        invariant
            n == args@.len(),
            av == args_view(args@),
            i <= n,
            strings_view(out@) == strings_view(old(out)@) + spec_lifetimes_args(
                av.take(i as int),
            ),
        decreases n - i,
    {
        proof {
            lemma_args_view_index(args@);
            lemma_take_succ(av, i as int);
        }
        match &args[i] {
            TypeArg::Ty(t) => {
                collect_lifetimes_into(t, out);
            },
            TypeArg::Lifetime(l) => {
                let is_static = {
                    let st = "static".to_owned();
                    *l == st
                };
                let ghost before = out@;
                if !is_static {
                    out.push(l.clone());
                    proof {
                        assert(strings_view(out@) =~= strings_view(before).push(l@));
                    }
                }
            },
        }
        proof {
            assert(strings_view(out@) =~= strings_view(old(out)@) + spec_lifetimes_args(
                av.take(i as int + 1),
            ));
        }
        i += 1;
    }
    proof {
        assert(av.take(n as int) =~= av);
    }
}

/// Collects the lifetimes an alias must thread through to its own
/// parameter list: every non-static lifetime inside the substituted type.
/// Only a named path type can be read this way; any other form is refused.
pub fn alias_lifetimes(t: &TypeExpr, container: &String) -> (r: Result<Vec<String>, SynthError>)
    ensures
        r is Ok <==> type_expr_view(*t) is Path,
        r matches Ok(v) ==> strings_view(v@) == spec_lifetimes(type_expr_view(*t)),
        r matches Err(e) ==> (match (e@, type_expr_view(*t)) {
            (
                SpecSynthError::UnsupportedAliasTarget { container: c, form },
                SpecTypeExpr::Other { form: f },
            ) => c == container@ && form == f,
            _ => false,
        }),
{
    match t {
        TypeExpr::Other { form } => Err(
            SynthError::UnsupportedAliasTarget { container: container.clone(), form: form.clone() },
        ),
        TypeExpr::Path(p) => {
            let mut out: Vec<String> = Vec::new();
            proof {
                assert(strings_view(out@) =~= Seq::<Seq<char>>::empty());
            }
            collect_lifetimes_into(t, &mut out);
            proof {
                assert(Seq::<Seq<char>>::empty() + spec_lifetimes(type_expr_view(*t))
                    =~= spec_lifetimes(type_expr_view(*t)));
            }
            Ok(out)
        },
    }
}

/// The dotted rendering of a path: its segment names joined by periods,
/// generic arguments left out.
pub open spec fn spec_dotted(names: Seq<Seq<char>>) -> Seq<char>
    decreases names.len(),
{
    if names.len() == 0 {
        Seq::empty()
    } else if names.len() == 1 {
        names[0]
    } else {
        spec_dotted(names.subrange(0, names.len() - 1)) + seq!['.'] + names.last()
    }
}

/// The segment names of a path.
pub open spec fn spec_seg_names(ss: Seq<SpecPathSeg>) -> Seq<Seq<char>> {
    ss.map_values(|s: SpecPathSeg| s.name)
}

/// Renders a path as a compact schema reference: segment names joined by
/// periods, with generic arguments stripped.
pub fn format_path_ref(p: &TypePath) -> (r: String)
    ensures
        r@ == spec_dotted(spec_seg_names(path_view(*p).segments)),
{
    let ghost names = spec_seg_names(path_view(*p).segments);
    let n = p.segments.len();
    let mut out = String::new();
    let mut i: usize = 0;
    proof {
        lemma_segs_view_index(p.segments@);
        assert(names.take(0) =~= Seq::<Seq<char>>::empty());
        assert(out@ =~= spec_dotted(names.take(0)));
    }
    while i < n
        invariant
            n == p.segments@.len(),
            names == spec_seg_names(path_view(*p).segments),
            names.len() == n,
            i <= n,
            out@ == spec_dotted(names.take(i as int)),
        decreases n - i,
    {
        proof {
            lemma_segs_view_index(p.segments@);
            lemma_take_succ(names, i as int);
        }
        if i > 0 {
            crate::names::push_dot(&mut out);
        }
        out.append(p.segments[i].name.as_str());
        proof {
            if i == 0 {
                assert(names.take(1) =~= seq![names[0]]);
                assert(out@ =~= spec_dotted(names.take(1)));
            } else {
                assert(out@ =~= spec_dotted(names.take(i as int)) + seq!['.'] + names[i as int]);
            }
        }
        i += 1;
    }
    proof {
        assert(names.take(n as int) =~= names);
    }
    out
}

} // verus!
