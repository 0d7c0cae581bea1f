use vstd::prelude::*;
use crate::names::CaseRule;
use crate::node::{SchemaNode, SpecSchema, node_view, opt_str_view};
use crate::types::{SpecTypeExpr, TypeExpr, type_expr_view};

verus! {

/// The serialization rules declared on one field.
#[derive(Debug, PartialEq, Eq)]
pub struct FieldRules {
    /// The field is left out of the wire form altogether.
    pub skip: bool,
    /// The field's object is inlined into its parent instead of nested.
    pub flatten: bool,
    /// An explicit wire name for the field.
    pub rename: Option<String>,
    /// The field is filled from a default when absent.
    pub default: bool,
}

/// Mathematical model of [`FieldRules`].
#[verifier::ext_equal]
pub struct SpecFieldRules {
    pub skip: bool,
    pub flatten: bool,
    pub rename: Option<Seq<char>>,
    pub default: bool,
}

impl View for FieldRules {
    type V = SpecFieldRules;

    open spec fn view(&self) -> SpecFieldRules {
        SpecFieldRules {
            skip: self.skip,
            flatten: self.flatten,
            rename: opt_str_view(self.rename),
            default: self.default,
        }
    }
}

/// Whether a field or variant stays in the wire form.
pub fn is_not_skipped(rule: &FieldRules) -> (r: bool)
    ensures
        r == !rule.skip,
{
    !rule.skip
}

/// Whether a field is flattened into its parent.
pub fn is_flatten(rule: &FieldRules) -> (r: bool)
    ensures
        r == rule.flatten,
{
    rule.flatten
}

/// One field of a struct or of a struct-like variant, already annotated by
/// the type resolver with its schema, its optionality and whether its type
/// is a free-form string-keyed map.
#[derive(Debug, PartialEq, Eq)]
pub struct Field {
    /// The declared identifier, possibly keyword-escaped.
    pub ident: String,
    /// The declared serialization rules.
    pub rules: FieldRules,
    /// A rename given as a schema feature rather than a serialization rule.
    pub feature_rename: Option<String>,
    /// A default given as a schema feature.
    pub feature_default: bool,
    /// An explicit override of the required marker.
    pub required_override: Option<bool>,
    /// The schema of the declared type, supplied by the type resolver.
    pub schema: SchemaNode,
    /// Whether the declared type is optional (nullable).
    pub is_optional: bool,
    /// Whether the declared type is a free-form string-keyed map.
    pub is_map_like: bool,
    /// The declared type itself, for alias substitution.
    pub ty: TypeExpr,
}

/// Mathematical model of [`Field`].
#[verifier::ext_equal]
pub struct SpecField {
    pub ident: Seq<char>,
    pub rules: SpecFieldRules,
    pub feature_rename: Option<Seq<char>>,
    pub feature_default: bool,
    pub required_override: Option<bool>,
    pub schema: SpecSchema,
    pub is_optional: bool,
    pub is_map_like: bool,
    pub ty: SpecTypeExpr,
}

/// View of one field.
pub open spec fn field_view(f: Field) -> SpecField {
    SpecField {
        ident: f.ident@,
        rules: f.rules@,
        feature_rename: opt_str_view(f.feature_rename),
        feature_default: f.feature_default,
        required_override: f.required_override,
        schema: node_view(f.schema),
        is_optional: f.is_optional,
        is_map_like: f.is_map_like,
        ty: type_expr_view(f.ty),
    }
}

impl View for Field {
    type V = SpecField;

    open spec fn view(&self) -> SpecField {
        field_view(*self)
    }
}

/// View of a list of fields.
pub open spec fn fields_view(fs: Seq<Field>) -> Seq<SpecField> {
    Seq::new(fs.len(), |i: int| field_view(fs[i]))
}

/// The serialization rules declared on one enum variant.
#[derive(Debug, PartialEq, Eq)]
pub struct VariantRules {
    /// The variant is left out of the wire form altogether.
    pub skip: bool,
    /// An explicit wire name for the variant.
    pub rename: Option<String>,
}

/// Mathematical model of [`VariantRules`].
#[verifier::ext_equal]
pub struct SpecVariantRules {
    pub skip: bool,
    pub rename: Option<Seq<char>>,
}

impl View for VariantRules {
    type V = SpecVariantRules;

    open spec fn view(&self) -> SpecVariantRules {
        SpecVariantRules { skip: self.skip, rename: opt_str_view(self.rename) }
    }
}

/// The shape of one enum variant's payload.
#[derive(Debug, PartialEq, Eq)]
pub enum VariantShape {
    Named(Vec<Field>),
    Positional(Vec<Field>),
    Unit,
}

/// Mathematical model of [`VariantShape`].
#[verifier::ext_equal]
pub enum SpecVariantShape {
    Named(Seq<SpecField>),
    Positional(Seq<SpecField>),
    Unit,
}

/// View of a variant shape.
pub open spec fn variant_shape_view(s: VariantShape) -> SpecVariantShape {
    match s {
        VariantShape::Named(fs) => SpecVariantShape::Named(fields_view(fs@)),
        VariantShape::Positional(fs) => SpecVariantShape::Positional(fields_view(fs@)),
        VariantShape::Unit => SpecVariantShape::Unit,
    }
}

/// One variant of an enum declaration.
#[derive(Debug, PartialEq, Eq)]
pub struct Variant {
    /// The declared identifier.
    pub ident: String,
    /// The payload shape.
    pub shape: VariantShape,
    /// The declared serialization rules.
    pub rules: VariantRules,
    /// A rename given as a schema feature.
    pub feature_rename: Option<String>,
    /// A rename-all rule for the variant's own named fields.
    pub rename_all: Option<CaseRule>,
    /// A title feature on the variant.
    pub title: Option<String>,
    /// An example feature on the variant.
    pub example: Option<String>,
    /// The variant's accumulated doc-comment text.
    pub description: Option<String>,
    /// The declared numeric discriminant, read when the enum carries a
    /// numeric base type.
    pub discriminant: i64,
}

/// Mathematical model of [`Variant`].
#[verifier::ext_equal]
pub struct SpecVariant {
    pub ident: Seq<char>,
    pub shape: SpecVariantShape,
    pub rules: SpecVariantRules,
    pub feature_rename: Option<Seq<char>>,
    pub rename_all: Option<CaseRule>,
    pub title: Option<Seq<char>>,
    pub example: Option<Seq<char>>,
    pub description: Option<Seq<char>>,
    pub discriminant: int,
}

/// View of one variant.
pub open spec fn variant_view(v: Variant) -> SpecVariant {
    SpecVariant {
        ident: v.ident@,
        shape: variant_shape_view(v.shape),
        rules: v.rules@,
        feature_rename: opt_str_view(v.feature_rename),
        rename_all: v.rename_all,
        title: opt_str_view(v.title),
        example: opt_str_view(v.example),
        description: opt_str_view(v.description),
        discriminant: v.discriminant as int,
    }
}

impl View for Variant {
    type V = SpecVariant;

    open spec fn view(&self) -> SpecVariant {
        variant_view(*self)
    }
}

/// View of a list of variants.
pub open spec fn variants_view(vs: Seq<Variant>) -> Seq<SpecVariant> {
    Seq::new(vs.len(), |i: int| variant_view(vs[i]))
}

/// How an enum's variants are encoded in the wire form.
#[derive(Debug, PartialEq, Eq)]
pub enum EnumRepresentation {
    /// Each value is keyed by its variant name.
    External,
    /// The variant name is stored in a tag property inside the value.
    Internal { tag: String },
    /// The variant name and the payload are stored in two sibling properties.
    Adjacent { tag: String, content: String },
    /// The payload stands alone; no variant name is recorded.
    Untagged,
}

/// Mathematical model of [`EnumRepresentation`].
#[verifier::ext_equal]
pub enum SpecEnumRepresentation {
    External,
    Internal { tag: Seq<char> },
    Adjacent { tag: Seq<char>, content: Seq<char> },
    Untagged,
}

impl View for EnumRepresentation {
    type V = SpecEnumRepresentation;

    open spec fn view(&self) -> SpecEnumRepresentation {
        match *self {
            EnumRepresentation::External => SpecEnumRepresentation::External,
            EnumRepresentation::Internal { tag } => SpecEnumRepresentation::Internal { tag: tag@ },
            EnumRepresentation::Adjacent { tag, content } => SpecEnumRepresentation::Adjacent {
                tag: tag@,
                content: content@,
            },
            EnumRepresentation::Untagged => SpecEnumRepresentation::Untagged,
        }
    }
}

/// The serialization rules declared on a container.
#[derive(Debug, PartialEq, Eq)]
pub struct ContainerRules {
    /// A case transform inherited by every field or variant name.
    pub rename_all: Option<CaseRule>,
    /// Unknown properties are rejected when deserializing.
    pub deny_unknown_fields: bool,
    /// Every field is filled from a default when absent.
    pub default: bool,
    /// How enum variants are encoded.
    pub repr: EnumRepresentation,
}

/// Mathematical model of [`ContainerRules`].
#[verifier::ext_equal]
pub struct SpecContainerRules {
    pub rename_all: Option<CaseRule>,
    pub deny_unknown_fields: bool,
    pub default: bool,
    pub repr: SpecEnumRepresentation,
}

impl View for ContainerRules {
    type V = SpecContainerRules;

    open spec fn view(&self) -> SpecContainerRules {
        SpecContainerRules {
            rename_all: self.rename_all,
            deny_unknown_fields: self.deny_unknown_fields,
            default: self.default,
            repr: self.repr@,
        }
    }
}

/// The shape of a type declaration.
#[derive(Debug, PartialEq, Eq)]
pub enum TypeShape {
    /// A struct with named fields.
    Named(Vec<Field>),
    /// A struct with positional fields.
    Positional(Vec<Field>),
    /// A unit struct.
    Unit,
    /// An enum with its variants.
    Enum(Vec<Variant>),
}

/// Mathematical model of [`TypeShape`].
#[verifier::ext_equal]
pub enum SpecTypeShape {
    Named(Seq<SpecField>),
    Positional(Seq<SpecField>),
    Unit,
    Enum(Seq<SpecVariant>),
}

impl View for TypeShape {
    type V = SpecTypeShape;

    open spec fn view(&self) -> SpecTypeShape {
        match self {
            TypeShape::Named(fs) => SpecTypeShape::Named(fields_view(fs@)),
            TypeShape::Positional(fs) => SpecTypeShape::Positional(fields_view(fs@)),
            TypeShape::Unit => SpecTypeShape::Unit,
            TypeShape::Enum(vs) => SpecTypeShape::Enum(variants_view(vs@)),
        }
    }
}

/// Why a synthesis failed. Every error names the declaration it arose in;
/// no partial schema is ever produced.
#[derive(Debug, PartialEq, Eq)]
pub enum SynthError {
    /// Two flattened fields both resolve to free-form maps; both are named.
    MultipleFlattenedMaps { container: String, first_field: String, second_field: String },
    /// A positional variant with two or more fields under a representation
    /// that stores the variant name inside or beside the value.
    UnsupportedTaggedTuple { container: String, variant: String },
    /// An alias substitution target that is not a simple named path.
    UnsupportedAliasTarget { container: String, form: String },
    /// An alias list that names the same alias twice, or a declaration the
    /// synthesizer cannot read; the offending name is carried.
    MalformedDeclaration { container: String, offender: String },
}

/// Mathematical model of [`SynthError`].
#[verifier::ext_equal]
pub enum SpecSynthError {
    MultipleFlattenedMaps { container: Seq<char>, first_field: Seq<char>, second_field: Seq<char> },
    UnsupportedTaggedTuple { container: Seq<char>, variant: Seq<char> },
    UnsupportedAliasTarget { container: Seq<char>, form: Seq<char> },
    MalformedDeclaration { container: Seq<char>, offender: Seq<char> },
}

impl View for SynthError {
    type V = SpecSynthError;

    open spec fn view(&self) -> SpecSynthError {
        match self {
            SynthError::MultipleFlattenedMaps { container, first_field, second_field } =>
                SpecSynthError::MultipleFlattenedMaps {
                    container: container@,
                    first_field: first_field@,
                    second_field: second_field@,
                },
            SynthError::UnsupportedTaggedTuple { container, variant } =>
                SpecSynthError::UnsupportedTaggedTuple { container: container@, variant: variant@ },
            SynthError::UnsupportedAliasTarget { container, form } =>
                SpecSynthError::UnsupportedAliasTarget { container: container@, form: form@ },
            SynthError::MalformedDeclaration { container, offender } =>
                SpecSynthError::MalformedDeclaration { container: container@, offender: offender@ },
        }
    }
}

/// A structural copy of a field's rules with the same view.
pub fn dup_field_rules(r: &FieldRules) -> (out: FieldRules)
    ensures
        out@ == r@,
{
    FieldRules {
        skip: r.skip,
        flatten: r.flatten,
        rename: crate::node::dup_opt_string(&r.rename),
        default: r.default,
    }
}

/// A structural copy of a field with the same view.
pub fn dup_field(f: &Field) -> (out: Field)
    ensures
        out@ == f@,
{
    Field {
        ident: f.ident.clone(),
        rules: dup_field_rules(&f.rules),
        feature_rename: crate::node::dup_opt_string(&f.feature_rename),
        feature_default: f.feature_default,
        required_override: f.required_override,
        schema: f.schema.duplicate(),
        is_optional: f.is_optional,
        is_map_like: f.is_map_like,
        ty: crate::types::dup_type_expr(&f.ty),
    }
}

/// A structural copy of a field list with the same view.
pub fn dup_fields(fs: &Vec<Field>) -> (out: Vec<Field>)
    ensures
        fields_view(out@) == fields_view(fs@),
{
    let n = fs.len();
    let mut acc: Vec<Field> = Vec::new();
    let mut i: usize = 0;
    while i < n
        invariant
            n == fs@.len(),
            i <= n,
            acc@.len() == i,
            forall|j: int| 0 <= j < i ==> field_view(acc@[j]) == field_view(fs@[j]),
        decreases n - i,
    {
        let copy = dup_field(&fs[i]);
        acc.push(copy);
        i += 1;
    }
    proof {
        assert(fields_view(acc@) =~= fields_view(fs@));
    }
    acc
}

/// A structural copy of a variant with the same view.
pub fn dup_variant(v: &Variant) -> (out: Variant)
    ensures
        out@ == v@,
{
    Variant {
        ident: v.ident.clone(),
        shape: match &v.shape {
            VariantShape::Named(fs) => VariantShape::Named(dup_fields(fs)),
            VariantShape::Positional(fs) => VariantShape::Positional(dup_fields(fs)),
            VariantShape::Unit => VariantShape::Unit,
        },
        rules: VariantRules {
            skip: v.rules.skip,
            rename: crate::node::dup_opt_string(&v.rules.rename),
        },
        feature_rename: crate::node::dup_opt_string(&v.feature_rename),
        rename_all: v.rename_all,
        title: crate::node::dup_opt_string(&v.title),
        example: crate::node::dup_opt_string(&v.example),
        description: crate::node::dup_opt_string(&v.description),
        discriminant: v.discriminant,
    }
}

/// A structural copy of a shape with the same view.
pub fn dup_shape(s: &TypeShape) -> (out: TypeShape)
    ensures
        out@ == s@,
{
    match s {
        TypeShape::Named(fs) => TypeShape::Named(dup_fields(fs)),
        TypeShape::Positional(fs) => TypeShape::Positional(dup_fields(fs)),
        TypeShape::Unit => TypeShape::Unit,
        TypeShape::Enum(vs) => {
            let n = vs.len();
            let mut acc: Vec<Variant> = Vec::new();
            let mut i: usize = 0;
            while i < n
                invariant
                    n == vs@.len(),
                    i <= n,
                    acc@.len() == i,
                    forall|j: int| 0 <= j < i ==> variant_view(acc@[j]) == variant_view(vs@[j]),
                decreases n - i,
            {
                let copy = dup_variant(&vs[i]);
                acc.push(copy);
                i += 1;
            }
            proof {
                assert(variants_view(acc@) =~= variants_view(vs@));
            }
            TypeShape::Enum(acc)
        },
    }
}

/// View of a synthesis result: the schema's view on success, the error's
/// view on failure.
pub open spec fn res_view(r: Result<SchemaNode, SynthError>) -> Result<SpecSchema, SpecSynthError> {
    match r {
        Result::Ok(n) => Result::Ok(node_view(n)),
        Result::Err(e) => Result::Err(e@),
    }
}

} // verus!
