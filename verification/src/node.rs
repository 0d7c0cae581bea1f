use vstd::prelude::*;

verus! {

/// Annotations that any schema node may carry: a human-readable
/// description, a deprecation flag, a title and an example value.
#[derive(Clone, Debug, PartialEq, Eq)]
pub struct Meta {
    pub description: Option<String>,
    pub deprecated: bool,
    pub title: Option<String>,
    pub example: Option<String>,
}

/// Mathematical model of [`Meta`].
#[verifier::ext_equal]
pub struct SpecMeta {
    pub description: Option<Seq<char>>,
    pub deprecated: bool,
    pub title: Option<Seq<char>>,
    pub example: Option<Seq<char>>,
}

/// View of an optional string as an optional character sequence.
pub open spec fn opt_str_view(o: Option<String>) -> Option<Seq<char>> {
    match o {
        Option::Some(s) => Option::Some(s@),
        Option::None => Option::None,
    }
}

impl View for Meta {
    type V = SpecMeta;

    open spec fn view(&self) -> SpecMeta {
        SpecMeta {
            description: opt_str_view(self.description),
            deprecated: self.deprecated,
            title: opt_str_view(self.title),
            example: opt_str_view(self.example),
        }
    }
}

impl Meta {
    /// A node with no annotations at all.
    pub open spec fn spec_none() -> SpecMeta {
        SpecMeta { description: Option::None, deprecated: false, title: Option::None, example: Option::None }
    }

    /// Builds the empty annotation set.
    pub fn none() -> (r: Meta)
        ensures
            r@ == Meta::spec_none(),
    {
        Meta { description: None, deprecated: false, title: None, example: None }
    }
}

/// What an object schema says about properties beyond the declared ones.
#[derive(Debug, PartialEq, Eq)]
pub enum AdditionalProps {
    /// Nothing is said: unknown properties are neither promised nor refused.
    Unset,
    /// Unknown properties are rejected.
    Forbidden,
    /// Unknown properties must match the given schema (a flattened map).
    Constrained(Box<SchemaNode>),
}

/// Mathematical model of [`AdditionalProps`].
#[verifier::ext_equal]
pub enum SpecAdditionalProps {
    Unset,
    Forbidden,
    Constrained(Box<SpecSchema>),
}

/// One named property of an object schema.
#[derive(Debug, PartialEq, Eq)]
pub struct Property {
    pub name: String,
    pub schema: SchemaNode,
}

/// A schema-tree node: the structural description of a document shape.
#[derive(Debug, PartialEq, Eq)]
pub enum SchemaKind {
    /// Matches anything; the schema of a unit shape.
    Empty,
    /// An opaque leaf supplied by the type resolver (a primitive, say).
    Leaf { name: String },
    /// A reference to a schema declared elsewhere, by name.
    Reference { target: String },
    /// A plain enumeration of string values.
    StringValues { values: Vec<String> },
    /// An enumeration of numeric values of the named base type.
    IntValues { numbers: Vec<i64>, base: String },
    /// An object with named properties, a required set and a rule for the rest.
    Object { properties: Vec<Property>, required: Vec<String>, additional: AdditionalProps },
    /// An array of items, optionally with fixed length bounds.
    Array { item: Box<SchemaNode>, min_items: Option<usize>, max_items: Option<usize> },
    /// The conjunction of several schemas.
    AllOf { items: Vec<SchemaNode> },
    /// A union of several schemas, optionally discriminated by a property.
    OneOf { items: Vec<SchemaNode>, discriminator: Option<String> },
}

/// A schema node together with its annotations.
#[derive(Debug, PartialEq, Eq)]
pub struct SchemaNode {
    pub kind: SchemaKind,
    pub meta: Meta,
}

/// Mathematical model of [`SchemaKind`].
#[verifier::ext_equal]
pub enum SpecSchemaKind {
    Empty,
    Leaf { name: Seq<char> },
    Reference { target: Seq<char> },
    StringValues { values: Seq<Seq<char>> },
    IntValues { numbers: Seq<int>, base: Seq<char> },
    Object { properties: Seq<(Seq<char>, SpecSchema)>, required: Seq<Seq<char>>, additional: SpecAdditionalProps },
    Array { item: Box<SpecSchema>, min_items: Option<nat>, max_items: Option<nat> },
    AllOf { items: Seq<SpecSchema> },
    OneOf { items: Seq<SpecSchema>, discriminator: Option<Seq<char>> },
}

/// Mathematical model of [`SchemaNode`].
#[verifier::ext_equal]
pub struct SpecSchema {
    pub kind: SpecSchemaKind,
    pub meta: SpecMeta,
}

/// View of an optional length bound as an optional natural number.
pub open spec fn opt_nat_view(o: Option<usize>) -> Option<nat> {
    match o {
        Option::Some(n) => Option::Some(n as nat),
        Option::None => Option::None,
    }
}

/// View of a list of property entries.
pub open spec fn props_view(ps: Seq<Property>) -> Seq<(Seq<char>, SpecSchema)>
    decreases ps,
{
    if ps.len() == 0 {
        Seq::empty()
    } else {
        props_view(ps.subrange(0, ps.len() - 1)).push((ps.last().name@, node_view(ps.last().schema)))
    }
}

/// View of a list of schema nodes.
pub open spec fn nodes_view(ns: Seq<SchemaNode>) -> Seq<SpecSchema>
    decreases ns,
{
    if ns.len() == 0 {
        Seq::empty()
    } else {
        nodes_view(ns.subrange(0, ns.len() - 1)).push(node_view(ns.last()))
    }
}

/// View of a list of strings.
pub open spec fn strings_view(ss: Seq<String>) -> Seq<Seq<char>> {
    Seq::new(ss.len(), |i: int| ss[i]@)
}

/// View of a list of numeric values.
pub open spec fn ints_view(vs: Seq<i64>) -> Seq<int> {
    Seq::new(vs.len(), |i: int| vs[i] as int)
}

/// View of a schema kind.
pub open spec fn kind_view(k: SchemaKind) -> SpecSchemaKind
    decreases k,
{
    match k {
        SchemaKind::Empty => SpecSchemaKind::Empty,
        SchemaKind::Leaf { name } => SpecSchemaKind::Leaf { name: name@ },
        SchemaKind::Reference { target } => SpecSchemaKind::Reference { target: target@ },
        SchemaKind::StringValues { values } => SpecSchemaKind::StringValues { values: strings_view(values@) },
        SchemaKind::IntValues { numbers, base } => SpecSchemaKind::IntValues { numbers: ints_view(numbers@), base: base@ },
        SchemaKind::Object { properties, required, additional } => SpecSchemaKind::Object {
            properties: props_view(properties@),
            required: strings_view(required@),
            additional: match additional {
                AdditionalProps::Unset => SpecAdditionalProps::Unset,
                AdditionalProps::Forbidden => SpecAdditionalProps::Forbidden,
                AdditionalProps::Constrained(b) => SpecAdditionalProps::Constrained(Box::new(node_view(*b))),
            },
        },
        SchemaKind::Array { item, min_items, max_items } => SpecSchemaKind::Array {
            item: Box::new(node_view(*item)),
            min_items: opt_nat_view(min_items),
            max_items: opt_nat_view(max_items),
        },
        SchemaKind::AllOf { items } => SpecSchemaKind::AllOf { items: nodes_view(items@) },
        SchemaKind::OneOf { items, discriminator } => SpecSchemaKind::OneOf {
            items: nodes_view(items@),
            discriminator: opt_str_view(discriminator),
        },
    }
}

/// View of a schema node.
pub open spec fn node_view(n: SchemaNode) -> SpecSchema
    decreases n,
{
    SpecSchema { kind: kind_view(n.kind), meta: n.meta@ }
}

/// Taking one more element splits off exactly that element.
pub proof fn lemma_take_succ<A>(s: Seq<A>, i: int)
    requires
        0 <= i < s.len(),
    ensures
        s.take(i + 1).drop_last() == s.take(i),
        s.take(i + 1).last() == s[i],
{
    assert(s.take(i + 1).drop_last() =~= s.take(i));
}

/// Appending a property appends its view.
pub proof fn lemma_props_view_push(ps: Seq<Property>, p: Property)
    ensures
        props_view(ps.push(p)) == props_view(ps).push((p.name@, node_view(p.schema))),
{
    assert(ps.push(p).subrange(0, ps.push(p).len() - 1) =~= ps);
    assert(ps.push(p).last() == p);
}

/// Appending a node appends its view.
pub proof fn lemma_nodes_view_push(ns: Seq<SchemaNode>, n: SchemaNode)
    ensures
        nodes_view(ns.push(n)) == nodes_view(ns).push(node_view(n)),
{
    assert(ns.push(n).subrange(0, ns.push(n).len() - 1) =~= ns);
    assert(ns.push(n).last() == n);
}

/// Appending a string appends its view.
pub proof fn lemma_strings_view_push(ss: Seq<String>, s: String)
    ensures
        strings_view(ss.push(s)) == strings_view(ss).push(s@),
{
    assert(strings_view(ss.push(s)) =~= strings_view(ss).push(s@));
}

/// The view of a property list is pointwise.
pub proof fn lemma_props_view_index(ps: Seq<Property>)
    ensures
        props_view(ps).len() == ps.len(),
        forall|i: int|
            0 <= i < ps.len() ==> props_view(ps)[i] == (ps[i].name@, node_view(ps[i].schema)),
    decreases ps.len(),
{
    if ps.len() > 0 {
        lemma_props_view_index(ps.subrange(0, ps.len() - 1));
        assert(forall|i: int|
            0 <= i < ps.len() - 1 ==> ps.subrange(0, ps.len() - 1)[i] == ps[i]);
    }
}

/// The view of a node list is pointwise.
pub proof fn lemma_nodes_view_index(ns: Seq<SchemaNode>)
    ensures
        nodes_view(ns).len() == ns.len(),
        forall|i: int| 0 <= i < ns.len() ==> nodes_view(ns)[i] == node_view(ns[i]),
    decreases ns.len(),
{
    if ns.len() > 0 {
        lemma_nodes_view_index(ns.subrange(0, ns.len() - 1));
        assert(forall|i: int|
            0 <= i < ns.len() - 1 ==> ns.subrange(0, ns.len() - 1)[i] == ns[i]);
    }
}

impl View for SchemaNode {
    type V = SpecSchema;

    open spec fn view(&self) -> SpecSchema {
        node_view(*self)
    }
}

impl SchemaNode {
    /// Builds the empty-schema sentinel: it matches any payload.
    pub fn empty() -> (r: SchemaNode)
        ensures
            r@ == (SpecSchema { kind: SpecSchemaKind::Empty, meta: Meta::spec_none() }),
    {
        SchemaNode { kind: SchemaKind::Empty, meta: Meta::none() }
    }

    /// A structural copy with the same view.
    pub fn duplicate(&self) -> (r: SchemaNode)
        ensures
            node_view(r) == node_view(*self),
        decreases *self,
    {
        SchemaNode { kind: dup_kind(&self.kind), meta: dup_meta(&self.meta) }
    }
}

/// Copies an optional string.
pub fn dup_opt_string(o: &Option<String>) -> (r: Option<String>)
    ensures
        opt_str_view(r) == opt_str_view(*o),
{
    match o {
        Some(s) => Some(s.clone()),
        None => None,
    }
}

/// Copies a set of annotations.
pub fn dup_meta(m: &Meta) -> (r: Meta)
    ensures
        r@ == m@,
{
    Meta {
        description: dup_opt_string(&m.description),
        deprecated: m.deprecated,
        title: dup_opt_string(&m.title),
        example: dup_opt_string(&m.example),
    }
}

fn dup_strings(ss: &Vec<String>) -> (r: Vec<String>)
    ensures
        strings_view(r@) == strings_view(ss@),
{
    let n = ss.len();
    let mut out: Vec<String> = Vec::new();
    let mut i: usize = 0;
    while i < n
        invariant
            n == ss@.len(),
            i <= n,
            out@.len() == i,
            forall|j: int| 0 <= j < i ==> out@[j]@ == ss@[j]@,
        decreases n - i,
    {
        out.push(ss[i].clone());
        i += 1;
    }
    proof {
        assert(strings_view(out@) =~= strings_view(ss@));
    }
    out
}

fn dup_numbers(vs: &Vec<i64>) -> (r: Vec<i64>)
    ensures
        r@ == vs@,
{
    let n = vs.len();
    let mut out: Vec<i64> = Vec::new();
    let mut i: usize = 0;
    while i < n
        invariant
            n == vs@.len(),
            i <= n,
            out@ == vs@.take(i as int),
        decreases n - i,
    {
        out.push(vs[i]);
        proof {
            assert(out@ =~= vs@.take(i + 1));
        }
        i += 1;
    }
    proof {
        assert(vs@.take(n as int) =~= vs@);
    }
    out
}

fn dup_nodes(ns: &Vec<SchemaNode>) -> (r: Vec<SchemaNode>)
    ensures
        nodes_view(r@) == nodes_view(ns@),
    decreases *ns,
{
    let n = ns.len();
    let mut out: Vec<SchemaNode> = Vec::new();
    let mut i: usize = 0;
    proof {
        lemma_nodes_view_index(ns@);
    }
    while i < n
        invariant
            n == ns@.len(),
            i <= n,
            out@.len() == i,
            forall|j: int| 0 <= j < i ==> node_view(out@[j]) == node_view(ns@[j]),
        decreases n - i,
    {
        let copy = ns[i].duplicate();
        out.push(copy);
        i += 1;
    }
    proof {
        lemma_nodes_view_index(out@);
        assert(nodes_view(out@) =~= nodes_view(ns@));
    }
    out
}

fn dup_props(ps: &Vec<Property>) -> (r: Vec<Property>)
    ensures
        props_view(r@) == props_view(ps@),
    decreases *ps,
{
    let n = ps.len();
    let mut out: Vec<Property> = Vec::new();
    let mut i: usize = 0;
    proof {
        lemma_props_view_index(ps@);
    }
    while i < n
        invariant
            n == ps@.len(),
            i <= n,
            out@.len() == i,
            forall|j: int|
                0 <= j < i ==> out@[j].name@ == ps@[j].name@ && node_view(out@[j].schema)
                    == node_view(ps@[j].schema),
        decreases n - i,
    {
        let copy = Property { name: ps[i].name.clone(), schema: ps[i].schema.duplicate() };
        out.push(copy);
        i += 1;
    }
    proof {
        lemma_props_view_index(out@);
        assert(props_view(out@) =~= props_view(ps@));
    }
    out
}

fn dup_kind(k: &SchemaKind) -> (r: SchemaKind)
    ensures
        kind_view(r) == kind_view(*k),
    decreases *k,
{
    match k {
        SchemaKind::Empty => SchemaKind::Empty,
        SchemaKind::Leaf { name } => SchemaKind::Leaf { name: name.clone() },
        SchemaKind::Reference { target } => SchemaKind::Reference { target: target.clone() },
        SchemaKind::StringValues { values } => SchemaKind::StringValues {
            values: dup_strings(values),
        },
        SchemaKind::IntValues { numbers, base } => SchemaKind::IntValues {
            numbers: dup_numbers(numbers),
            base: base.clone(),
        },
        SchemaKind::Object { properties, required, additional } => SchemaKind::Object {
            properties: dup_props(properties),
            required: dup_strings(required),
            additional: match additional {
                AdditionalProps::Unset => AdditionalProps::Unset,
                AdditionalProps::Forbidden => AdditionalProps::Forbidden,
                AdditionalProps::Constrained(b) => AdditionalProps::Constrained(
                    Box::new(b.duplicate()),
                ),
            },
        },
        SchemaKind::Array { item, min_items, max_items } => SchemaKind::Array {
            item: Box::new(item.duplicate()),
            min_items: *min_items,
            max_items: *max_items,
        },
        SchemaKind::AllOf { items } => SchemaKind::AllOf { items: dup_nodes(items) },
        SchemaKind::OneOf { items, discriminator } => SchemaKind::OneOf {
            items: dup_nodes(items),
            discriminator: dup_opt_string(discriminator),
        },
    }
}

} // verus!
