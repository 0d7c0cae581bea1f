use vstd::prelude::*;

verus! {

/// One argument of a generic path segment: a nested type or a lifetime.
#[derive(Debug, PartialEq, Eq)]
pub enum TypeArg {
    Ty(TypeExpr),
    Lifetime(String),
}

/// One segment of a type path, with its generic arguments.
#[derive(Debug, PartialEq, Eq)]
pub struct PathSeg {
    pub name: String,
    pub args: Vec<TypeArg>,
}

/// A named type path, such as a container with its generic arguments.
#[derive(Debug, PartialEq, Eq)]
pub struct TypePath {
    pub segments: Vec<PathSeg>,
}

/// A declared type as the synthesizer sees it: a path, or some other form
/// of type named only by its spelling.
#[derive(Debug, PartialEq, Eq)]
pub enum TypeExpr {
    Path(TypePath),
    Other { form: String },
}

/// Mathematical model of [`TypeArg`].
#[verifier::ext_equal]
pub enum SpecTypeArg {
    Ty(SpecTypeExpr),
    Lifetime(Seq<char>),
}

/// Mathematical model of [`PathSeg`].
#[verifier::ext_equal]
pub struct SpecPathSeg {
    pub name: Seq<char>,
    pub args: Seq<SpecTypeArg>,
}

/// Mathematical model of [`TypePath`].
#[verifier::ext_equal]
pub struct SpecTypePath {
    pub segments: Seq<SpecPathSeg>,
}

/// Mathematical model of [`TypeExpr`].
#[verifier::ext_equal]
pub enum SpecTypeExpr {
    Path(SpecTypePath),
    Other { form: Seq<char> },
}

/// View of a list of generic arguments.
pub open spec fn args_view(args: Seq<TypeArg>) -> Seq<SpecTypeArg>
    decreases args,
{
    if args.len() == 0 {
        Seq::empty()
    } else {
        args_view(args.subrange(0, args.len() - 1)).push(arg_view(args.last()))
    }
}

/// View of one generic argument.
pub open spec fn arg_view(a: TypeArg) -> SpecTypeArg
    decreases a,
{
    match a {
        TypeArg::Ty(t) => SpecTypeArg::Ty(type_expr_view(t)),
        TypeArg::Lifetime(l) => SpecTypeArg::Lifetime(l@),
    }
}

/// View of one path segment.
pub open spec fn seg_view(s: PathSeg) -> SpecPathSeg
    decreases s,
{
    SpecPathSeg { name: s.name@, args: args_view(s.args@) }
}

/// View of a list of path segments.
pub open spec fn segs_view(ss: Seq<PathSeg>) -> Seq<SpecPathSeg>
    decreases ss,
{
    if ss.len() == 0 {
        Seq::empty()
    } else {
        segs_view(ss.subrange(0, ss.len() - 1)).push(seg_view(ss.last()))
    }
}

/// View of a type path.
pub open spec fn path_view(p: TypePath) -> SpecTypePath
    decreases p,
{
    SpecTypePath { segments: segs_view(p.segments@) }
}

/// View of a type expression.
pub open spec fn type_expr_view(t: TypeExpr) -> SpecTypeExpr
    decreases t,
{
    match t {
        TypeExpr::Path(p) => SpecTypeExpr::Path(path_view(p)),
        TypeExpr::Other { form } => SpecTypeExpr::Other { form: form@ },
    }
}

/// The view of an argument list is pointwise.
pub proof fn lemma_args_view_index(args: Seq<TypeArg>)
    ensures
        args_view(args).len() == args.len(),
        forall|i: int| 0 <= i < args.len() ==> args_view(args)[i] == arg_view(args[i]),
    decreases args.len(),
{
    if args.len() > 0 {
        lemma_args_view_index(args.subrange(0, args.len() - 1));
        assert(forall|i: int|
            0 <= i < args.len() - 1 ==> args.subrange(0, args.len() - 1)[i] == args[i]);
    }
}

/// The view of a segment list is pointwise.
pub proof fn lemma_segs_view_index(ss: Seq<PathSeg>)
    ensures
        segs_view(ss).len() == ss.len(),
        forall|i: int| 0 <= i < ss.len() ==> segs_view(ss)[i] == seg_view(ss[i]),
    decreases ss.len(),
{
    if ss.len() > 0 {
        lemma_segs_view_index(ss.subrange(0, ss.len() - 1));
        assert(forall|i: int| 0 <= i < ss.len() - 1 ==> ss.subrange(0, ss.len() - 1)[i] == ss[i]);
    }
}

/// Structural equality of two declared types.
pub fn type_expr_eq(a: &TypeExpr, b: &TypeExpr) -> (r: bool)
    ensures
        r == (type_expr_view(*a) == type_expr_view(*b)),
    decreases *a,
{
    match a {
        TypeExpr::Other { form: fa } => match b {
            TypeExpr::Other { form: fb } => {
                let r = *fa == *fb;
                proof {
                    assert(type_expr_view(*a) == (SpecTypeExpr::Other { form: fa@ }));
                    assert(type_expr_view(*b) == (SpecTypeExpr::Other { form: fb@ }));
                }
                r
            },
            TypeExpr::Path(_) => false,
        },
        TypeExpr::Path(pa) => match b {
            TypeExpr::Path(pb) => {
                let r = path_eq(pa, pb);
                proof {
                    assert(type_expr_view(*a) == SpecTypeExpr::Path(path_view(*pa)));
                    assert(type_expr_view(*b) == SpecTypeExpr::Path(path_view(*pb)));
                }
                r
            },
            TypeExpr::Other { .. } => false,
        },
    }
}

/// Structural equality of two type paths.
pub fn path_eq(a: &TypePath, b: &TypePath) -> (r: bool)
    ensures
        r == (path_view(*a) == path_view(*b)),
    decreases *a,
{
    let n = a.segments.len();
    if n != b.segments.len() {
        proof {
            lemma_segs_view_index(a.segments@);
            lemma_segs_view_index(b.segments@);
        }
        return false;
    }
    let mut i: usize = 0;
    while i < n
        invariant
            n == a.segments@.len(),
            n == b.segments@.len(),
            i <= n,
            forall|j: int| 0 <= j < i ==> seg_view(a.segments@[j]) == seg_view(b.segments@[j]),
        decreases n - i,
    {
        if !seg_eq(&a.segments[i], &b.segments[i]) {
            proof {
                lemma_segs_view_index(a.segments@);
                lemma_segs_view_index(b.segments@);
                assert(segs_view(a.segments@)[i as int] != segs_view(b.segments@)[i as int]);
                assert(segs_view(a.segments@) != segs_view(b.segments@));
            }
            return false;
        }
        i += 1;
    }
    proof {
        lemma_segs_view_index(a.segments@);
        lemma_segs_view_index(b.segments@);
        assert(segs_view(a.segments@) =~= segs_view(b.segments@));
    }
    true
}

fn seg_eq(a: &PathSeg, b: &PathSeg) -> (r: bool)
    ensures
        r == (seg_view(*a) == seg_view(*b)),
    decreases *a,
{
    if !(a.name == b.name) {
        return false;
    }
    let n = a.args.len();
    if n != b.args.len() {
        proof {
            lemma_args_view_index(a.args@);
            lemma_args_view_index(b.args@);
        }
        return false;
    }
    let mut i: usize = 0;
    while i < n
        invariant
            n == a.args@.len(),
            n == b.args@.len(),
            i <= n,
            forall|j: int| 0 <= j < i ==> arg_view(a.args@[j]) == arg_view(b.args@[j]),
        decreases n - i,
    {
        if !arg_eq(&a.args[i], &b.args[i]) {
            proof {
                lemma_args_view_index(a.args@);
                lemma_args_view_index(b.args@);
                assert(args_view(a.args@)[i as int] != args_view(b.args@)[i as int]);
                assert(args_view(a.args@) != args_view(b.args@));
            }
            return false;
        }
        i += 1;
    }
    proof {
        lemma_args_view_index(a.args@);
        lemma_args_view_index(b.args@);
        assert(args_view(a.args@) =~= args_view(b.args@));
    }
    true
}

fn arg_eq(a: &TypeArg, b: &TypeArg) -> (r: bool)
    ensures
        r == (arg_view(*a) == arg_view(*b)),
    decreases *a,
{
    match a {
        TypeArg::Lifetime(la) => match b {
            TypeArg::Lifetime(lb) => {
                let r = *la == *lb;
                proof {
                    assert(arg_view(*a) == SpecTypeArg::Lifetime(la@));
                    assert(arg_view(*b) == SpecTypeArg::Lifetime(lb@));
                }
                r
            },
            TypeArg::Ty(_) => false,
        },
        TypeArg::Ty(ta) => match b {
            TypeArg::Ty(tb) => {
                let r = type_expr_eq(ta, tb);
                proof {
                    assert(arg_view(*a) == SpecTypeArg::Ty(type_expr_view(*ta)));
                    assert(arg_view(*b) == SpecTypeArg::Ty(type_expr_view(*tb)));
                }
                r
            },
            TypeArg::Lifetime(_) => false,
        },
    }
}

/// A structural copy of a generic-argument list with the same view.
fn dup_args(args: &Vec<TypeArg>) -> (r: Vec<TypeArg>)
    ensures
        args_view(r@) == args_view(args@),
    decreases *args,
{
    let n = args.len();
    let mut out: Vec<TypeArg> = Vec::new();
    let mut i: usize = 0;
    proof {
        lemma_args_view_index(args@);
    }
    while i < n
        invariant
            n == args@.len(),
            i <= n,
            out@.len() == i,
            forall|j: int| 0 <= j < i ==> arg_view(out@[j]) == arg_view(args@[j]),
        decreases n - i,
    {
        let copy = dup_arg(&args[i]);
        out.push(copy);
        i += 1;
    }
    proof {
        lemma_args_view_index(out@);
        assert(args_view(out@) =~= args_view(args@));
    }
    out
}

fn dup_arg(a: &TypeArg) -> (r: TypeArg)
    ensures
        arg_view(r) == arg_view(*a),
    decreases *a,
{
    match a {
        TypeArg::Ty(t) => TypeArg::Ty(dup_type_expr(t)),
        TypeArg::Lifetime(l) => TypeArg::Lifetime(l.clone()),
    }
}

fn dup_segs(ss: &Vec<PathSeg>) -> (r: Vec<PathSeg>)
    ensures
        segs_view(r@) == segs_view(ss@),
    decreases *ss,
{
    let n = ss.len();
    let mut out: Vec<PathSeg> = Vec::new();
    let mut i: usize = 0;
    proof {
        lemma_segs_view_index(ss@);
    }
    while i < n
        invariant
            n == ss@.len(),
            i <= n,
            out@.len() == i,
            forall|j: int| 0 <= j < i ==> seg_view(out@[j]) == seg_view(ss@[j]),
        decreases n - i,
    {
        let copy = PathSeg { name: ss[i].name.clone(), args: dup_args(&ss[i].args) };
        out.push(copy);
        i += 1;
    }
    proof {
        lemma_segs_view_index(out@);
        assert(segs_view(out@) =~= segs_view(ss@));
    }
    out
}

/// A structural copy of a type path with the same view.
pub fn dup_path(p: &TypePath) -> (r: TypePath)
    ensures
        path_view(r) == path_view(*p),
    decreases *p,
{
    TypePath { segments: dup_segs(&p.segments) }
}

/// A structural copy of a type expression with the same view.
pub fn dup_type_expr(t: &TypeExpr) -> (r: TypeExpr)
    ensures
        type_expr_view(r) == type_expr_view(*t),
    decreases *t,
{
    match t {
        TypeExpr::Path(p) => TypeExpr::Path(dup_path(p)),
        TypeExpr::Other { form } => TypeExpr::Other { form: form.clone() },
    }
}

impl View for TypeExpr {
    type V = SpecTypeExpr;

    open spec fn view(&self) -> SpecTypeExpr {
        type_expr_view(*self)
    }
}

impl View for TypePath {
    type V = SpecTypePath;

    open spec fn view(&self) -> SpecTypePath {
        path_view(*self)
    }
}

} // verus!
