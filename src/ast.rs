//! The item tree that the rewrite reads and produces.

use vstd::prelude::*;

verus! {

broadcast use vstd::std_specs::vec::group_vec_axioms, vstd::seq::group_seq_axioms;

/// A source location, as byte offsets.
#[derive(Clone, Copy, Debug, PartialEq, Eq, Structural)]
pub struct Span {
    pub lo: u32,
    pub hi: u32,
}

impl Span {
    /// The location given to nodes that the rewrite creates.
    pub fn dummy() -> (r: Span)
        ensures
            r == Span::synthesized(),
    {
        Span { lo: 0, hi: 0 }
    }

    pub open spec fn synthesized() -> Span {
        Span { lo: 0, hi: 0 }
    }
}

/// The generic arguments of one path segment.
#[derive(Debug, PartialEq, Eq)]
pub enum GenericArgs {
    /// No arguments: `Foo`.
    Bare,
    /// Angle-bracketed arguments: `Vec<T>`.
    Angle(Vec<Ty>),
    /// Parenthesized arguments of a callable trait: `Fn(A, B)`.
    Paren(Vec<Ty>),
}

#[derive(Debug, PartialEq, Eq)]
pub struct PathSegment {
    pub name: String,
    pub args: GenericArgs,
}

#[derive(Debug, PartialEq, Eq)]
pub enum TyKind {
    /// A named type, one segment per `::`-separated part.
    Path(Vec<PathSegment>),
    /// A reference; the flag says whether it is mutable.
    Ref(bool, Box<Ty>),
    /// A tuple type; `()` is the empty tuple.
    Tuple(Vec<Ty>),
    /// The type of a `self` receiver written without a type.
    ImplicitSelf,
    /// Any other type, kept as written.
    Other(String),
}

#[derive(Debug, PartialEq, Eq)]
pub struct Ty {
    pub kind: TyKind,
    pub span: Span,
}

/// An outer attribute such as `#[sig]`: its path, where it was written.
#[derive(Debug, PartialEq, Eq)]
pub struct Attribute {
    pub path: Vec<PathSegment>,
    pub span: Span,
}

/// The binding pattern of a parameter.
#[derive(Debug, PartialEq, Eq)]
pub enum Pat {
    /// A plain name, possibly `mut`: `x`, `mut x`, `self`.
    Ident(String),
    /// The ignoring pattern `_`.
    Wild,
    /// Any other pattern (a tuple or a struct pattern), kept as written.
    Other(String),
}

#[derive(Debug, PartialEq, Eq)]
pub struct Param {
    pub pat: Pat,
    pub ty: Ty,
    pub span: Span,
}

/// A function signature. A `None` return type is the omitted one.
#[derive(Debug, PartialEq, Eq)]
pub struct Signature {
    pub params: Vec<Param>,
    pub ret: Option<Ty>,
}

#[derive(Debug, PartialEq, Eq)]
pub enum Expr {
    /// A local name.
    Ident(String),
    /// The receiver `self`.
    SelfValue,
    /// Field access `base.name`.
    Field(Box<Expr>, String),
    /// Method call `receiver.name(args)`.
    MethodCall(Box<Expr>, String, Vec<Expr>),
    /// Call `callee(args)`.
    Call(Box<Expr>, Vec<Expr>),
    /// `for pat in iter body`.
    ForLoop(Pat, Box<Expr>, Block),
    /// Any other expression, kept as written.
    Other(String),
}

#[derive(Debug, PartialEq, Eq)]
pub enum Stmt {
    /// An expression without a trailing semicolon.
    Expr(Expr),
    /// An expression followed by a semicolon.
    Semi(Expr),
    /// Any other statement, kept as written.
    Other(String),
}

#[derive(Debug, PartialEq, Eq)]
pub struct Block {
    pub stmts: Vec<Stmt>,
    pub span: Span,
}

/// A structure field. Fields of a tuple structure have no name.
#[derive(Debug, PartialEq, Eq)]
pub struct Field {
    pub name: Option<String>,
    pub public: bool,
    pub ty: Ty,
    pub attrs: Vec<Attribute>,
    pub span: Span,
}

#[derive(Debug, PartialEq, Eq)]
pub enum MemberKind {
    Method(Signature, Block),
    /// An associated constant or type, kept as written.
    Other(String),
}

/// A member of an `impl` block or of a trait.
#[derive(Debug, PartialEq, Eq)]
pub struct Member {
    pub name: String,
    pub attrs: Vec<Attribute>,
    pub kind: MemberKind,
    pub span: Span,
}

#[derive(Debug, PartialEq, Eq)]
pub enum StructBody {
    Named(Vec<Field>),
    Tuple(Vec<Field>),
    Unit,
}

#[derive(Debug, PartialEq, Eq)]
pub enum ItemKind {
    Struct(StructBody),
    /// `impl Type { members }`.
    Impl(Ty, Vec<Member>),
    /// A module and its items, in order.
    Mod(Vec<Item>),
    Fn(Signature, Block),
    /// Any other item, kept as written.
    Other(String),
}

/// An item; an `impl` block has an empty name.
#[derive(Debug, PartialEq, Eq)]
pub struct Item {
    pub name: String,
    pub attrs: Vec<Attribute>,
    pub kind: ItemKind,
    pub span: Span,
}

/// What the host hands the rewrite: the item under the driving attribute,
/// with that attribute already taken off.
#[derive(Debug, PartialEq, Eq)]
pub enum Annotated {
    Item(Item),
    TraitMember(Member),
    ImplMember(Member),
}

/// Two types are the same tree: same shape, same names.
pub open spec fn ty_eq(a: Ty, b: Ty) -> bool
    decreases a,
{
    a.span == b.span && match (a.kind, b.kind) {
        (TyKind::Path(x), TyKind::Path(y)) => {
            &&& x.len() == y.len()
            &&& forall|i: int| 0 <= i < x.len() ==> #[trigger] segment_eq(x[i], y[i])
        },
        (TyKind::Ref(m, x), TyKind::Ref(n, y)) => m == n && ty_eq(*x, *y),
        (TyKind::Tuple(x), TyKind::Tuple(y)) => {
            &&& x.len() == y.len()
            &&& forall|i: int| 0 <= i < x.len() ==> #[trigger] ty_eq(x[i], y[i])
        },
        (TyKind::ImplicitSelf, TyKind::ImplicitSelf) => true,
        (TyKind::Other(x), TyKind::Other(y)) => x@ == y@,
        _ => false,
    }
}

/// Two sequences of types are the same trees, position by position.
pub open spec fn tys_eq(x: Seq<Ty>, y: Seq<Ty>) -> bool {
    &&& x.len() == y.len()
    &&& forall|i: int|
        #![trigger ty_eq(x[i], y[i])]
        #![trigger y[i]]
        0 <= i < x.len() ==> ty_eq(x[i], y[i])
}

pub open spec fn segment_eq(a: PathSegment, b: PathSegment) -> bool
    decreases a,
{
    a.name@ == b.name@ && match (a.args, b.args) {
        (GenericArgs::Bare, GenericArgs::Bare) => true,
        (GenericArgs::Angle(x), GenericArgs::Angle(y)) => {
            &&& x.len() == y.len()
            &&& forall|i: int| 0 <= i < x.len() ==> #[trigger] ty_eq(x[i], y[i])
        },
        (GenericArgs::Paren(x), GenericArgs::Paren(y)) => {
            &&& x.len() == y.len()
            &&& forall|i: int| 0 <= i < x.len() ==> #[trigger] ty_eq(x[i], y[i])
        },
        _ => false,
    }
}

impl Ty {
    /// A deep copy of the type.
    pub fn duplicate(&self) -> (r: Ty)
        ensures
            ty_eq(*self, r),
        decreases *self,
    {
        let kind = match &self.kind {
            TyKind::Path(segs) => TyKind::Path(duplicate_segments(segs)),
            TyKind::Ref(m, inner) => TyKind::Ref(*m, Box::new((**inner).duplicate())),
            TyKind::Tuple(elems) => {
                TyKind::Tuple(duplicate_tys(elems))
            },
            TyKind::ImplicitSelf => TyKind::ImplicitSelf,
            TyKind::Other(text) => TyKind::Other(text.clone()),
        };
        Ty { kind, span: self.span }
    }
}

impl PathSegment {
    /// A deep copy of the segment.
    pub fn duplicate(&self) -> (r: PathSegment)
        ensures
            segment_eq(*self, r),
        decreases *self,
    {
        let args = match &self.args {
            GenericArgs::Bare => GenericArgs::Bare,
            GenericArgs::Angle(tys) => GenericArgs::Angle(duplicate_tys(tys)),
            GenericArgs::Paren(tys) => GenericArgs::Paren(duplicate_tys(tys)),
        };
        PathSegment { name: self.name.clone(), args }
    }
}

/// A deep copy of each type, in order.
pub fn duplicate_tys(v: &Vec<Ty>) -> (r: Vec<Ty>)
    ensures
        tys_eq(v@, r@),
    decreases v,
{
    let mut r: Vec<Ty> = Vec::new();
    let mut i: usize = 0;
    while i < v.len()
        invariant
            i <= v.len(),
            r.len() == i,
            forall|j: int| 0 <= j < i ==> #[trigger] ty_eq(v[j], r[j]),
        decreases v.len() - i,
    {
        assert(decreases_to!(v => v[i as int]));
        r.push(v[i].duplicate());
        i = i + 1;
    }
    r
}

/// A deep copy of each segment, in order.
pub fn duplicate_segments(v: &Vec<PathSegment>) -> (r: Vec<PathSegment>)
    ensures
        r.len() == v.len(),
        forall|j: int|
            #![trigger segment_eq(v[j], r[j])]
            #![trigger r[j]]
            0 <= j < v.len() ==> segment_eq(v[j], r[j]),
    decreases v,
{
    let mut r: Vec<PathSegment> = Vec::new();
    let mut i: usize = 0;
    while i < v.len()
        invariant
            i <= v.len(),
            r.len() == i,
            forall|j: int| 0 <= j < i ==> #[trigger] segment_eq(v[j], r[j]),
        decreases v.len() - i,
    {
        assert(decreases_to!(v => v[i as int]));
        r.push(v[i].duplicate());
        i = i + 1;
    }
    r
}

} // verus!
