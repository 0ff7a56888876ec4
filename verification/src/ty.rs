//! The type language of IDL signatures: paths, generic arguments and types,
//! as executable values, together with their mathematical views.

use vstd::prelude::*;

verus! {

/// A literal as it appears in attributes, array lengths and const generics.
pub enum Lit {
    /// A string literal, holding its value (without quotes).
    Str(String),
    /// An integer literal, holding its source text (digits and suffix).
    Int(String),
    /// Any other literal, holding its source text.
    Other(String),
}

/// The expressions the compiler reads: array lengths and const arguments.
pub enum Expr {
    Lit(Lit),
    Path(Path),
    /// Any other expression, holding its source text.
    Other(String),
}

pub struct Path {
    pub leading_colon: bool,
    pub segments: Vec<PathSegment>,
}

pub struct PathSegment {
    pub ident: String,
    pub arguments: PathArguments,
}

pub enum PathArguments {
    Empty,
    /// `<A, B, ...>`
    AngleBracketed(Vec<GenericArgument>),
    /// `(A, B) -> C`
    Parenthesized(Vec<Type>, ReturnType),
}

pub enum GenericArgument {
    /// A lifetime, with its leading quote, e.g. `'a`.
    Lifetime(String),
    Type(Type),
    /// `Item = T`
    Binding(String, Type),
    /// `Item: Bound`, holding its source text.
    Constraint(String),
    Const(Expr),
}

pub enum TypeParamBound {
    Trait(Path),
    /// A lifetime, with its leading quote.
    Lifetime(String),
}

pub enum ReturnType {
    Default,
    Type(Box<Type>),
}

pub enum Type {
    /// `[T; N]`
    Array(Box<Type>, Expr),
    /// A bare function type, holding its source text.
    BareFn(String),
    /// An invisible group around a type.
    Group(Box<Type>),
    /// `impl Trait`, holding its source text.
    ImplTrait(String),
    /// `_`
    Infer,
    /// A macro in type position, holding its source text.
    Macro(String),
    /// `!`
    Never,
    /// `(T)`
    Paren(Box<Type>),
    Path(Path),
    /// `*const T` (false) or `*mut T` (true).
    Ptr(bool, Box<Type>),
    /// `&T` (false) or `&mut T` (true).
    Reference(bool, Box<Type>),
    /// `[T]`
    Slice(Box<Type>),
    /// `dyn A + B`
    TraitObject(Vec<TypeParamBound>),
    /// `(A, B, ...)`
    Tuple(Vec<Type>),
    /// Tokens the parser did not understand, holding their source text.
    Verbatim(String),
}

// ---------------------------------------------------------------------------
// Mathematical views

pub enum SLit {
    Str(Seq<char>),
    Int(Seq<char>),
    Other(Seq<char>),
}

pub enum SExpr {
    Lit(SLit),
    Path(SPath),
    Other(Seq<char>),
}

pub struct SPath {
    pub leading_colon: bool,
    pub segments: Seq<SPathSegment>,
}

pub struct SPathSegment {
    pub ident: Seq<char>,
    pub arguments: SPathArguments,
}

pub enum SPathArguments {
    Empty,
    AngleBracketed(Seq<SGenericArgument>),
    Parenthesized(Seq<SType>, SReturnType),
}

pub enum SGenericArgument {
    Lifetime(Seq<char>),
    Type(SType),
    Binding(Seq<char>, SType),
    Constraint(Seq<char>),
    Const(SExpr),
}

pub enum STypeParamBound {
    Trait(SPath),
    Lifetime(Seq<char>),
}

pub enum SReturnType {
    Default,
    Type(Box<SType>),
}

pub enum SType {
    Array(Box<SType>, SExpr),
    BareFn(Seq<char>),
    Group(Box<SType>),
    ImplTrait(Seq<char>),
    Infer,
    Macro(Seq<char>),
    Never,
    Paren(Box<SType>),
    Path(SPath),
    Ptr(bool, Box<SType>),
    Reference(bool, Box<SType>),
    Slice(Box<SType>),
    TraitObject(Seq<STypeParamBound>),
    Tuple(Seq<SType>),
    Verbatim(Seq<char>),
}

impl View for Lit {
    type V = SLit;

    open spec fn view(&self) -> SLit {
        match self {
            Lit::Str(s) => SLit::Str(s@),
            Lit::Int(s) => SLit::Int(s@),
            Lit::Other(s) => SLit::Other(s@),
        }
    }
}

impl View for Expr {
    type V = SExpr;

    open spec fn view(&self) -> SExpr {
        view_expr(*self)
    }
}

impl View for Path {
    type V = SPath;

    open spec fn view(&self) -> SPath {
        view_path(*self)
    }
}

impl View for PathSegment {
    type V = SPathSegment;

    open spec fn view(&self) -> SPathSegment {
        view_segment(*self)
    }
}

impl View for PathArguments {
    type V = SPathArguments;

    open spec fn view(&self) -> SPathArguments {
        view_arguments(*self)
    }
}

impl View for GenericArgument {
    type V = SGenericArgument;

    open spec fn view(&self) -> SGenericArgument {
        view_generic_argument(*self)
    }
}

impl View for TypeParamBound {
    type V = STypeParamBound;

    open spec fn view(&self) -> STypeParamBound {
        view_bound(*self)
    }
}

impl View for ReturnType {
    type V = SReturnType;

    open spec fn view(&self) -> SReturnType {
        view_return_type(*self)
    }
}

impl View for Type {
    type V = SType;

    open spec fn view(&self) -> SType {
        view_type(*self)
    }
}

pub open spec fn view_path(p: Path) -> SPath
    decreases p,
{
    SPath { leading_colon: p.leading_colon, segments: view_segments(p.segments@) }
}

pub open spec fn view_segments(s: Seq<PathSegment>) -> Seq<SPathSegment>
    decreases s,
{
    Seq::new(s.len(), |i: int| if 0 <= i < s.len() { view_segment(s[i]) } else { SPathSegment { ident: Seq::empty(), arguments: SPathArguments::Empty } })
}

pub open spec fn view_segment(s: PathSegment) -> SPathSegment
    decreases s,
{
    SPathSegment { ident: s.ident@, arguments: view_arguments(s.arguments) }
}

pub open spec fn view_arguments(a: PathArguments) -> SPathArguments
    decreases a,
{
    match a {
        PathArguments::Empty => SPathArguments::Empty,
        PathArguments::AngleBracketed(args) => SPathArguments::AngleBracketed(
            view_generic_arguments(args@),
        ),
        PathArguments::Parenthesized(inputs, output) => SPathArguments::Parenthesized(
            view_types(inputs@),
            view_return_type(output),
        ),
    }
}

pub open spec fn view_generic_arguments(s: Seq<GenericArgument>) -> Seq<SGenericArgument>
    decreases s,
{
    Seq::new(s.len(), |i: int| if 0 <= i < s.len() { view_generic_argument(s[i]) } else { SGenericArgument::Lifetime(Seq::empty()) })
}

pub open spec fn view_generic_argument(a: GenericArgument) -> SGenericArgument
    decreases a,
{
    match a {
        GenericArgument::Lifetime(l) => SGenericArgument::Lifetime(l@),
        GenericArgument::Type(t) => SGenericArgument::Type(view_type(t)),
        GenericArgument::Binding(id, t) => SGenericArgument::Binding(id@, view_type(t)),
        GenericArgument::Constraint(s) => SGenericArgument::Constraint(s@),
        GenericArgument::Const(e) => SGenericArgument::Const(view_expr(e)),
    }
}

pub open spec fn view_expr(e: Expr) -> SExpr
    decreases e,
{
    match e {
        Expr::Lit(l) => SExpr::Lit(l@),
        Expr::Path(p) => SExpr::Path(view_path(p)),
        Expr::Other(s) => SExpr::Other(s@),
    }
}

pub open spec fn view_bounds(s: Seq<TypeParamBound>) -> Seq<STypeParamBound>
    decreases s,
{
    Seq::new(s.len(), |i: int| if 0 <= i < s.len() { view_bound(s[i]) } else { STypeParamBound::Lifetime(Seq::empty()) })
}

pub open spec fn view_bound(b: TypeParamBound) -> STypeParamBound
    decreases b,
{
    match b {
        TypeParamBound::Trait(p) => STypeParamBound::Trait(view_path(p)),
        TypeParamBound::Lifetime(l) => STypeParamBound::Lifetime(l@),
    }
}

pub open spec fn view_return_type(r: ReturnType) -> SReturnType
    decreases r,
{
    match r {
        ReturnType::Default => SReturnType::Default,
        ReturnType::Type(t) => SReturnType::Type(Box::new(view_type(*t))),
    }
}

pub open spec fn view_types(s: Seq<Type>) -> Seq<SType>
    decreases s,
{
    Seq::new(s.len(), |i: int| if 0 <= i < s.len() { view_type(s[i]) } else { SType::Infer })
}

pub open spec fn view_type(t: Type) -> SType
    decreases t,
{
    match t {
        Type::Array(e, len) => SType::Array(Box::new(view_type(*e)), view_expr(len)),
        Type::BareFn(s) => SType::BareFn(s@),
        Type::Group(e) => SType::Group(Box::new(view_type(*e))),
        Type::ImplTrait(s) => SType::ImplTrait(s@),
        Type::Infer => SType::Infer,
        Type::Macro(s) => SType::Macro(s@),
        Type::Never => SType::Never,
        Type::Paren(e) => SType::Paren(Box::new(view_type(*e))),
        Type::Path(p) => SType::Path(view_path(p)),
        Type::Ptr(m, e) => SType::Ptr(m, Box::new(view_type(*e))),
        Type::Reference(m, e) => SType::Reference(m, Box::new(view_type(*e))),
        Type::Slice(e) => SType::Slice(Box::new(view_type(*e))),
        Type::TraitObject(b) => SType::TraitObject(view_bounds(b@)),
        Type::Tuple(v) => SType::Tuple(view_types(v@)),
        Type::Verbatim(s) => SType::Verbatim(s@),
    }
}

} // verus!
