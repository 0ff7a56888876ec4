//! Deep copies of types, paths and generic arguments that keep their views.

use vstd::prelude::*;
use crate::ty::{
    view_bounds, view_generic_arguments, view_segments, view_types, Expr, GenericArgument, Lit, Path,
    PathArguments, PathSegment, ReturnType, Type, TypeParamBound,
};

verus! {

pub fn copy_lit(l: &Lit) -> (r: Lit)
    ensures
        r@ == l@,
{
    match l {
        Lit::Str(s) => Lit::Str(s.clone()),
        Lit::Int(s) => Lit::Int(s.clone()),
        Lit::Other(s) => Lit::Other(s.clone()),
    }
}

pub fn copy_expr(e: &Expr) -> (r: Expr)
    ensures
        r@ == e@,
    decreases e, 1nat,
{
    match e {
        Expr::Lit(l) => Expr::Lit(copy_lit(l)),
        Expr::Path(p) => Expr::Path(copy_path(p)),
        Expr::Other(s) => Expr::Other(s.clone()),
    }
}

pub fn copy_path(p: &Path) -> (r: Path)
    ensures
        r@ == p@,
    decreases p, 0nat,
{
    let mut segs: Vec<PathSegment> = Vec::new();
    let mut i: usize = 0;
    while i < p.segments.len()
        invariant
            i <= p.segments@.len(),
            segs@.len() == i,
            forall|j: int| 0 <= j < i ==> #[trigger] segs@[j]@ == p.segments@[j]@,
        decreases p.segments@.len() - i,
    {
        assert(decreases_to!(p => p.segments));
        assert(decreases_to!(p.segments => p.segments@));
        segs.push(copy_segment(&p.segments[i]));
        i += 1;
    }
    assert forall|k: int| 0 <= k < segs@.len() implies #[trigger] view_segments(segs@)[k] == view_segments(p.segments@)[k] by {
        assert(segs@[k]@ == p.segments@[k]@);
    }
    assert(view_segments(segs@) =~= view_segments(p.segments@));
    Path { leading_colon: p.leading_colon, segments: segs }
}

pub fn copy_segment(s: &PathSegment) -> (r: PathSegment)
    ensures
        r@ == s@,
    decreases s, 0nat,
{
    PathSegment { ident: s.ident.clone(), arguments: copy_arguments(&s.arguments) }
}

pub fn copy_arguments(a: &PathArguments) -> (r: PathArguments)
    ensures
        r@ == a@,
    decreases a, 0nat,
{
    match a {
        PathArguments::Empty => PathArguments::Empty,
        PathArguments::AngleBracketed(args) => PathArguments::AngleBracketed(copy_generic_arguments(args)),
        PathArguments::Parenthesized(inputs, output) => PathArguments::Parenthesized(
            copy_types(inputs),
            copy_return_type(output),
        ),
    }
}

pub fn copy_generic_arguments(args: &Vec<GenericArgument>) -> (r: Vec<GenericArgument>)
    ensures
        view_generic_arguments(r@) == view_generic_arguments(args@),
    decreases args, 0nat,
{
    let mut out: Vec<GenericArgument> = Vec::new();
    let mut i: usize = 0;
    while i < args.len()
        invariant
            i <= args@.len(),
            out@.len() == i,
            forall|j: int| 0 <= j < i ==> #[trigger] out@[j]@ == args@[j]@,
        decreases args@.len() - i,
    {
        assert(decreases_to!(args => args@));
        out.push(copy_generic_argument(&args[i]));
        i += 1;
    }
    assert forall|k: int| 0 <= k < out@.len() implies #[trigger] view_generic_arguments(out@)[k] == view_generic_arguments(args@)[k] by {
        assert(out@[k]@ == args@[k]@);
    }
    assert(view_generic_arguments(out@) =~= view_generic_arguments(args@));
    out
}

pub fn copy_generic_argument(a: &GenericArgument) -> (r: GenericArgument)
    ensures
        r@ == a@,
    decreases a, 0nat,
{
    match a {
        GenericArgument::Lifetime(l) => GenericArgument::Lifetime(l.clone()),
        GenericArgument::Type(t) => GenericArgument::Type(copy_type(t)),
        GenericArgument::Binding(id, t) => GenericArgument::Binding(id.clone(), copy_type(t)),
        GenericArgument::Constraint(s) => GenericArgument::Constraint(s.clone()),
        GenericArgument::Const(e) => GenericArgument::Const(copy_expr(e)),
    }
}

pub fn copy_return_type(r: &ReturnType) -> (o: ReturnType)
    ensures
        o@ == r@,
    decreases r, 0nat,
{
    match r {
        ReturnType::Default => ReturnType::Default,
        ReturnType::Type(t) => ReturnType::Type(Box::new(copy_type(t))),
    }
}

pub fn copy_bounds(bounds: &Vec<TypeParamBound>) -> (r: Vec<TypeParamBound>)
    ensures
        view_bounds(r@) == view_bounds(bounds@),
    decreases bounds, 0nat,
{
    let mut out: Vec<TypeParamBound> = Vec::new();
    let mut i: usize = 0;
    while i < bounds.len()
        invariant
            i <= bounds@.len(),
            out@.len() == i,
            forall|j: int| 0 <= j < i ==> #[trigger] out@[j]@ == bounds@[j]@,
        decreases bounds@.len() - i,
    {
        assert(decreases_to!(bounds => bounds@));
        let b = match &bounds[i] {
            TypeParamBound::Trait(p) => TypeParamBound::Trait(copy_path(p)),
            TypeParamBound::Lifetime(l) => TypeParamBound::Lifetime(l.clone()),
        };
        out.push(b);
        i += 1;
    }
    assert forall|k: int| 0 <= k < out@.len() implies #[trigger] view_bounds(out@)[k] == view_bounds(bounds@)[k] by {
        assert(out@[k]@ == bounds@[k]@);
    }
    assert(view_bounds(out@) =~= view_bounds(bounds@));
    out
}

pub fn copy_types(types: &Vec<Type>) -> (r: Vec<Type>)
    ensures
        view_types(r@) == view_types(types@),
    decreases types, 0nat,
{
    let mut out: Vec<Type> = Vec::new();
    let mut i: usize = 0;
    while i < types.len()
        invariant
            i <= types@.len(),
            out@.len() == i,
            forall|j: int| 0 <= j < i ==> #[trigger] out@[j]@ == types@[j]@,
        decreases types@.len() - i,
    {
        assert(decreases_to!(types => types@));
        out.push(copy_type(&types[i]));
        i += 1;
    }
    assert forall|k: int| 0 <= k < out@.len() implies #[trigger] view_types(out@)[k] == view_types(types@)[k] by {
        assert(out@[k]@ == types@[k]@);
    }
    assert(view_types(out@) =~= view_types(types@));
    out
}

pub fn copy_type(t: &Type) -> (r: Type)
    ensures
        r@ == t@,
    decreases t, 0nat,
{
    match t {
        Type::Array(e, len) => Type::Array(Box::new(copy_type(e)), copy_expr(len)),
        Type::BareFn(s) => Type::BareFn(s.clone()),
        Type::Group(e) => Type::Group(Box::new(copy_type(e))),
        Type::ImplTrait(s) => Type::ImplTrait(s.clone()),
        Type::Infer => Type::Infer,
        Type::Macro(s) => Type::Macro(s.clone()),
        Type::Never => Type::Never,
        Type::Paren(e) => Type::Paren(Box::new(copy_type(e))),
        Type::Path(p) => Type::Path(copy_path(p)),
        Type::Ptr(m, e) => Type::Ptr(*m, Box::new(copy_type(e))),
        Type::Reference(m, e) => Type::Reference(*m, Box::new(copy_type(e))),
        Type::Slice(e) => Type::Slice(Box::new(copy_type(e))),
        Type::TraitObject(b) => Type::TraitObject(copy_bounds(b)),
        Type::Tuple(v) => Type::Tuple(copy_types(v)),
        Type::Verbatim(s) => Type::Verbatim(s.clone()),
    }
}

} // verus!

verus! {

pub fn copy_pat(p: &crate::ast::Pat) -> (r: crate::ast::Pat)
    ensures
        crate::print::pat_str(r) == crate::print::pat_str(*p),
{
    match p {
        crate::ast::Pat::Ident(s) => crate::ast::Pat::Ident(s.clone()),
        crate::ast::Pat::Other(s) => crate::ast::Pat::Other(s.clone()),
    }
}

fn copy_generic_param(g: &crate::ast::GenericParam) -> (r: crate::ast::GenericParam)
    ensures
        crate::print::generic_param_str(r) == crate::print::generic_param_str(*g),
{
    match g {
        crate::ast::GenericParam::Type(n, b) => crate::ast::GenericParam::Type(n.clone(), copy_bounds(b)),
        crate::ast::GenericParam::Lifetime(l) => crate::ast::GenericParam::Lifetime(l.clone()),
        crate::ast::GenericParam::Const(n, t) => crate::ast::GenericParam::Const(n.clone(), copy_type(t)),
    }
}

pub fn copy_generics(g: &crate::ast::Generics) -> (r: crate::ast::Generics)
    ensures
        crate::print::generics_str(r) == crate::print::generics_str(*g),
{
    let mut params: Vec<crate::ast::GenericParam> = Vec::new();
    let mut i: usize = 0;
    while i < g.params.len()
        invariant
            i <= g.params@.len(),
            params@.len() == i,
            forall|j: int| 0 <= j < i ==> #[trigger] crate::print::generic_param_str(params@[j]) == crate::print::generic_param_str(g.params@[j]),
        decreases g.params@.len() - i,
    {
        params.push(copy_generic_param(&g.params[i]));
        i += 1;
    }
    let r = crate::ast::Generics { params };
    assert(Seq::new(r.params@.len(), |i: int| crate::print::generic_param_str(r.params@[i]))
        =~= Seq::new(g.params@.len(), |i: int| crate::print::generic_param_str(g.params@[i])));
    r
}

} // verus!

verus! {

/// A copy of `s` with the same view.
pub fn copy_signature(s: &crate::ast::Signature) -> (r: crate::ast::Signature)
    ensures
        crate::print::view_sig(r) == crate::print::view_sig(*s),
{
    let mut inputs: Vec<crate::ast::FnArg> = Vec::new();
    let mut i: usize = 0;
    while i < s.inputs.len()
        invariant
            i <= s.inputs@.len(),
            inputs@.len() == i,
            forall|j: int| 0 <= j < i ==> #[trigger] crate::print::view_fn_arg(inputs@[j]) == crate::print::view_fn_arg(s.inputs@[j]),
        decreases s.inputs@.len() - i,
    {
        let a = match &s.inputs[i] {
            crate::ast::FnArg::Receiver(x) => crate::ast::FnArg::Receiver(x.clone()),
            crate::ast::FnArg::Typed(p, t) => crate::ast::FnArg::Typed(copy_pat(p), copy_type(t)),
        };
        inputs.push(a);
        i += 1;
    }
    let r = crate::ast::Signature {
        ident: s.ident.clone(),
        generics: copy_generics(&s.generics),
        inputs,
        output: copy_return_type(&s.output),
    };
    assert(crate::print::view_fn_args(r.inputs@) =~= crate::print::view_fn_args(s.inputs@));
    r
}

} // verus!
