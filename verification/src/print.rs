//! Rendering of types and paths as source text.

use vstd::prelude::*;
use crate::ty::{Lit, Expr, Path, PathSegment, PathArguments, GenericArgument, TypeParamBound, ReturnType, Type, SLit, SExpr, SPath, SPathSegment, SPathArguments, SGenericArgument, STypeParamBound, SReturnType, SType, view_segments, view_segment, view_generic_arguments, view_generic_argument, view_bounds, view_bound, view_types, view_type};

verus! {

pub open spec fn lit_str(l: SLit) -> Seq<char> {
    match l {
        SLit::Str(s) => seq!['"'] + s + seq!['"'],
        SLit::Int(s) => s,
        SLit::Other(s) => s,
    }
}

pub open spec fn expr_str(e: SExpr) -> Seq<char>
    decreases e,
{
    match e {
        SExpr::Lit(l) => lit_str(l),
        SExpr::Path(p) => path_str(p),
        SExpr::Other(s) => s,
    }
}

pub open spec fn path_str(p: SPath) -> Seq<char>
    decreases p,
{
    (if p.leading_colon { "::"@ } else { Seq::empty() }) + segments_str(p.segments)
}

/// Segments joined by `::`.
pub open spec fn segments_str(s: Seq<SPathSegment>) -> Seq<char>
    decreases s,
{
    if s.len() == 0 {
        Seq::empty()
    } else if s.len() == 1 {
        segment_str(s[0])
    } else {
        segments_str(s.drop_last()) + "::"@ + segment_str(s.last())
    }
}

pub open spec fn segment_str(s: SPathSegment) -> Seq<char>
    decreases s,
{
    s.ident + arguments_str(s.arguments)
}

pub open spec fn arguments_str(a: SPathArguments) -> Seq<char>
    decreases a,
{
    match a {
        SPathArguments::Empty => Seq::empty(),
        SPathArguments::AngleBracketed(args) => "<"@ + generic_arguments_str(args) + ">"@,
        SPathArguments::Parenthesized(inputs, output) => "("@ + types_str(inputs) + ")"@
            + return_type_str(output),
    }
}

/// Generic arguments joined by `, `.
pub open spec fn generic_arguments_str(s: Seq<SGenericArgument>) -> Seq<char>
    decreases s,
{
    if s.len() == 0 {
        Seq::empty()
    } else if s.len() == 1 {
        generic_argument_str(s[0])
    } else {
        generic_arguments_str(s.drop_last()) + ", "@ + generic_argument_str(s.last())
    }
}

pub open spec fn generic_argument_str(a: SGenericArgument) -> Seq<char>
    decreases a,
{
    match a {
        SGenericArgument::Lifetime(l) => l,
        SGenericArgument::Type(t) => type_str(t),
        SGenericArgument::Binding(id, t) => id + " = "@ + type_str(t),
        SGenericArgument::Constraint(s) => s,
        SGenericArgument::Const(e) => expr_str(e),
    }
}

pub open spec fn return_type_str(r: SReturnType) -> Seq<char>
    decreases r,
{
    match r {
        SReturnType::Default => Seq::empty(),
        SReturnType::Type(t) => " -> "@ + type_str(*t),
    }
}

/// Bounds joined by ` + `.
pub open spec fn bounds_str(s: Seq<STypeParamBound>) -> Seq<char>
    decreases s,
{
    if s.len() == 0 {
        Seq::empty()
    } else if s.len() == 1 {
        bound_str(s[0])
    } else {
        bounds_str(s.drop_last()) + " + "@ + bound_str(s.last())
    }
}

pub open spec fn bound_str(b: STypeParamBound) -> Seq<char>
    decreases b,
{
    match b {
        STypeParamBound::Trait(p) => path_str(p),
        STypeParamBound::Lifetime(l) => l,
    }
}

/// Types joined by `, `.
pub open spec fn types_str(s: Seq<SType>) -> Seq<char>
    decreases s,
{
    if s.len() == 0 {
        Seq::empty()
    } else if s.len() == 1 {
        type_str(s[0])
    } else {
        types_str(s.drop_last()) + ", "@ + type_str(s.last())
    }
}

/// The source text of a type. A one-element tuple keeps its trailing comma.
pub open spec fn type_str(t: SType) -> Seq<char>
    decreases t,
{
    match t {
        SType::Array(e, len) => "["@ + type_str(*e) + "; "@ + expr_str(len) + "]"@,
        SType::BareFn(s) => s,
        SType::Group(e) => type_str(*e),
        SType::ImplTrait(s) => s,
        SType::Infer => "_"@,
        SType::Macro(s) => s,
        SType::Never => "!"@,
        SType::Paren(e) => "("@ + type_str(*e) + ")"@,
        SType::Path(p) => path_str(p),
        SType::Ptr(m, e) => (if m { "*mut "@ } else { "*const "@ }) + type_str(*e),
        SType::Reference(m, e) => (if m { "&mut "@ } else { "&"@ }) + type_str(*e),
        SType::Slice(e) => "["@ + type_str(*e) + "]"@,
        SType::TraitObject(b) => "dyn "@ + bounds_str(b),
        SType::Tuple(v) => "("@ + types_str(v) + (if v.len() == 1 { ","@ } else { Seq::empty() })
            + ")"@,
        SType::Verbatim(s) => s,
    }
}

pub fn write_lit(out: &mut String, l: &Lit)
    ensures
        final(out)@ == old(out)@ + lit_str(l@),
{
    match l {
        Lit::Str(s) => {
            out.append("\"");
            out.append(s.as_str());
            out.append("\"");
            proof {
                reveal_strlit("\"");
            }
        },
        Lit::Int(s) => out.append(s.as_str()),
        Lit::Other(s) => out.append(s.as_str()),
    }
}

pub fn write_expr(out: &mut String, e: &Expr)
    ensures
        final(out)@ == old(out)@ + expr_str(e@),
    decreases e, 1nat,
{
    match e {
        Expr::Lit(l) => write_lit(out, l),
        Expr::Path(p) => write_path(out, p),
        Expr::Other(s) => out.append(s.as_str()),
    }
}

pub fn write_path(out: &mut String, p: &Path)
    ensures
        final(out)@ == old(out)@ + path_str(p@),
    decreases p, 0nat,
{
    if p.leading_colon {
        out.append("::");
    }
    let ghost start = out@;
    let mut i: usize = 0;
    while i < p.segments.len()
        invariant
            i <= p.segments@.len(),
            view_segments(p.segments@).len() == p.segments@.len(),
            forall|j: int| 0 <= j < p.segments@.len() ==> #[trigger] view_segments(p.segments@)[j] == view_segment(p.segments@[j]),
            out@ == start + segments_str(view_segments(p.segments@).subrange(0, i as int)),
        decreases p.segments@.len() - i,
    {
        let ghost prev = out@;
        if i > 0 {
            out.append("::");
        }
        assert(decreases_to!(p => p.segments));
        assert(decreases_to!(p.segments => p.segments@));
        write_segment(out, &p.segments[i]);
        let ghost sv = view_segments(p.segments@);
        assert(sv.subrange(0, i + 1).drop_last() == sv.subrange(0, i as int));
        i += 1;
    }
    assert(view_segments(p.segments@).subrange(0, i as int) == view_segments(p.segments@));
}

pub fn write_segment(out: &mut String, s: &PathSegment)
    ensures
        final(out)@ == old(out)@ + segment_str(s@),
    decreases s, 0nat,
{
    out.append(s.ident.as_str());
    write_arguments(out, &s.arguments);
}

#[verifier::rlimit(30)]
pub fn write_arguments(out: &mut String, a: &PathArguments)
    ensures
        final(out)@ == old(out)@ + arguments_str(a@),
    decreases a, 0nat,
{
    match a {
        PathArguments::Empty => {},
        PathArguments::AngleBracketed(args) => {
            out.append("<");
            write_generic_arguments(out, args);
            out.append(">");
        },
        PathArguments::Parenthesized(inputs, output) => {
            out.append("(");
            write_types(out, inputs);
            out.append(")");
            write_return_type(out, output);
        },
    }
}

pub fn write_generic_arguments(out: &mut String, args: &Vec<GenericArgument>)
    ensures
        final(out)@ == old(out)@ + generic_arguments_str(view_generic_arguments(args@)),
    decreases args, 0nat,
{
    let ghost start = out@;
    let mut i: usize = 0;
    while i < args.len()
        invariant
            i <= args@.len(),
            view_generic_arguments(args@).len() == args@.len(),
            forall|j: int| 0 <= j < args@.len() ==> #[trigger] view_generic_arguments(args@)[j] == view_generic_argument(args@[j]),
            out@ == start + generic_arguments_str(view_generic_arguments(args@).subrange(0, i as int)),
        decreases args@.len() - i,
    {
        if i > 0 {
            out.append(", ");
        }
        assert(decreases_to!(args => args@));
        write_generic_argument(out, &args[i]);
        let ghost sv = view_generic_arguments(args@);
        assert(sv.subrange(0, i + 1).drop_last() == sv.subrange(0, i as int));
        i += 1;
    }
    assert(view_generic_arguments(args@).subrange(0, i as int) == view_generic_arguments(args@));
}

pub fn write_generic_argument(out: &mut String, a: &GenericArgument)
    ensures
        final(out)@ == old(out)@ + generic_argument_str(a@),
    decreases a, 0nat,
{
    match a {
        GenericArgument::Lifetime(l) => out.append(l.as_str()),
        GenericArgument::Type(t) => write_type(out, t),
        GenericArgument::Binding(id, t) => {
            out.append(id.as_str());
            out.append(" = ");
            write_type(out, t);
        },
        GenericArgument::Constraint(s) => out.append(s.as_str()),
        GenericArgument::Const(e) => write_expr(out, e),
    }
}

pub fn write_return_type(out: &mut String, r: &ReturnType)
    ensures
        final(out)@ == old(out)@ + return_type_str(r@),
    decreases r, 0nat,
{
    match r {
        ReturnType::Default => {},
        ReturnType::Type(t) => {
            out.append(" -> ");
            write_type(out, t);
        },
    }
}

pub fn write_bounds(out: &mut String, bounds: &Vec<TypeParamBound>)
    ensures
        final(out)@ == old(out)@ + bounds_str(view_bounds(bounds@)),
    decreases bounds, 0nat,
{
    let ghost start = out@;
    let mut i: usize = 0;
    while i < bounds.len()
        invariant
            i <= bounds@.len(),
            view_bounds(bounds@).len() == bounds@.len(),
            forall|j: int| 0 <= j < bounds@.len() ==> #[trigger] view_bounds(bounds@)[j] == view_bound(bounds@[j]),
            out@ == start + bounds_str(view_bounds(bounds@).subrange(0, i as int)),
        decreases bounds@.len() - i,
    {
        if i > 0 {
            out.append(" + ");
        }
        assert(decreases_to!(bounds => bounds@));
        write_bound(out, &bounds[i]);
        let ghost sv = view_bounds(bounds@);
        assert(sv.subrange(0, i + 1).drop_last() == sv.subrange(0, i as int));
        i += 1;
    }
    assert(view_bounds(bounds@).subrange(0, i as int) == view_bounds(bounds@));
}

pub fn write_bound(out: &mut String, b: &TypeParamBound)
    ensures
        final(out)@ == old(out)@ + bound_str(b@),
    decreases b, 0nat,
{
    match b {
        TypeParamBound::Trait(p) => write_path(out, p),
        TypeParamBound::Lifetime(l) => out.append(l.as_str()),
    }
}

pub fn write_types(out: &mut String, types: &Vec<Type>)
    ensures
        final(out)@ == old(out)@ + types_str(view_types(types@)),
    decreases types, 0nat,
{
    let ghost start = out@;
    let mut i: usize = 0;
    while i < types.len()
        invariant
            i <= types@.len(),
            view_types(types@).len() == types@.len(),
            forall|j: int| 0 <= j < types@.len() ==> #[trigger] view_types(types@)[j] == view_type(types@[j]),
            out@ == start + types_str(view_types(types@).subrange(0, i as int)),
        decreases types@.len() - i,
    {
        if i > 0 {
            out.append(", ");
        }
        assert(decreases_to!(types => types@));
        write_type(out, &types[i]);
        let ghost sv = view_types(types@);
        assert(sv.subrange(0, i + 1).drop_last() == sv.subrange(0, i as int));
        i += 1;
    }
    assert(view_types(types@).subrange(0, i as int) == view_types(types@));
}

pub fn write_type(out: &mut String, t: &Type)
    ensures
        final(out)@ == old(out)@ + type_str(t@),
    decreases t, 0nat,
{
    let ghost o = out@;
    match t {
        Type::Array(e, len) => {
            out.append("[");
            write_type(out, e);
            out.append("; ");
            write_expr(out, len);
            out.append("]");
            assert(out@ =~= o + type_str(t@));
        },
        Type::BareFn(s) => out.append(s.as_str()),
        Type::Group(e) => write_type(out, e),
        Type::ImplTrait(s) => out.append(s.as_str()),
        Type::Infer => out.append("_"),
        Type::Macro(s) => out.append(s.as_str()),
        Type::Never => out.append("!"),
        Type::Paren(e) => {
            out.append("(");
            write_type(out, e);
            out.append(")");
            assert(out@ =~= o + type_str(t@));
        },
        Type::Path(p) => write_path(out, p),
        Type::Ptr(m, e) => {
            if *m {
                out.append("*mut ");
            } else {
                out.append("*const ");
            }
            write_type(out, e);
            assert(out@ =~= o + type_str(t@));
        },
        Type::Reference(m, e) => {
            if *m {
                out.append("&mut ");
            } else {
                out.append("&");
            }
            write_type(out, e);
            assert(out@ =~= o + type_str(t@));
        },
        Type::Slice(e) => {
            out.append("[");
            write_type(out, e);
            out.append("]");
            assert(out@ =~= o + type_str(t@));
        },
        Type::TraitObject(b) => {
            out.append("dyn ");
            write_bounds(out, b);
            assert(out@ =~= o + type_str(t@));
        },
        Type::Tuple(v) => {
            out.append("(");
            write_types(out, v);
            if v.len() == 1 {
                out.append(",");
            }
            out.append(")");
            assert(out@ =~= o + type_str(t@));
        },
        Type::Verbatim(s) => out.append(s.as_str()),
    }
}

/// The source text of `t`.
pub fn type_to_string(t: &Type) -> (r: String)
    ensures
        r@ == type_str(t@),
{
    let mut out = String::new();
    write_type(&mut out, t);
    out
}

/// The source text of `p`.
pub fn path_to_string(p: &Path) -> (r: String)
    ensures
        r@ == path_str(p@),
{
    let mut out = String::new();
    write_path(&mut out, p);
    out
}

} // verus!

verus! {

/// A method parameter as the generated code needs it: `self` in one of its
/// forms, or a pattern (as source text) and a type.
pub enum SFnArg {
    Receiver(Seq<char>),
    Typed(Seq<char>, SType),
}

/// A method signature as the generated code needs it: its name, its generic
/// parameters as source text, its parameters and its return type.
pub struct SSignature {
    pub ident: Seq<char>,
    pub generics: Seq<char>,
    pub inputs: Seq<SFnArg>,
    pub output: SReturnType,
}

pub open spec fn pat_str(p: crate::ast::Pat) -> Seq<char> {
    match p {
        crate::ast::Pat::Ident(s) => s@,
        crate::ast::Pat::Other(s) => s@,
    }
}

pub open spec fn view_fn_arg(a: crate::ast::FnArg) -> SFnArg {
    match a {
        crate::ast::FnArg::Receiver(s) => SFnArg::Receiver(s@),
        crate::ast::FnArg::Typed(p, t) => SFnArg::Typed(pat_str(p), t@),
    }
}

pub open spec fn view_fn_args(v: Seq<crate::ast::FnArg>) -> Seq<SFnArg> {
    Seq::new(v.len(), |i: int| view_fn_arg(v[i]))
}

pub open spec fn view_sig(s: crate::ast::Signature) -> SSignature {
    SSignature {
        ident: s.ident@,
        generics: generics_str(s.generics),
        inputs: view_fn_args(s.inputs@),
        output: s.output@,
    }
}

pub open spec fn fn_arg_str(a: SFnArg) -> Seq<char> {
    match a {
        SFnArg::Receiver(s) => s,
        SFnArg::Typed(p, t) => p + ": "@ + type_str(t),
    }
}

/// Parameters joined by `, `.
pub open spec fn fn_args_str(args: Seq<SFnArg>) -> Seq<char> {
    crate::text::join(Seq::new(args.len(), |i: int| fn_arg_str(args[i])), ", "@)
}

pub open spec fn generic_param_str(g: crate::ast::GenericParam) -> Seq<char> {
    match g {
        crate::ast::GenericParam::Type(n, b) => if b@.len() == 0 {
            n@
        } else {
            n@ + ": "@ + bounds_str(view_bounds(b@))
        },
        crate::ast::GenericParam::Lifetime(l) => l@,
        crate::ast::GenericParam::Const(n, t) => "const "@ + n@ + ": "@ + type_str(t@),
    }
}

pub open spec fn generics_str(g: crate::ast::Generics) -> Seq<char> {
    if g.params@.len() == 0 {
        Seq::empty()
    } else {
        "<"@ + crate::text::join(Seq::new(g.params@.len(), |i: int| generic_param_str(g.params@[i])), ", "@) + ">"@
    }
}

/// The source text of a method signature.
pub open spec fn sig_str(s: SSignature) -> Seq<char> {
    "fn "@ + s.ident + s.generics + "("@ + fn_args_str(s.inputs) + ")"@ + return_type_str(s.output)
}

pub fn pat_to_string(p: &crate::ast::Pat) -> (r: String)
    ensures
        r@ == pat_str(*p),
{
    match p {
        crate::ast::Pat::Ident(s) => s.clone(),
        crate::ast::Pat::Other(s) => s.clone(),
    }
}

pub fn fn_arg_to_string(a: &crate::ast::FnArg) -> (r: String)
    ensures
        r@ == fn_arg_str(view_fn_arg(*a)),
{
    match a {
        crate::ast::FnArg::Receiver(s) => s.clone(),
        crate::ast::FnArg::Typed(p, t) => {
            let mut out = pat_to_string(p);
            out.append(": ");
            write_type(&mut out, t);
            out
        },
    }
}

/// The source text of `args`, joined by `, `.
pub fn fn_args_to_string(args: &Vec<crate::ast::FnArg>) -> (r: String)
    ensures
        r@ == fn_args_str(view_fn_args(args@)),
{
    let mut parts: Vec<String> = Vec::new();
    let mut i: usize = 0;
    while i < args.len()
        invariant
            i <= args@.len(),
            parts@.len() == i,
            forall|j: int| 0 <= j < i ==> #[trigger] parts@[j]@ == fn_arg_str(view_fn_arg(args@[j])),
        decreases args@.len() - i,
    {
        parts.push(fn_arg_to_string(&args[i]));
        i += 1;
    }
    let ghost av = view_fn_args(args@);
    assert(crate::text::strs(parts@) =~= Seq::new(av.len(), |i: int| fn_arg_str(av[i])));
    crate::text::join_strings(&parts, ", ")
}

fn generic_param_to_string(g: &crate::ast::GenericParam) -> (r: String)
    ensures
        r@ == generic_param_str(*g),
{
    match g {
        crate::ast::GenericParam::Type(n, b) => {
            let mut out = n.clone();
            if b.len() > 0 {
                out.append(": ");
                write_bounds(&mut out, b);
            }
            out
        },
        crate::ast::GenericParam::Lifetime(l) => l.clone(),
        crate::ast::GenericParam::Const(n, t) => {
            let mut out = String::new();
            out.append("const ");
            out.append(n.as_str());
            out.append(": ");
            write_type(&mut out, t);
            out
        },
    }
}

pub fn generics_to_string(g: &crate::ast::Generics) -> (r: String)
    ensures
        r@ == generics_str(*g),
{
    if g.params.len() == 0 {
        return String::new();
    }
    let mut parts: Vec<String> = Vec::new();
    let mut i: usize = 0;
    while i < g.params.len()
        invariant
            i <= g.params@.len(),
            parts@.len() == i,
            forall|j: int| 0 <= j < i ==> #[trigger] parts@[j]@ == generic_param_str(g.params@[j]),
        decreases g.params@.len() - i,
    {
        parts.push(generic_param_to_string(&g.params[i]));
        i += 1;
    }
    assert(crate::text::strs(parts@) =~= Seq::new(g.params@.len(), |i: int| generic_param_str(g.params@[i])));
    let mut out = String::new();
    out.append("<");
    let inner = crate::text::join_strings(&parts, ", ");
    out.append(inner.as_str());
    out.append(">");
    out
}

/// The source text of a method signature.
pub fn sig_to_string(s: &crate::ast::Signature) -> (r: String)
    ensures
        r@ == sig_str(view_sig(*s)),
{
    let mut out = String::new();
    out.append("fn ");
    out.append(s.ident.as_str());
    let g = generics_to_string(&s.generics);
    out.append(g.as_str());
    out.append("(");
    let a = fn_args_to_string(&s.inputs);
    out.append(a.as_str());
    out.append(")");
    write_return_type(&mut out, &s.output);
    out
}

} // verus!
