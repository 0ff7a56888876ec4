//! The executable resolver: follows the model of [`crate::resolve`] on the
//! items of a file.

use vstd::prelude::*;
use crate::ast::{Field, FnArg, GenericParam, Item, ItemStruct, TraitItem};
use crate::copy::{copy_lit, copy_path, copy_type};
use crate::resolve::{
    array_len, collect_fields, collect_items, collect_method, collect_trait_items, collect_inputs,
    collect_type, collect_types, expand_struct, generic_hit, generic_map, gm_get, is_external,
    is_modifier, plain_ident, resolve_args, resolve_bounds, resolve_garg, resolve_gargs, resolve_path,
    walk_path, with_last_args, SGen, SGenMap,
};
use crate::symbols::{find_symbol, resolve_symbol, ResolveError, Symbol, Tgt, view_symbol, view_tgt, sym_public};
use crate::text::{clone_strings, eq_lit, strs};
use crate::ty::{
    view_bounds, view_generic_arguments, view_segments, view_types, Expr, GenericArgument, Lit, Path,
    PathArguments, PathSegment, SPathArguments, SType, Type, TypeParamBound,
};

verus! {

/// What a generic parameter stands for, as the executable code holds it.
pub enum Gen {
    Type(Type),
    Lit(Lit),
}

pub open spec fn view_gen(g: Gen) -> SGen {
    match g {
        Gen::Type(t) => SGen::Type(t@),
        Gen::Lit(l) => SGen::Lit(l@),
    }
}

pub open spec fn view_gm(m: Seq<(String, Gen)>) -> SGenMap {
    Seq::new(m.len(), |i: int| (m[i].0@, view_gen(m[i].1)))
}

pub open spec fn view_opt_gm(m: Option<&Vec<(String, Gen)>>) -> Option<SGenMap> {
    match m {
        Some(v) => Some(view_gm(v@)),
        None => None,
    }
}

fn copy_gen(g: &Gen) -> (r: Gen)
    ensures
        view_gen(r) == view_gen(*g),
{
    match g {
        Gen::Type(t) => Gen::Type(copy_type(t)),
        Gen::Lit(l) => Gen::Lit(copy_lit(l)),
    }
}

fn gm_find(m: &Vec<(String, Gen)>, name: &String) -> (r: Option<Gen>)
    ensures
        match r {
            Some(g) => gm_get(view_gm(m@), name@) == Some(view_gen(g)),
            None => gm_get(view_gm(m@), name@) is None,
        },
{
    let ghost mv = view_gm(m@);
    let mut i: usize = 0;
    assert(mv.subrange(0, mv.len() as int) == mv);
    while i < m.len()
        invariant
            i <= m@.len(),
            mv == view_gm(m@),
            gm_get(mv, name@) == gm_get(mv.subrange(i as int, mv.len() as int), name@),
        decreases m@.len() - i,
    {
        assert(mv.subrange(i as int, mv.len() as int).drop_first() == mv.subrange(i + 1, mv.len() as int));
        if m[i].0 == *name {
            return Some(copy_gen(&m[i].1));
        }
        i += 1;
    }
    None
}

fn plain_ident_of(p: &Path) -> (r: Option<&String>)
    ensures
        match r {
            Some(id) => plain_ident(p@) == Some(id@),
            None => plain_ident(p@) is None,
        },
{
    if !p.leading_colon && p.segments.len() == 1 {
        match &p.segments[0].arguments {
            PathArguments::Empty => Some(&p.segments[0].ident),
            _ => None,
        }
    } else {
        None
    }
}

fn generic_hit_of(gm: Option<&Vec<(String, Gen)>>, p: &Path) -> (r: Option<Gen>)
    ensures
        match r {
            Some(g) => generic_hit(view_opt_gm(gm), p@) == Some(view_gen(g)),
            None => generic_hit(view_opt_gm(gm), p@) is None,
        },
{
    match gm {
        Some(m) => match plain_ident_of(p) {
            Some(id) => gm_find(m, id),
            None => None,
        },
        None => None,
    }
}

fn external(root: &Vec<Item>, mpath: &Vec<String>, p: &Path) -> (r: bool)
    requires
        p.segments@.len() > 0,
    ensures
        r == is_external(root@, strs(mpath@), p@),
{
    let first = &p.segments[0].ident;
    let modifier = eq_lit(first, "crate") || eq_lit(first, "super") || eq_lit(first, "self");
    assert(modifier == is_modifier(first@));
    if p.leading_colon && modifier {
        true
    } else {
        find_symbol(root, mpath, first).is_none()
    }
}

fn symbol_public(s: &Symbol) -> (r: bool)
    ensures
        r == sym_public(view_symbol(*s)),
{
    match s {
        Symbol::Module(_, p) => *p,
        Symbol::Def(_, p, _, _) => *p,
        Symbol::Use(p, _, _, _) => *p,
        Symbol::Builtin(_) => false,
    }
}

/// Walks the segments of `segs` before the last, from the module `cur`
/// (see [`walk_path`]).
fn walk_segments(root: &Vec<Item>, uf: u64, cur: Vec<String>, segs: &Vec<PathSegment>, i: usize) -> (r: Result<Vec<String>, ResolveError>)
    requires
        i < segs@.len(),
    ensures
        match r {
            Ok(m) => walk_path(root@, uf as nat, strs(cur@), view_segments(segs@), i as int) == Ok::<Seq<Seq<char>>, ResolveError>(strs(m@)),
            Err(e) => walk_path(root@, uf as nat, strs(cur@), view_segments(segs@), i as int) == Err::<Seq<Seq<char>>, ResolveError>(e),
        },
    decreases segs@.len() - i,
{
    let ghost sv = view_segments(segs@);
    assert(sv[i as int] == segs@[i as int]@);
    if i >= segs.len() - 1 {
        return Ok(cur);
    }
    match &segs[i].arguments {
        PathArguments::Empty => {},
        _ => {
            return Err(ResolveError::InnerGenericArguments);
        },
    }
    match find_symbol(root, &cur, &segs[i].ident) {
        None => Err(ResolveError::SymbolNotFound),
        Some(s) => {
            let public = symbol_public(&s);
            match resolve_symbol(root, s, uf) {
                Err(e) => Err(e),
                Ok(Tgt::Type(_, _)) => Err(ResolveError::NotAModule),
                Ok(Tgt::Module(m)) => {
                    if !public {
                        Err(ResolveError::PrivateSymbol)
                    } else {
                        walk_segments(root, uf, m, segs, i + 1)
                    }
                },
            }
        },
    }
}

/// The path `tp` with no arguments but `args` on its last segment.
fn path_with_last_args(tp: &Vec<String>, args: PathArguments) -> (r: Path)
    ensures
        r@ == with_last_args(strs(tp@), args@),
{
    let ghost want = with_last_args(strs(tp@), args@);
    let mut segs: Vec<PathSegment> = Vec::new();
    if tp.len() == 0 {
        assert(view_segments(segs@) =~= want.segments);
        return Path { leading_colon: false, segments: segs };
    }
    let mut i: usize = 0;
    while i < tp.len() - 1
        invariant
            tp@.len() > 0,
            i <= tp@.len() - 1,
            segs@.len() == i,
            want == with_last_args(strs(tp@), args@),
            forall|j: int| 0 <= j < i ==> #[trigger] segs@[j]@ == want.segments[j],
        decreases tp@.len() - 1 - i,
    {
        segs.push(PathSegment { ident: tp[i].clone(), arguments: PathArguments::Empty });
        i += 1;
    }
    segs.push(PathSegment { ident: tp[i].clone(), arguments: args });
    assert forall|k: int| 0 <= k < segs@.len() implies #[trigger] view_segments(segs@)[k] == want.segments[k] by {
        assert(segs@[k]@ == want.segments[k]);
    }
    assert(view_segments(segs@) =~= want.segments);
    Path { leading_colon: false, segments: segs }
}

fn array_len_of(gm: Option<&Vec<(String, Gen)>>, len: &Expr) -> (r: Result<Lit, ResolveError>)
    ensures
        match r {
            Ok(l) => array_len(view_opt_gm(gm), len@) == Ok::<crate::ty::SLit, ResolveError>(l@),
            Err(e) => array_len(view_opt_gm(gm), len@) == Err::<crate::ty::SLit, ResolveError>(e),
        },
{
    match len {
        Expr::Lit(l) => Ok(copy_lit(l)),
        Expr::Path(p) => match generic_hit_of(gm, p) {
            Some(Gen::Lit(l)) => Ok(l),
            Some(Gen::Type(_)) => Err(ResolveError::KindMismatch),
            None => Err(ResolveError::NotALiteral),
        },
        Expr::Other(_) => Err(ResolveError::Unsupported),
    }
}

/// Binds the parameters `params` of a generic struct to the arguments `args`
/// (see [`generic_map`]).
fn bind_generics(params: &Vec<GenericParam>, args: &Vec<GenericArgument>) -> (r: Result<Vec<(String, Gen)>, ResolveError>)
    requires
        params@.len() == args@.len(),
    ensures
        match r {
            Ok(m) => generic_map(params@, view_generic_arguments(args@)) == Ok::<SGenMap, ResolveError>(view_gm(m@)),
            Err(e) => generic_map(params@, view_generic_arguments(args@)) == Err::<SGenMap, ResolveError>(e),
        },
{
    let ghost av = view_generic_arguments(args@);
    let mut m: Vec<(String, Gen)> = Vec::new();
    let mut i: usize = 0;
    assert(view_gm(m@) =~= Seq::<(Seq<char>, SGen)>::empty());
    while i < params.len()
        invariant
            i <= params@.len(),
            params@.len() == args@.len(),
            av == view_generic_arguments(args@),
            generic_map(params@.subrange(0, i as int), av.subrange(0, i as int)) == Ok::<SGenMap, ResolveError>(view_gm(m@)),
        decreases params@.len() - i,
    {
        let ghost pp = params@.subrange(0, i + 1);
        let ghost aa = av.subrange(0, i + 1);
        assert(pp.drop_last() =~= params@.subrange(0, i as int));
        assert(aa.drop_last() =~= av.subrange(0, i as int));
        assert(aa.last() == args@[i as int]@);
        let name = match &params[i] {
            GenericParam::Type(n, _) => Some(n.clone()),
            GenericParam::Const(n, _) => Some(n.clone()),
            GenericParam::Lifetime(_) => None,
        };
        let val = match &args[i] {
            GenericArgument::Type(t) => Some(Gen::Type(copy_type(t))),
            GenericArgument::Const(Expr::Lit(l)) => Some(Gen::Lit(copy_lit(l))),
            _ => None,
        };
        match (name, val) {
            (Some(n), Some(v)) => {
                let ghost before = view_gm(m@);
                m.push((n, v));
                assert(view_gm(m@) =~= before.push((n@, view_gen(v))));
            },
            _ => {
                proof { lemma_generic_map_prefix(params@, av, i + 1); }
                return Err(ResolveError::Unsupported);
            },
        }
        i += 1;
    }
    assert(params@.subrange(0, i as int) =~= params@);
    assert(av.subrange(0, i as int) =~= av);
    Ok(m)
}

proof fn lemma_generic_map_prefix(params: Seq<GenericParam>, args: Seq<crate::ty::SGenericArgument>, n: int)
    requires
        0 <= n <= params.len(),
        params.len() == args.len(),
        generic_map(params.subrange(0, n), args.subrange(0, n)) is Err,
    ensures
        generic_map(params, args) == generic_map(params.subrange(0, n), args.subrange(0, n)),
    decreases params.len(),
{
    if n < params.len() {
        let ps = params.drop_last();
        let as_ = args.drop_last();
        assert(ps.subrange(0, n) =~= params.subrange(0, n));
        assert(as_.subrange(0, n) =~= args.subrange(0, n));
        lemma_generic_map_prefix(ps, as_, n);
    } else {
        assert(params.subrange(0, n) =~= params);
        assert(args.subrange(0, n) =~= args);
    }
}

} // verus!

verus! {

proof fn lemma_view_types_push(v: Seq<Type>, x: Type)
    ensures
        view_types(v.push(x)) == view_types(v).push(x@),
{
    assert(view_types(v.push(x)) =~= view_types(v).push(x@));
}

proof fn lemma_view_types_concat(a: Seq<Type>, b: Seq<Type>)
    ensures
        view_types(a + b) == view_types(a) + view_types(b),
{
    assert(view_types(a + b) =~= view_types(a) + view_types(b));
}

// Once a prefix has an error, the whole has the same one.

proof fn lemma_types_prefix(root: Seq<Item>, uf: nat, mpath: Seq<Seq<char>>, gm: Option<SGenMap>, ts: Seq<SType>, sf: nat, n: int)
    requires
        0 <= n <= ts.len(),
        collect_types(root, uf, mpath, gm, ts.subrange(0, n), sf) is Err,
    ensures
        collect_types(root, uf, mpath, gm, ts, sf) == collect_types(root, uf, mpath, gm, ts.subrange(0, n), sf),
    decreases ts.len(),
{
    if n < ts.len() {
        let s = ts.subrange(0, ts.len() - 1);
        assert(s.subrange(0, n) =~= ts.subrange(0, n));
        lemma_types_prefix(root, uf, mpath, gm, s, sf, n);
    } else {
        assert(ts.subrange(0, n) =~= ts);
    }
}

proof fn lemma_bounds_prefix(root: Seq<Item>, uf: nat, mpath: Seq<Seq<char>>, gm: Option<SGenMap>, bs: Seq<crate::ty::STypeParamBound>, sf: nat, n: int)
    requires
        0 <= n <= bs.len(),
        resolve_bounds(root, uf, mpath, gm, bs.subrange(0, n), sf) is Err,
    ensures
        resolve_bounds(root, uf, mpath, gm, bs, sf) == resolve_bounds(root, uf, mpath, gm, bs.subrange(0, n), sf),
    decreases bs.len(),
{
    if n < bs.len() {
        let s = bs.subrange(0, bs.len() - 1);
        assert(s.subrange(0, n) =~= bs.subrange(0, n));
        lemma_bounds_prefix(root, uf, mpath, gm, s, sf, n);
    } else {
        assert(bs.subrange(0, n) =~= bs);
    }
}

proof fn lemma_gargs_prefix(root: Seq<Item>, uf: nat, mpath: Seq<Seq<char>>, gm: Option<SGenMap>, args: Seq<crate::ty::SGenericArgument>, sf: nat, n: int)
    requires
        0 <= n <= args.len(),
        resolve_gargs(root, uf, mpath, gm, args.subrange(0, n), sf) is Err,
    ensures
        resolve_gargs(root, uf, mpath, gm, args, sf) == resolve_gargs(root, uf, mpath, gm, args.subrange(0, n), sf),
    decreases args.len(),
{
    if n < args.len() {
        let s = args.subrange(0, args.len() - 1);
        assert(s.subrange(0, n) =~= args.subrange(0, n));
        lemma_gargs_prefix(root, uf, mpath, gm, s, sf, n);
    } else {
        assert(args.subrange(0, n) =~= args);
    }
}

proof fn lemma_fields_prefix(root: Seq<Item>, uf: nat, smp: Seq<Seq<char>>, m: SGenMap, fields: Seq<Field>, sf: nat, n: int)
    requires
        0 <= n <= fields.len(),
        collect_fields(root, uf, smp, m, fields.subrange(0, n), sf) is Err,
    ensures
        collect_fields(root, uf, smp, m, fields, sf) == collect_fields(root, uf, smp, m, fields.subrange(0, n), sf),
    decreases fields.len(),
{
    if n < fields.len() {
        let s = fields.subrange(0, fields.len() - 1);
        assert(s.subrange(0, n) =~= fields.subrange(0, n));
        lemma_fields_prefix(root, uf, smp, m, s, sf, n);
    } else {
        assert(fields.subrange(0, n) =~= fields);
    }
}

proof fn lemma_inputs_prefix(root: Seq<Item>, uf: nat, mpath: Seq<Seq<char>>, inputs: Seq<FnArg>, sf: nat, n: int)
    requires
        0 <= n <= inputs.len(),
        collect_inputs(root, uf, mpath, inputs.subrange(0, n), sf) is Err,
    ensures
        collect_inputs(root, uf, mpath, inputs, sf) == collect_inputs(root, uf, mpath, inputs.subrange(0, n), sf),
    decreases inputs.len(),
{
    if n < inputs.len() {
        let s = inputs.drop_last();
        assert(s.subrange(0, n) =~= inputs.subrange(0, n));
        lemma_inputs_prefix(root, uf, mpath, s, sf, n);
    } else {
        assert(inputs.subrange(0, n) =~= inputs);
    }
}

proof fn lemma_trait_items_prefix(root: Seq<Item>, uf: nat, mpath: Seq<Seq<char>>, items: Seq<TraitItem>, sf: nat, n: int)
    requires
        0 <= n <= items.len(),
        collect_trait_items(root, uf, mpath, items.subrange(0, n), sf) is Err,
    ensures
        collect_trait_items(root, uf, mpath, items, sf) == collect_trait_items(root, uf, mpath, items.subrange(0, n), sf),
    decreases items.len(),
{
    if n < items.len() {
        let s = items.drop_last();
        assert(s.subrange(0, n) =~= items.subrange(0, n));
        lemma_trait_items_prefix(root, uf, mpath, s, sf, n);
    } else {
        assert(items.subrange(0, n) =~= items);
    }
}

proof fn lemma_items_prefix(root: Seq<Item>, uf: nat, items: Seq<Item>, mpath: Seq<Seq<char>>, sf: nat, n: int)
    requires
        0 <= n <= items.len(),
        collect_items(root, uf, items.subrange(0, n), mpath, sf) is Err,
    ensures
        collect_items(root, uf, items, mpath, sf) == collect_items(root, uf, items.subrange(0, n), mpath, sf),
    decreases items.len(),
{
    if n < items.len() {
        let s = items.subrange(0, items.len() - 1);
        assert(s.subrange(0, n) =~= items.subrange(0, n));
        lemma_items_prefix(root, uf, s, mpath, sf, n);
    } else {
        assert(items.subrange(0, n) =~= items);
    }
}

} // verus!

verus! {

fn push_found(found: Vec<Type>, r: &Type) -> (out: Vec<Type>)
    ensures
        view_types(out@) == view_types(found@).push(r@),
{
    let mut found = found;
    let ghost before = found@;
    found.push(copy_type(r));
    proof { lemma_view_types_push(before, found@.last()); }
    assert(found@ == before.push(found@.last()));
    found
}

fn array_of(elem: Type, len: Lit) -> (r: Type)
    ensures
        r@ == SType::Array(Box::new(elem@), crate::ty::SExpr::Lit(len@)),
{
    let e = Expr::Lit(len);
    assert(e@ == crate::ty::SExpr::Lit(len@));
    Type::Array(Box::new(elem), e)
}

/// The type a resolution writes back in place of `t` once it resolved to
/// `g`. Paths (but a type parameter bound in `gm`, which stays as written),
/// arrays, tuples and trait objects become the resolved type; references
/// and pointers keep their form and have what they point to rewritten; a
/// slice, and any other form, stays as written.
pub open spec fn rewritten_type(gm: Option<SGenMap>, t: SType, g: SGen) -> SType
    decreases t,
{
    match t {
        SType::Path(p) => if generic_hit(gm, p) is Some {
            t
        } else {
            resolved_or(g, t)
        },
        SType::Array(_, _) => resolved_or(g, t),
        SType::Tuple(_) => resolved_or(g, t),
        SType::TraitObject(_) => resolved_or(g, t),
        SType::Reference(m, e) => SType::Reference(m, Box::new(rewritten_type(gm, *e, g))),
        SType::Ptr(m, e) => SType::Ptr(m, Box::new(rewritten_type(gm, *e, g))),
        _ => t,
    }
}

/// The type `g` resolved to, or `t` where `g` is a literal.
pub open spec fn resolved_or(g: SGen, t: SType) -> SType {
    match g {
        SGen::Type(r) => r,
        SGen::Lit(_) => t,
    }
}

fn rewrite_of(gm: Option<&Vec<(String, Gen)>>, t: &Type, g: &Gen) -> (r: Type)
    ensures
        r@ == rewritten_type(view_opt_gm(gm), t@, view_gen(*g)),
    decreases t,
{
    let resolved = match g {
        Gen::Type(x) => copy_type(x),
        Gen::Lit(_) => copy_type(t),
    };
    match t {
        Type::Path(p) => {
            if generic_hit_of(gm, p).is_some() {
                copy_type(t)
            } else {
                resolved
            }
        },
        Type::Array(_, _) => resolved,
        Type::Tuple(_) => resolved,
        Type::TraitObject(_) => resolved,
        Type::Reference(m, e) => Type::Reference(*m, Box::new(rewrite_of(gm, e, g))),
        Type::Ptr(m, e) => Type::Ptr(*m, Box::new(rewrite_of(gm, e, g))),
        _ => copy_type(t),
    }
}

/// Resolves `ty` as [`collect_type_of`] does and, when it resolves, rewrites
/// it in place to its fully qualified form (see [`rewritten_type`]); on an
/// error it is left as it was. `generate_typeid` does not use this form: it
/// leaves the file's own types as written and only replaces the `typeid`
/// module, as its end-to-end tests expect.
pub fn resolve_type_in_type(root: &Vec<Item>, uf: u64, mpath: &Vec<String>, gm: Option<&Vec<(String, Gen)>>, ty: &mut Type, sf: u64) -> (r: Result<(Gen, Vec<Type>), ResolveError>)
    ensures
        match collect_type(root@, uf as nat, strs(mpath@), view_opt_gm(gm), old(ty)@, sf as nat) {
            Ok((g, f)) => r matches Ok((g2, f2)) && view_gen(g2) == g && view_types(f2@) == f
                && final(ty)@ == rewritten_type(view_opt_gm(gm), old(ty)@, g),
            Err(e) => r == Err::<(Gen, Vec<Type>), ResolveError>(e) && final(ty)@ == old(ty)@,
        },
{
    match collect_type_of(root, uf, mpath, gm, ty, sf) {
        Err(e) => Err(e),
        Ok((g, f)) => {
            let t = rewrite_of(gm, ty, &g);
            *ty = t;
            Ok((g, f))
        },
    }
}

/// Resolves `t` and collects the types met (see [`collect_type`]).
pub fn collect_type_of(root: &Vec<Item>, uf: u64, mpath: &Vec<String>, gm: Option<&Vec<(String, Gen)>>, t: &Type, sf: u64) -> (r: Result<(Gen, Vec<Type>), ResolveError>)
    ensures
        match r {
            Ok((g, f)) => collect_type(root@, uf as nat, strs(mpath@), view_opt_gm(gm), t@, sf as nat)
                == Ok::<(SGen, Seq<SType>), ResolveError>((view_gen(g), view_types(f@))),
            Err(e) => collect_type(root@, uf as nat, strs(mpath@), view_opt_gm(gm), t@, sf as nat)
                == Err::<(SGen, Seq<SType>), ResolveError>(e),
        },
    decreases sf, 1int, t,
{
    match t {
        Type::Array(e, len) => match collect_type_of(root, uf, mpath, gm, e, sf) {
            Err(x) => Err(x),
            Ok((Gen::Lit(_), _)) => Err(ResolveError::KindMismatch),
            Ok((Gen::Type(re), found)) => match array_len_of(gm, len) {
                Err(x) => Err(x),
                Ok(l) => {
                    let r = array_of(re, l);
                    let found = push_found(found, &r);
                    Ok((Gen::Type(r), found))
                },
            },
        },
        Type::Path(p) => match generic_hit_of(gm, p) {
            Some(g) => {
                let e: Vec<Type> = Vec::new();
                assert(view_types(e@) =~= Seq::<SType>::empty());
                Ok((g, e))
            },
            None => match resolve_path_of(root, uf, mpath, gm, p, sf) {
                Err(x) => Err(x),
                Ok((rp, found)) => {
                    let r = Type::Path(rp);
                    let found = push_found(found, &r);
                    Ok((Gen::Type(r), found))
                },
            },
        },
        Type::Tuple(elems) => match collect_types_of(root, uf, mpath, gm, elems, sf) {
            Err(x) => Err(x),
            Ok((res, found)) => {
                let r = Type::Tuple(res);
                let found = push_found(found, &r);
                Ok((Gen::Type(r), found))
            },
        },
        Type::Ptr(_, e) => match collect_type_of(root, uf, mpath, gm, e, sf) {
            Err(x) => Err(x),
            Ok((Gen::Lit(_), _)) => Err(ResolveError::KindMismatch),
            Ok((Gen::Type(re), found)) => Ok((Gen::Type(re), found)),
        },
        Type::Reference(_, e) => match collect_type_of(root, uf, mpath, gm, e, sf) {
            Err(x) => Err(x),
            Ok((Gen::Lit(_), _)) => Err(ResolveError::KindMismatch),
            Ok((Gen::Type(re), found)) => Ok((Gen::Type(re), found)),
        },
        Type::Slice(e) => match collect_type_of(root, uf, mpath, gm, e, sf) {
            Err(x) => Err(x),
            Ok((Gen::Lit(_), _)) => Err(ResolveError::KindMismatch),
            Ok((Gen::Type(re), found)) => Ok((Gen::Type(Type::Slice(Box::new(re))), found)),
        },
        Type::TraitObject(bounds) => match resolve_bounds_of(root, uf, mpath, gm, bounds, sf) {
            Err(x) => Err(x),
            Ok((rb, found)) => Ok((Gen::Type(Type::TraitObject(rb)), found)),
        },
        _ => Err(ResolveError::Unsupported),
    }
}

/// Resolves the elements of a tuple (see [`collect_types`]).
pub fn collect_types_of(root: &Vec<Item>, uf: u64, mpath: &Vec<String>, gm: Option<&Vec<(String, Gen)>>, ts: &Vec<Type>, sf: u64) -> (r: Result<(Vec<Type>, Vec<Type>), ResolveError>)
    ensures
        match r {
            Ok((res, f)) => collect_types(root@, uf as nat, strs(mpath@), view_opt_gm(gm), view_types(ts@), sf as nat)
                == Ok::<(Seq<SType>, Seq<SType>), ResolveError>((view_types(res@), view_types(f@))),
            Err(e) => collect_types(root@, uf as nat, strs(mpath@), view_opt_gm(gm), view_types(ts@), sf as nat)
                == Err::<(Seq<SType>, Seq<SType>), ResolveError>(e),
        },
    decreases sf, 1int, ts,
{
    let ghost tv = view_types(ts@);
    let ghost ctx = (root@, uf as nat, strs(mpath@), view_opt_gm(gm), sf as nat);
    let mut res: Vec<Type> = Vec::new();
    let mut found: Vec<Type> = Vec::new();
    let mut i: usize = 0;
    assert(view_types(res@) =~= Seq::<SType>::empty());
    assert(view_types(found@) =~= Seq::<SType>::empty());
    while i < ts.len()
        invariant
            i <= ts@.len(),
            tv == view_types(ts@),
            collect_types(root@, uf as nat, strs(mpath@), view_opt_gm(gm), tv.subrange(0, i as int), sf as nat)
                == Ok::<(Seq<SType>, Seq<SType>), ResolveError>((view_types(res@), view_types(found@))),
        decreases ts@.len() - i,
    {
        let ghost cur = tv.subrange(0, i + 1);
        assert(cur.subrange(0, cur.len() - 1) =~= tv.subrange(0, i as int));
        assert(cur[cur.len() - 1] == ts@[i as int]@);
        assert(decreases_to!(ts => ts@));
        match collect_type_of(root, uf, mpath, gm, &ts[i], sf) {
            Err(x) => {
                proof { lemma_types_prefix(root@, uf as nat, strs(mpath@), view_opt_gm(gm), tv, sf as nat, i + 1); }
                assert(tv.subrange(0, ts@.len() as int) =~= tv);
                return Err(x);
            },
            Ok((Gen::Lit(_), _)) => {
                proof { lemma_types_prefix(root@, uf as nat, strs(mpath@), view_opt_gm(gm), tv, sf as nat, i + 1); }
                return Err(ResolveError::KindMismatch);
            },
            Ok((Gen::Type(rt), f)) => {
                let ghost rb = res@;
                let ghost fb = found@;
                let mut f = f;
                let ghost fv = f@;
                res.push(rt);
                found.append(&mut f);
                proof {
                    lemma_view_types_push(rb, res@.last());
                    lemma_view_types_concat(fb, fv);
                }
                assert(res@ == rb.push(res@.last()));
            },
        }
        i += 1;
    }
    assert(tv.subrange(0, i as int) =~= tv);
    Ok((res, found))
}

/// Resolves the trait paths of the bounds of a trait object (see [`resolve_bounds`]).
pub fn resolve_bounds_of(root: &Vec<Item>, uf: u64, mpath: &Vec<String>, gm: Option<&Vec<(String, Gen)>>, bs: &Vec<TypeParamBound>, sf: u64) -> (r: Result<(Vec<TypeParamBound>, Vec<Type>), ResolveError>)
    ensures
        match r {
            Ok((res, f)) => resolve_bounds(root@, uf as nat, strs(mpath@), view_opt_gm(gm), view_bounds(bs@), sf as nat)
                == Ok::<(Seq<crate::ty::STypeParamBound>, Seq<SType>), ResolveError>((view_bounds(res@), view_types(f@))),
            Err(e) => resolve_bounds(root@, uf as nat, strs(mpath@), view_opt_gm(gm), view_bounds(bs@), sf as nat)
                == Err::<(Seq<crate::ty::STypeParamBound>, Seq<SType>), ResolveError>(e),
        },
    decreases sf, 1int, bs,
{
    let ghost bv = view_bounds(bs@);
    let mut res: Vec<TypeParamBound> = Vec::new();
    let mut found: Vec<Type> = Vec::new();
    let mut i: usize = 0;
    assert(view_bounds(res@) =~= Seq::<crate::ty::STypeParamBound>::empty());
    assert(view_types(found@) =~= Seq::<SType>::empty());
    while i < bs.len()
        invariant
            i <= bs@.len(),
            bv == view_bounds(bs@),
            resolve_bounds(root@, uf as nat, strs(mpath@), view_opt_gm(gm), bv.subrange(0, i as int), sf as nat)
                == Ok::<(Seq<crate::ty::STypeParamBound>, Seq<SType>), ResolveError>((view_bounds(res@), view_types(found@))),
        decreases bs@.len() - i,
    {
        let ghost cur = bv.subrange(0, i + 1);
        assert(cur.subrange(0, cur.len() - 1) =~= bv.subrange(0, i as int));
        assert(cur[cur.len() - 1] == bs@[i as int]@);
        assert(decreases_to!(bs => bs@));
        let ghost rb = res@;
        let ghost fb = found@;
        match &bs[i] {
            TypeParamBound::Trait(p) => match resolve_path_of(root, uf, mpath, gm, p, sf) {
                Err(x) => {
                    proof { lemma_bounds_prefix(root@, uf as nat, strs(mpath@), view_opt_gm(gm), bv, sf as nat, i + 1); }
                    return Err(x);
                },
                Ok((rp, f)) => {
                    let mut f = f;
                    let ghost fv = f@;
                    res.push(TypeParamBound::Trait(rp));
                    found.append(&mut f);
                    proof { lemma_view_types_concat(fb, fv); }
                    assert(view_bounds(res@) =~= view_bounds(rb).push(res@.last()@));
                },
            },
            TypeParamBound::Lifetime(l) => {
                res.push(TypeParamBound::Lifetime(l.clone()));
                assert(view_bounds(res@) =~= view_bounds(rb).push(res@.last()@));
            },
        }
        i += 1;
    }
    assert(bv.subrange(0, i as int) =~= bv);
    Ok((res, found))
}

/// Resolves the path `p` (see [`resolve_path`]).
pub fn resolve_path_of(root: &Vec<Item>, uf: u64, mpath: &Vec<String>, gm: Option<&Vec<(String, Gen)>>, p: &Path, sf: u64) -> (r: Result<(Path, Vec<Type>), ResolveError>)
    ensures
        match r {
            Ok((rp, f)) => resolve_path(root@, uf as nat, strs(mpath@), view_opt_gm(gm), p@, sf as nat)
                == Ok::<(crate::ty::SPath, Seq<SType>), ResolveError>((rp@, view_types(f@))),
            Err(e) => resolve_path(root@, uf as nat, strs(mpath@), view_opt_gm(gm), p@, sf as nat)
                == Err::<(crate::ty::SPath, Seq<SType>), ResolveError>(e),
        },
    decreases sf, 1int, p,
{
    if p.segments.len() == 0 || external(root, mpath, p) {
        let e: Vec<Type> = Vec::new();
        assert(view_types(e@) =~= Seq::<SType>::empty());
        return Ok((copy_path(p), e));
    }
    let n = p.segments.len();
    assert(view_segments(p.segments@)[n - 1] == p.segments@[n - 1]@);
    let last = &p.segments[n - 1];
    match walk_segments(root, uf, clone_strings(mpath), &p.segments, 0) {
        Err(x) => Err(x),
        Ok(m) => match find_symbol(root, &m, &last.ident) {
            None => Err(ResolveError::SymbolNotFound),
            Some(s) => match resolve_symbol(root, s, uf) {
                Err(x) => Err(x),
                Ok(Tgt::Module(_)) => Err(ResolveError::ExpectedType),
                Ok(Tgt::Type(tp, st)) => {
                    assert(decreases_to!(p => p.segments));
                    assert(decreases_to!(p.segments => p.segments@));
                    assert(decreases_to!(p.segments@ => p.segments@[n - 1]));
                    assert(decreases_to!(p.segments@[n - 1] => p.segments@[n - 1].arguments));
                    match resolve_args_of(root, uf, mpath, gm, &last.arguments, sf) {
                        Err(x) => Err(x),
                        Ok((ra, f1)) => match st {
                            None => Ok((path_with_last_args(&tp, ra), f1)),
                            Some((s, smp)) => match expand_struct_of(root, uf, s, &smp, &ra, sf) {
                                Err(x) => Err(x),
                                Ok(f2) => {
                                    let mut f1 = f1;
                                    let mut f2 = f2;
                                    let ghost (a, b) = (f1@, f2@);
                                    f1.append(&mut f2);
                                    proof { lemma_view_types_concat(a, b); }
                                    Ok((path_with_last_args(&tp, ra), f1))
                                },
                            },
                        },
                    }
                },
            },
        },
    }
}

/// Resolves the arguments of a path segment (see [`resolve_args`]).
pub fn resolve_args_of(root: &Vec<Item>, uf: u64, mpath: &Vec<String>, gm: Option<&Vec<(String, Gen)>>, a: &PathArguments, sf: u64) -> (r: Result<(PathArguments, Vec<Type>), ResolveError>)
    ensures
        match r {
            Ok((ra, f)) => resolve_args(root@, uf as nat, strs(mpath@), view_opt_gm(gm), a@, sf as nat)
                == Ok::<(SPathArguments, Seq<SType>), ResolveError>((ra@, view_types(f@))),
            Err(e) => resolve_args(root@, uf as nat, strs(mpath@), view_opt_gm(gm), a@, sf as nat)
                == Err::<(SPathArguments, Seq<SType>), ResolveError>(e),
        },
    decreases sf, 1int, a,
{
    match a {
        PathArguments::AngleBracketed(args) => match resolve_gargs_of(root, uf, mpath, gm, args, sf) {
            Err(x) => Err(x),
            Ok((ra, f)) => Ok((PathArguments::AngleBracketed(ra), f)),
        },
        _ => {
            let e: Vec<Type> = Vec::new();
            assert(view_types(e@) =~= Seq::<SType>::empty());
            Ok((crate::copy::copy_arguments(a), e))
        },
    }
}

/// Resolves generic arguments left to right (see [`resolve_gargs`]).
#[verifier::rlimit(40)]
pub fn resolve_gargs_of(root: &Vec<Item>, uf: u64, mpath: &Vec<String>, gm: Option<&Vec<(String, Gen)>>, args: &Vec<GenericArgument>, sf: u64) -> (r: Result<(Vec<GenericArgument>, Vec<Type>), ResolveError>)
    ensures
        match r {
            Ok((ra, f)) => resolve_gargs(root@, uf as nat, strs(mpath@), view_opt_gm(gm), view_generic_arguments(args@), sf as nat)
                == Ok::<(Seq<crate::ty::SGenericArgument>, Seq<SType>), ResolveError>((view_generic_arguments(ra@), view_types(f@))),
            Err(e) => resolve_gargs(root@, uf as nat, strs(mpath@), view_opt_gm(gm), view_generic_arguments(args@), sf as nat)
                == Err::<(Seq<crate::ty::SGenericArgument>, Seq<SType>), ResolveError>(e),
        },
    decreases sf, 1int, args,
{
    let ghost av = view_generic_arguments(args@);
    let mut res: Vec<GenericArgument> = Vec::new();
    let mut found: Vec<Type> = Vec::new();
    let mut i: usize = 0;
    assert(view_generic_arguments(res@) =~= Seq::<crate::ty::SGenericArgument>::empty());
    assert(view_types(found@) =~= Seq::<SType>::empty());
    while i < args.len()
        invariant
            i <= args@.len(),
            av == view_generic_arguments(args@),
            resolve_gargs(root@, uf as nat, strs(mpath@), view_opt_gm(gm), av.subrange(0, i as int), sf as nat)
                == Ok::<(Seq<crate::ty::SGenericArgument>, Seq<SType>), ResolveError>((view_generic_arguments(res@), view_types(found@))),
        decreases args@.len() - i,
    {
        let ghost cur = av.subrange(0, i + 1);
        assert(cur.subrange(0, cur.len() - 1) =~= av.subrange(0, i as int));
        assert(cur[cur.len() - 1] == args@[i as int]@);
        assert(decreases_to!(args => args@));
        match resolve_garg_of(root, uf, mpath, gm, &args[i], sf) {
            Err(x) => {
                proof { lemma_gargs_prefix(root@, uf as nat, strs(mpath@), view_opt_gm(gm), av, sf as nat, i + 1); }
                return Err(x);
            },
            Ok((ra, f)) => {
                let ghost rb = res@;
                let ghost fb = found@;
                let mut f = f;
                let ghost fv = f@;
                res.push(ra);
                found.append(&mut f);
                proof { lemma_view_types_concat(fb, fv); }
                assert(view_generic_arguments(res@) =~= view_generic_arguments(rb).push(res@.last()@));
            },
        }
        i += 1;
    }
    assert(av.subrange(0, i as int) =~= av);
    Ok((res, found))
}

fn const_arg(l: Lit) -> (r: GenericArgument)
    ensures
        r@ == crate::ty::SGenericArgument::Const(crate::ty::SExpr::Lit(l@)),
{
    let e = Expr::Lit(l);
    assert(e@ == crate::ty::SExpr::Lit(l@));
    GenericArgument::Const(e)
}

/// Resolves one generic argument (see [`resolve_garg`]).
#[verifier::rlimit(40)]
pub fn resolve_garg_of(root: &Vec<Item>, uf: u64, mpath: &Vec<String>, gm: Option<&Vec<(String, Gen)>>, a: &GenericArgument, sf: u64) -> (r: Result<(GenericArgument, Vec<Type>), ResolveError>)
    ensures
        match r {
            Ok((ra, f)) => resolve_garg(root@, uf as nat, strs(mpath@), view_opt_gm(gm), a@, sf as nat)
                == Ok::<(crate::ty::SGenericArgument, Seq<SType>), ResolveError>((ra@, view_types(f@))),
            Err(e) => resolve_garg(root@, uf as nat, strs(mpath@), view_opt_gm(gm), a@, sf as nat)
                == Err::<(crate::ty::SGenericArgument, Seq<SType>), ResolveError>(e),
        },
    decreases sf, 1int, a,
{
    let e: Vec<Type> = Vec::new();
    assert(view_types(e@) =~= Seq::<SType>::empty());
    match a {
        GenericArgument::Lifetime(l) => Ok((GenericArgument::Lifetime(l.clone()), e)),
        GenericArgument::Type(t) => match collect_type_of(root, uf, mpath, gm, t, sf) {
            Err(x) => Err(x),
            Ok((Gen::Type(rt), f)) => Ok((GenericArgument::Type(rt), f)),
            Ok((Gen::Lit(l), f)) => Ok((const_arg(l), f)),
        },
        GenericArgument::Const(Expr::Lit(l)) => Ok((const_arg(copy_lit(l)), e)),
        GenericArgument::Const(Expr::Path(_)) => Err(ResolveError::NotALiteral),
        _ => Err(ResolveError::Unsupported),
    }
}

/// Expands the struct `st` used with the resolved arguments `args`
/// (see [`expand_struct`]). A struct used with a number of arguments other
/// than its number of parameters is refused with `GenericArity`, not
/// expanded.
pub fn expand_struct_of(root: &Vec<Item>, uf: u64, st: &ItemStruct, smp: &Vec<String>, args: &PathArguments, sf: u64) -> (r: Result<Vec<Type>, ResolveError>)
    ensures
        match r {
            Ok(f) => expand_struct(root@, uf as nat, *st, strs(smp@), args@, sf as nat)
                == Ok::<Seq<SType>, ResolveError>(view_types(f@)),
            Err(e) => expand_struct(root@, uf as nat, *st, strs(smp@), args@, sf as nat)
                == Err::<Seq<SType>, ResolveError>(e),
        },
    decreases sf, 0int, args,
{
    match args {
        PathArguments::Empty => {
            let e: Vec<Type> = Vec::new();
            assert(view_types(e@) =~= Seq::<SType>::empty());
            Ok(e)
        },
        PathArguments::Parenthesized(_, _) => Err(ResolveError::Unsupported),
        PathArguments::AngleBracketed(list) => {
            if st.generics.params.len() != list.len() {
                Err(ResolveError::GenericArity)
            } else {
                match bind_generics(&st.generics.params, list) {
                    Err(x) => Err(x),
                    Ok(m) => {
                        if sf == 0 {
                            Err(ResolveError::RecursiveStruct)
                        } else {
                            collect_fields_of(root, uf, smp, &m, &st.fields, sf - 1)
                        }
                    },
                }
            }
        },
    }
}

/// The types of the fields of a struct being expanded (see [`collect_fields`]).
pub fn collect_fields_of(root: &Vec<Item>, uf: u64, smp: &Vec<String>, m: &Vec<(String, Gen)>, fields: &Vec<Field>, sf: u64) -> (r: Result<Vec<Type>, ResolveError>)
    ensures
        match r {
            Ok(f) => collect_fields(root@, uf as nat, strs(smp@), view_gm(m@), fields@, sf as nat)
                == Ok::<Seq<SType>, ResolveError>(view_types(f@)),
            Err(e) => collect_fields(root@, uf as nat, strs(smp@), view_gm(m@), fields@, sf as nat)
                == Err::<Seq<SType>, ResolveError>(e),
        },
    decreases sf, 2int, fields,
{
    let mut found: Vec<Type> = Vec::new();
    let mut i: usize = 0;
    assert(view_types(found@) =~= Seq::<SType>::empty());
    assert(fields@.subrange(0, 0).len() == 0);
    while i < fields.len()
        invariant
            i <= fields@.len(),
            collect_fields(root@, uf as nat, strs(smp@), view_gm(m@), fields@.subrange(0, i as int), sf as nat)
                == Ok::<Seq<SType>, ResolveError>(view_types(found@)),
        decreases fields@.len() - i,
    {
        let ghost cur = fields@.subrange(0, i + 1);
        assert(cur.subrange(0, cur.len() - 1) =~= fields@.subrange(0, i as int));
        assert(cur[cur.len() - 1] == fields@[i as int]);
        match collect_type_of(root, uf, smp, Some(m), &fields[i].ty, sf) {
            Err(x) => {
                proof { lemma_fields_prefix(root@, uf as nat, strs(smp@), view_gm(m@), fields@, sf as nat, i + 1); }
                return Err(x);
            },
            Ok((Gen::Lit(_), _)) => {
                proof { lemma_fields_prefix(root@, uf as nat, strs(smp@), view_gm(m@), fields@, sf as nat, i + 1); }
                return Err(ResolveError::KindMismatch);
            },
            Ok((Gen::Type(rt), f)) => {
                let ghost fb = found@;
                let mut f = f;
                let ghost fv = f@;
                f.push(rt);
                proof { lemma_view_types_push(fv, f@.last()); }
                assert(f@ == fv.push(f@.last()));
                let ghost fv2 = f@;
                found.append(&mut f);
                proof { lemma_view_types_concat(fb, fv2); }
            },
        }
        i += 1;
    }
    assert(fields@.subrange(0, i as int) =~= fields@);
    Ok(found)
}

} // verus!

verus! {

fn collect_inputs_of(root: &Vec<Item>, uf: u64, mpath: &Vec<String>, inputs: &Vec<FnArg>, sf: u64) -> (r: Result<Vec<Type>, ResolveError>)
    ensures
        match r {
            Ok(f) => collect_inputs(root@, uf as nat, strs(mpath@), inputs@, sf as nat) == Ok::<Seq<SType>, ResolveError>(view_types(f@)),
            Err(e) => collect_inputs(root@, uf as nat, strs(mpath@), inputs@, sf as nat) == Err::<Seq<SType>, ResolveError>(e),
        },
{
    let mut found: Vec<Type> = Vec::new();
    let mut i: usize = 0;
    assert(view_types(found@) =~= Seq::<SType>::empty());
    assert(inputs@.subrange(0, 0).len() == 0);
    while i < inputs.len()
        invariant
            i <= inputs@.len(),
            collect_inputs(root@, uf as nat, strs(mpath@), inputs@.subrange(0, i as int), sf as nat)
                == Ok::<Seq<SType>, ResolveError>(view_types(found@)),
        decreases inputs@.len() - i,
    {
        let ghost cur = inputs@.subrange(0, i + 1);
        assert(cur.drop_last() =~= inputs@.subrange(0, i as int));
        assert(cur.last() == inputs@[i as int]);
        match &inputs[i] {
            FnArg::Typed(_, t) => match collect_type_of(root, uf, mpath, None, t, sf) {
                Err(x) => {
                    proof { lemma_inputs_prefix(root@, uf as nat, strs(mpath@), inputs@, sf as nat, i + 1); }
                    return Err(x);
                },
                Ok((_, f)) => {
                    let ghost fb = found@;
                    let mut f = f;
                    let ghost fv = f@;
                    found.append(&mut f);
                    proof { lemma_view_types_concat(fb, fv); }
                },
            },
            FnArg::Receiver(_) => {},
        }
        i += 1;
    }
    assert(inputs@.subrange(0, i as int) =~= inputs@);
    Ok(found)
}

fn collect_method_of(root: &Vec<Item>, uf: u64, mpath: &Vec<String>, m: &crate::ast::TraitItemMethod, sf: u64) -> (r: Result<Vec<Type>, ResolveError>)
    ensures
        match r {
            Ok(f) => collect_method(root@, uf as nat, strs(mpath@), *m, sf as nat) == Ok::<Seq<SType>, ResolveError>(view_types(f@)),
            Err(e) => collect_method(root@, uf as nat, strs(mpath@), *m, sf as nat) == Err::<Seq<SType>, ResolveError>(e),
        },
{
    match collect_inputs_of(root, uf, mpath, &m.sig.inputs, sf) {
        Err(x) => Err(x),
        Ok(f1) => match &m.sig.output {
            crate::ty::ReturnType::Default => Ok(f1),
            crate::ty::ReturnType::Type(t) => match collect_type_of(root, uf, mpath, None, t, sf) {
                Err(x) => Err(x),
                Ok((_, f2)) => {
                    let mut f1 = f1;
                    let mut f2 = f2;
                    let ghost (a, b) = (f1@, f2@);
                    f1.append(&mut f2);
                    proof { lemma_view_types_concat(a, b); }
                    Ok(f1)
                },
            },
        },
    }
}

fn collect_trait_items_of(root: &Vec<Item>, uf: u64, mpath: &Vec<String>, items: &Vec<TraitItem>, sf: u64) -> (r: Result<Vec<Type>, ResolveError>)
    ensures
        match r {
            Ok(f) => collect_trait_items(root@, uf as nat, strs(mpath@), items@, sf as nat) == Ok::<Seq<SType>, ResolveError>(view_types(f@)),
            Err(e) => collect_trait_items(root@, uf as nat, strs(mpath@), items@, sf as nat) == Err::<Seq<SType>, ResolveError>(e),
        },
{
    let mut found: Vec<Type> = Vec::new();
    let mut i: usize = 0;
    assert(view_types(found@) =~= Seq::<SType>::empty());
    assert(items@.subrange(0, 0).len() == 0);
    while i < items.len()
        invariant
            i <= items@.len(),
            collect_trait_items(root@, uf as nat, strs(mpath@), items@.subrange(0, i as int), sf as nat)
                == Ok::<Seq<SType>, ResolveError>(view_types(found@)),
        decreases items@.len() - i,
    {
        let ghost cur = items@.subrange(0, i + 1);
        assert(cur.drop_last() =~= items@.subrange(0, i as int));
        assert(cur.last() == items@[i as int]);
        match &items[i] {
            TraitItem::Method(m) => match collect_method_of(root, uf, mpath, m, sf) {
                Err(x) => {
                    proof { lemma_trait_items_prefix(root@, uf as nat, strs(mpath@), items@, sf as nat, i + 1); }
                    return Err(x);
                },
                Ok(f) => {
                    let ghost fb = found@;
                    let mut f = f;
                    let ghost fv = f@;
                    found.append(&mut f);
                    proof { lemma_view_types_concat(fb, fv); }
                },
            },
            _ => {},
        }
        i += 1;
    }
    assert(items@.subrange(0, i as int) =~= items@);
    Ok(found)
}

/// The types the traits among `items`, the items of the module `mpath`, send
/// (see [`collect_items`]).
pub fn collect_items_of(root: &Vec<Item>, uf: u64, items: &Vec<Item>, mpath: &Vec<String>, sf: u64) -> (r: Result<Vec<Type>, ResolveError>)
    ensures
        match r {
            Ok(f) => collect_items(root@, uf as nat, items@, strs(mpath@), sf as nat) == Ok::<Seq<SType>, ResolveError>(view_types(f@)),
            Err(e) => collect_items(root@, uf as nat, items@, strs(mpath@), sf as nat) == Err::<Seq<SType>, ResolveError>(e),
        },
    decreases items,
{
    let mut found: Vec<Type> = Vec::new();
    let mut i: usize = 0;
    assert(view_types(found@) =~= Seq::<SType>::empty());
    assert(items@.subrange(0, 0).len() == 0);
    while i < items.len()
        invariant
            i <= items@.len(),
            collect_items(root@, uf as nat, items@.subrange(0, i as int), strs(mpath@), sf as nat)
                == Ok::<Seq<SType>, ResolveError>(view_types(found@)),
        decreases items@.len() - i,
    {
        let ghost cur = items@.subrange(0, i + 1);
        assert(cur.subrange(0, cur.len() - 1) =~= items@.subrange(0, i as int));
        assert(cur[cur.len() - 1] == items@[i as int]);
        let sub = match &items[i] {
            Item::Mod(m) => match &m.content {
                Some(c) => {
                    let mut p = clone_strings(mpath);
                    p.push(m.ident.clone());
                    assert(strs(p@) =~= strs(mpath@).push(m.ident@));
                    assert(decreases_to!(items => items@));
                    collect_items_of(root, uf, c, &p, sf)
                },
                None => Ok(Vec::new()),
            },
            Item::Trait(t) => collect_trait_items_of(root, uf, mpath, &t.items, sf),
            _ => Ok(Vec::new()),
        };
        match sub {
            Err(x) => {
                proof { lemma_items_prefix(root@, uf as nat, items@, strs(mpath@), sf as nat, i + 1); }
                return Err(x);
            },
            Ok(f) => {
                let ghost fb = found@;
                let mut f = f;
                let ghost fv = f@;
                found.append(&mut f);
                proof { lemma_view_types_concat(fb, fv); }
                assert(view_types(fv) =~= Seq::<SType>::empty() ==> view_types(found@) == view_types(fb));
            },
        }
        i += 1;
    }
    assert(items@.subrange(0, i as int) =~= items@);
    Ok(found)
}

/// Every type the interface of the file with items `root` sends across a
/// domain boundary, in the order met (see [`crate::resolve::boundary_types`]).
pub fn boundary_types_of(root: &Vec<Item>) -> (r: Result<Vec<Type>, ResolveError>)
    ensures
        match r {
            Ok(f) => crate::resolve::boundary_types(root@) == Ok::<Seq<SType>, ResolveError>(view_types(f@)),
            Err(e) => crate::resolve::boundary_types(root@) == Err::<Seq<SType>, ResolveError>(e),
        },
{
    match crate::symbols::check_declarations(root) {
        Some(e) => Err(e),
        None => {
            let fuel = crate::symbols::weight_of(root);
            let top: Vec<String> = Vec::new();
            assert(strs(top@) =~= Seq::<Seq<char>>::empty());
            match crate::symbols::check_links(root, root, &top, fuel) {
                Some(e) => Err(e),
                None => collect_items_of(root, fuel, root, &top, fuel),
            }
        },
    }
}

} // verus!
