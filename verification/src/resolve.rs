//! Resolving the types of interface methods to fully qualified types, and
//! collecting every type that crosses a domain boundary: the argument and
//! return types of the methods of every trait, what is nested in them, and,
//! for a generic struct of the file, the types of its fields under the given
//! arguments.

use vstd::prelude::*;
use crate::ast::{Field, FnArg, GenericParam, Item, ItemStruct, ItemTrait, TraitItem, TraitItemMethod};
use crate::symbols::{lookup, sym_public, target_of, ResolveError, Target};
use crate::ty::{
    SExpr, SGenericArgument, SLit, SPath, SPathArguments, SPathSegment, SType, STypeParamBound,
    SReturnType,
};

verus! {

/// What a generic parameter stands for: a type, or a literal for a const
/// parameter.
pub enum SGen {
    Type(SType),
    Lit(SLit),
}

/// The arguments of the generic struct being expanded, by parameter name.
pub type SGenMap = Seq<(Seq<char>, SGen)>;

/// The first binding of `name` in `m`.
pub open spec fn gm_get(m: SGenMap, name: Seq<char>) -> Option<SGen>
    decreases m.len(),
{
    if m.len() == 0 {
        None
    } else if m[0].0 == name {
        Some(m[0].1)
    } else {
        gm_get(m.drop_first(), name)
    }
}

/// The identifier a path consists of, when it is a single plain one.
pub open spec fn plain_ident(p: SPath) -> Option<Seq<char>> {
    if !p.leading_colon && p.segments.len() == 1 && p.segments[0].arguments is Empty {
        Some(p.segments[0].ident)
    } else {
        None
    }
}

/// What `p` stands for when it names a parameter of the struct being expanded.
pub open spec fn generic_hit(gm: Option<SGenMap>, p: SPath) -> Option<SGen> {
    match gm {
        Some(m) => match plain_ident(p) {
            Some(id) => gm_get(m, id),
            None => None,
        },
        None => None,
    }
}

pub open spec fn is_modifier(s: Seq<char>) -> bool {
    s == "crate"@ || s == "super"@ || s == "self"@
}

/// Whether `p` names something outside the file: it starts with `::` and a
/// path modifier, or its first segment is not a name of the module `mpath`.
/// Such a path is kept as written.
pub open spec fn is_external(root: Seq<Item>, mpath: Seq<Seq<char>>, p: SPath) -> bool {
    (p.leading_colon && is_modifier(p.segments[0].ident)) || lookup(root, mpath, p.segments[0].ident) is None
}

/// Walks the segments of a type path before its last one, from the module
/// `cur`: each must be a plain, declared, public module.
pub open spec fn walk_path(root: Seq<Item>, uf: nat, cur: Seq<Seq<char>>, segs: Seq<SPathSegment>, i: int) -> Result<Seq<Seq<char>>, ResolveError>
    decreases segs.len() - i,
{
    if i < 0 || i >= segs.len() - 1 {
        Ok(cur)
    } else if !(segs[i].arguments is Empty) {
        Err(ResolveError::InnerGenericArguments)
    } else {
        match lookup(root, cur, segs[i].ident) {
            None => Err(ResolveError::SymbolNotFound),
            Some(s) => match target_of(root, s, uf) {
                Err(e) => Err(e),
                Ok(Target::Type(_, _)) => Err(ResolveError::NotAModule),
                Ok(Target::Module(m)) => if !sym_public(s) {
                    Err(ResolveError::PrivateSymbol)
                } else {
                    walk_path(root, uf, m, segs, i + 1)
                },
            },
        }
    }
}

/// The path `tp` with no arguments but `args` on its last segment.
pub open spec fn with_last_args(tp: Seq<Seq<char>>, args: SPathArguments) -> SPath {
    SPath {
        leading_colon: false,
        segments: Seq::new(
            tp.len(),
            |i: int| SPathSegment {
                ident: tp[i],
                arguments: if i == tp.len() - 1 { args } else { SPathArguments::Empty },
            },
        ),
    }
}

/// The literal an array length stands for.
pub open spec fn array_len(gm: Option<SGenMap>, len: SExpr) -> Result<SLit, ResolveError> {
    match len {
        SExpr::Lit(l) => Ok(l),
        SExpr::Path(p) => match generic_hit(gm, p) {
            Some(SGen::Lit(l)) => Ok(l),
            Some(SGen::Type(_)) => Err(ResolveError::KindMismatch),
            None => Err(ResolveError::NotALiteral),
        },
        SExpr::Other(_) => Err(ResolveError::Unsupported),
    }
}

/// Binds the parameters of a generic struct to the arguments it is used with.
pub open spec fn generic_map(params: Seq<GenericParam>, args: Seq<SGenericArgument>) -> Result<SGenMap, ResolveError>
    decreases params.len(),
{
    if params.len() == 0 || args.len() == 0 {
        Ok(Seq::empty())
    } else {
        match generic_map(params.drop_last(), args.drop_last()) {
            Err(e) => Err(e),
            Ok(m) => {
                let name = match params.last() {
                    GenericParam::Type(n, _) => Some(n@),
                    GenericParam::Const(n, _) => Some(n@),
                    GenericParam::Lifetime(_) => None,
                };
                let val = match args.last() {
                    SGenericArgument::Type(t) => Some(SGen::Type(t)),
                    SGenericArgument::Const(SExpr::Lit(l)) => Some(SGen::Lit(l)),
                    _ => None,
                };
                match (name, val) {
                    (Some(n), Some(v)) => Ok(m.push((n, v))),
                    _ => Err(ResolveError::Unsupported),
                }
            },
        }
    }
}

/// Resolves the type `t`, written in the module `mpath` (inside the expansion
/// of a generic struct when `gm` is given), and collects the types met on
/// the way, innermost first. Returns what `t` resolves to and the collected
/// types. `uf` bounds the imports followed in a row, `sf` the nested struct
/// expansions.
pub open spec fn collect_type(root: Seq<Item>, uf: nat, mpath: Seq<Seq<char>>, gm: Option<SGenMap>, t: SType, sf: nat) -> Result<(SGen, Seq<SType>), ResolveError>
    decreases sf, 1int, t,
{
    match t {
        SType::Array(e, len) => match collect_type(root, uf, mpath, gm, *e, sf) {
            Err(x) => Err(x),
            Ok((SGen::Lit(_), _)) => Err(ResolveError::KindMismatch),
            Ok((SGen::Type(re), found)) => match array_len(gm, len) {
                Err(x) => Err(x),
                Ok(l) => {
                    let r = SType::Array(Box::new(re), SExpr::Lit(l));
                    Ok((SGen::Type(r), found.push(r)))
                },
            },
        },
        SType::Path(p) => match generic_hit(gm, p) {
            Some(g) => Ok((g, Seq::empty())),
            None => match resolve_path(root, uf, mpath, gm, p, sf) {
                Err(x) => Err(x),
                Ok((rp, found)) => {
                    let r = SType::Path(rp);
                    Ok((SGen::Type(r), found.push(r)))
                },
            },
        },
        SType::Tuple(elems) => match collect_types(root, uf, mpath, gm, elems, sf) {
            Err(x) => Err(x),
            Ok((res, found)) => {
                let r = SType::Tuple(res);
                Ok((SGen::Type(r), found.push(r)))
            },
        },
        SType::Ptr(_, e) => match collect_type(root, uf, mpath, gm, *e, sf) {
            Err(x) => Err(x),
            Ok((SGen::Lit(_), _)) => Err(ResolveError::KindMismatch),
            Ok((SGen::Type(re), found)) => Ok((SGen::Type(re), found)),
        },
        SType::Reference(_, e) => match collect_type(root, uf, mpath, gm, *e, sf) {
            Err(x) => Err(x),
            Ok((SGen::Lit(_), _)) => Err(ResolveError::KindMismatch),
            Ok((SGen::Type(re), found)) => Ok((SGen::Type(re), found)),
        },
        SType::Slice(e) => match collect_type(root, uf, mpath, gm, *e, sf) {
            Err(x) => Err(x),
            Ok((SGen::Lit(_), _)) => Err(ResolveError::KindMismatch),
            Ok((SGen::Type(re), found)) => Ok((SGen::Type(SType::Slice(Box::new(re))), found)),
        },
        SType::TraitObject(bounds) => match resolve_bounds(root, uf, mpath, gm, bounds, sf) {
            Err(x) => Err(x),
            Ok((rb, found)) => Ok((SGen::Type(SType::TraitObject(rb)), found)),
        },
        _ => Err(ResolveError::Unsupported),
    }
}

/// The elements of a tuple, resolved left to right.
pub open spec fn collect_types(root: Seq<Item>, uf: nat, mpath: Seq<Seq<char>>, gm: Option<SGenMap>, ts: Seq<SType>, sf: nat) -> Result<(Seq<SType>, Seq<SType>), ResolveError>
    decreases sf, 1int, ts,
{
    if ts.len() == 0 {
        Ok((Seq::empty(), Seq::empty()))
    } else {
        match collect_types(root, uf, mpath, gm, ts.subrange(0, ts.len() - 1), sf) {
            Err(x) => Err(x),
            Ok((res, found)) => match collect_type(root, uf, mpath, gm, ts[ts.len() - 1], sf) {
                Err(x) => Err(x),
                Ok((SGen::Lit(_), _)) => Err(ResolveError::KindMismatch),
                Ok((SGen::Type(r), f)) => Ok((res.push(r), found + f)),
            },
        }
    }
}

/// The bounds of a trait object, their trait paths resolved left to right.
pub open spec fn resolve_bounds(root: Seq<Item>, uf: nat, mpath: Seq<Seq<char>>, gm: Option<SGenMap>, bs: Seq<STypeParamBound>, sf: nat) -> Result<(Seq<STypeParamBound>, Seq<SType>), ResolveError>
    decreases sf, 1int, bs,
{
    if bs.len() == 0 {
        Ok((Seq::empty(), Seq::empty()))
    } else {
        match resolve_bounds(root, uf, mpath, gm, bs.subrange(0, bs.len() - 1), sf) {
            Err(x) => Err(x),
            Ok((res, found)) => match bs[bs.len() - 1] {
                STypeParamBound::Trait(p) => match resolve_path(root, uf, mpath, gm, p, sf) {
                    Err(x) => Err(x),
                    Ok((rp, f)) => Ok((res.push(STypeParamBound::Trait(rp)), found + f)),
                },
                STypeParamBound::Lifetime(l) => Ok((res.push(STypeParamBound::Lifetime(l)), found)),
            },
        }
    }
}

/// Resolves the path `p`, written in the module `mpath`. A path of another
/// crate is kept as written. Otherwise the result is the path of what it
/// names, with the resolved arguments of `p`'s last segment; where it names a
/// generic struct of the file used with arguments, the struct is expanded.
pub open spec fn resolve_path(root: Seq<Item>, uf: nat, mpath: Seq<Seq<char>>, gm: Option<SGenMap>, p: SPath, sf: nat) -> Result<(SPath, Seq<SType>), ResolveError>
    decreases sf, 1int, p,
{
    if p.segments.len() == 0 || is_external(root, mpath, p) {
        Ok((p, Seq::empty()))
    } else {
        let last = p.segments[p.segments.len() - 1];
        match walk_path(root, uf, mpath, p.segments, 0) {
            Err(x) => Err(x),
            Ok(m) => match lookup(root, m, last.ident) {
                None => Err(ResolveError::SymbolNotFound),
                Some(s) => match target_of(root, s, uf) {
                    Err(x) => Err(x),
                    Ok(Target::Module(_)) => Err(ResolveError::ExpectedType),
                    Ok(Target::Type(tp, st)) => match resolve_args(root, uf, mpath, gm, last.arguments, sf) {
                        Err(x) => Err(x),
                        Ok((ra, f1)) => match st {
                            None => Ok((with_last_args(tp, ra), f1)),
                            Some((s, smp)) => match expand_struct(root, uf, s, smp, ra, sf) {
                                Err(x) => Err(x),
                                Ok(f2) => Ok((with_last_args(tp, ra), f1 + f2)),
                            },
                        },
                    },
                },
            },
        }
    }
}

/// Resolves the types in the arguments of a path segment.
pub open spec fn resolve_args(root: Seq<Item>, uf: nat, mpath: Seq<Seq<char>>, gm: Option<SGenMap>, a: SPathArguments, sf: nat) -> Result<(SPathArguments, Seq<SType>), ResolveError>
    decreases sf, 1int, a,
{
    match a {
        SPathArguments::AngleBracketed(args) => match resolve_gargs(root, uf, mpath, gm, args, sf) {
            Err(x) => Err(x),
            Ok((ra, found)) => Ok((SPathArguments::AngleBracketed(ra), found)),
        },
        _ => Ok((a, Seq::empty())),
    }
}

pub open spec fn resolve_gargs(root: Seq<Item>, uf: nat, mpath: Seq<Seq<char>>, gm: Option<SGenMap>, args: Seq<SGenericArgument>, sf: nat) -> Result<(Seq<SGenericArgument>, Seq<SType>), ResolveError>
    decreases sf, 1int, args,
{
    if args.len() == 0 {
        Ok((Seq::empty(), Seq::empty()))
    } else {
        match resolve_gargs(root, uf, mpath, gm, args.subrange(0, args.len() - 1), sf) {
            Err(x) => Err(x),
            Ok((res, found)) => match resolve_garg(root, uf, mpath, gm, args[args.len() - 1], sf) {
                Err(x) => Err(x),
                Ok((r, f)) => Ok((res.push(r), found + f)),
            },
        }
    }
}

/// Resolves one generic argument: a type argument may turn into a literal
/// when it names a const parameter of the struct being expanded.
pub open spec fn resolve_garg(root: Seq<Item>, uf: nat, mpath: Seq<Seq<char>>, gm: Option<SGenMap>, a: SGenericArgument, sf: nat) -> Result<(SGenericArgument, Seq<SType>), ResolveError>
    decreases sf, 1int, a,
{
    match a {
        SGenericArgument::Lifetime(_) => Ok((a, Seq::empty())),
        SGenericArgument::Type(t) => match collect_type(root, uf, mpath, gm, t, sf) {
            Err(x) => Err(x),
            Ok((SGen::Type(rt), f)) => Ok((SGenericArgument::Type(rt), f)),
            Ok((SGen::Lit(l), f)) => Ok((SGenericArgument::Const(SExpr::Lit(l)), f)),
        },
        SGenericArgument::Const(SExpr::Lit(_)) => Ok((a, Seq::empty())),
        SGenericArgument::Const(SExpr::Path(_)) => Err(ResolveError::NotALiteral),
        _ => Err(ResolveError::Unsupported),
    }
}

/// Expands the struct `st`, defined in the module `smp`, used with the
/// resolved arguments `args`: collects the types of its fields with its
/// parameters bound to the arguments.
pub open spec fn expand_struct(root: Seq<Item>, uf: nat, st: ItemStruct, smp: Seq<Seq<char>>, args: SPathArguments, sf: nat) -> Result<Seq<SType>, ResolveError>
    decreases sf, 0int, args,
{
    match args {
        SPathArguments::Empty => Ok(Seq::empty()),
        SPathArguments::Parenthesized(_, _) => Err(ResolveError::Unsupported),
        SPathArguments::AngleBracketed(list) => if st.generics.params@.len() != list.len() {
            Err(ResolveError::GenericArity)
        } else {
            match generic_map(st.generics.params@, list) {
                Err(x) => Err(x),
                Ok(m) => if sf == 0 {
                    Err(ResolveError::RecursiveStruct)
                } else {
                    collect_fields(root, uf, smp, m, st.fields@, (sf - 1) as nat)
                },
            }
        },
    }
}

/// The types of `fields`, each followed by what it resolves to.
pub open spec fn collect_fields(root: Seq<Item>, uf: nat, smp: Seq<Seq<char>>, m: SGenMap, fields: Seq<Field>, sf: nat) -> Result<Seq<SType>, ResolveError>
    decreases sf, 2int, fields,
{
    if fields.len() == 0 {
        Ok(Seq::empty())
    } else {
        match collect_fields(root, uf, smp, m, fields.subrange(0, fields.len() - 1), sf) {
            Err(x) => Err(x),
            Ok(f1) => match collect_type(root, uf, smp, Some(m), fields[fields.len() - 1].ty@, sf) {
                Err(x) => Err(x),
                Ok((SGen::Lit(_), _)) => Err(ResolveError::KindMismatch),
                Ok((SGen::Type(rt), f2)) => Ok(f1 + f2.push(rt)),
            },
        }
    }
}

} // verus!

verus! {

/// The types the parameters and the result of `inputs` and `output` send.
pub open spec fn collect_inputs(root: Seq<Item>, uf: nat, mpath: Seq<Seq<char>>, inputs: Seq<FnArg>, sf: nat) -> Result<Seq<SType>, ResolveError>
    decreases inputs.len(),
{
    if inputs.len() == 0 {
        Ok(Seq::empty())
    } else {
        match collect_inputs(root, uf, mpath, inputs.drop_last(), sf) {
            Err(x) => Err(x),
            Ok(f1) => match inputs.last() {
                FnArg::Typed(_, t) => match collect_type(root, uf, mpath, None, t@, sf) {
                    Err(x) => Err(x),
                    Ok((_, f2)) => Ok(f1 + f2),
                },
                FnArg::Receiver(_) => Ok(f1),
            },
        }
    }
}

/// The types the signature of the method `m` sends: those of its typed
/// parameters, left to right, then those of its return type.
pub open spec fn collect_method(root: Seq<Item>, uf: nat, mpath: Seq<Seq<char>>, m: TraitItemMethod, sf: nat) -> Result<Seq<SType>, ResolveError> {
    match collect_inputs(root, uf, mpath, m.sig.inputs@, sf) {
        Err(x) => Err(x),
        Ok(f1) => match m.sig.output {
            crate::ty::ReturnType::Default => Ok(f1),
            crate::ty::ReturnType::Type(t) => match collect_type(root, uf, mpath, None, t@, sf) {
                Err(x) => Err(x),
                Ok((_, f2)) => Ok(f1 + f2),
            },
        },
    }
}

/// The types the methods among `items`, the items of a trait, send.
pub open spec fn collect_trait_items(root: Seq<Item>, uf: nat, mpath: Seq<Seq<char>>, items: Seq<TraitItem>, sf: nat) -> Result<Seq<SType>, ResolveError>
    decreases items.len(),
{
    if items.len() == 0 {
        Ok(Seq::empty())
    } else {
        match collect_trait_items(root, uf, mpath, items.drop_last(), sf) {
            Err(x) => Err(x),
            Ok(f1) => match items.last() {
                TraitItem::Method(m) => match collect_method(root, uf, mpath, m, sf) {
                    Err(x) => Err(x),
                    Ok(f2) => Ok(f1 + f2),
                },
                _ => Ok(f1),
            },
        }
    }
}

/// The types the traits among `items`, the items of the module `mpath`, and
/// of the modules in it, send, in the order of the file.
pub open spec fn collect_items(root: Seq<Item>, uf: nat, items: Seq<Item>, mpath: Seq<Seq<char>>, sf: nat) -> Result<Seq<SType>, ResolveError>
    decreases items,
{
    if items.len() == 0 {
        Ok(Seq::empty())
    } else {
        match collect_items(root, uf, items.subrange(0, items.len() - 1), mpath, sf) {
            Err(x) => Err(x),
            Ok(f1) => match items[items.len() - 1] {
                Item::Mod(m) => match m.content {
                    Some(c) => match collect_items(root, uf, c@, mpath.push(m.ident@), sf) {
                        Err(x) => Err(x),
                        Ok(f2) => Ok(f1 + f2),
                    },
                    None => Ok(f1),
                },
                Item::Trait(t) => match collect_trait_items(root, uf, mpath, t.items@, sf) {
                    Err(x) => Err(x),
                    Ok(f2) => Ok(f1 + f2),
                },
                _ => Ok(f1),
            },
        }
    }
}

/// Every type the interface of the file `root` sends across a domain
/// boundary, in the order met, repeats included; or why the file is refused.
pub open spec fn boundary_types(root: Seq<Item>) -> Result<Seq<SType>, ResolveError> {
    match crate::symbols::decl_error(root) {
        Some(e) => Err(e),
        None => match crate::symbols::link_error(root, root, Seq::empty(), crate::symbols::fuel_of(root)) {
            Some(e) => Err(e),
            None => collect_items(root, crate::symbols::fuel_of(root), root, Seq::empty(), crate::symbols::fuel_of(root)),
        },
    }
}

/// The items of an inline module are collected from the module's own path:
/// the path of the module they are written in, extended by its name.
pub proof fn law_module_items_resolve_from_module(
    root: Seq<Item>,
    uf: nat,
    mpath: Seq<Seq<char>>,
    m: crate::ast::ItemMod,
    c: Vec<Item>,
    sf: nat,
)
    requires
        m.content == Some(c),
    ensures
        collect_items(root, uf, seq![Item::Mod(m)], mpath, sf) == collect_items(root, uf, c@, mpath.push(m.ident@), sf),
{
    let one = seq![Item::Mod(m)];
    assert(one.subrange(0, 0) =~= Seq::<Item>::empty());
    assert(collect_items(root, uf, Seq::<Item>::empty(), mpath, sf) == Ok::<Seq<SType>, ResolveError>(Seq::empty()));
    match collect_items(root, uf, c@, mpath.push(m.ident@), sf) {
        Ok(f2) => assert(Seq::<SType>::empty() + f2 =~= f2),
        Err(_) => {},
    }
}

/// The types of an interface trait written in module `m` are resolved
/// relative to `m`: a module holding just the trait `t` sends across domain
/// boundaries what `t`'s methods name, resolved from the path of `m`.
pub proof fn law_trait_in_module_resolves_from_module(
    root: Seq<Item>,
    uf: nat,
    mpath: Seq<Seq<char>>,
    m: crate::ast::ItemMod,
    c: Vec<Item>,
    t: ItemTrait,
    sf: nat,
)
    requires
        m.content == Some(c),
        c@ == seq![Item::Trait(t)],
    ensures
        collect_items(root, uf, seq![Item::Mod(m)], mpath, sf)
            == collect_trait_items(root, uf, mpath.push(m.ident@), t.items@, sf),
{
    law_module_items_resolve_from_module(root, uf, mpath, m, c, sf);
    let inner = mpath.push(m.ident@);
    assert(c@.subrange(0, 0) =~= Seq::<Item>::empty());
    assert(collect_items(root, uf, Seq::<Item>::empty(), inner, sf) == Ok::<Seq<SType>, ResolveError>(Seq::empty()));
    assert(c@[c@.len() - 1] == Item::Trait(t));
    match collect_trait_items(root, uf, inner, t.items@, sf) {
        Ok(f2) => assert(Seq::<SType>::empty() + f2 =~= f2),
        Err(_) => {},
    }
}

} // verus!
