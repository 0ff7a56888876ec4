//! The intermediate representation of an IDL module: its domain traits,
//! with the types each method mentions, and its struct definitions, with
//! their generic parameters and the types they mention. Nodes refer back to
//! the syntax they were made from.

use vstd::prelude::*;
use crate::ast::{Attribute, File, FnArg, GenericParam, Item, ItemStruct, ItemTrait, TraitItem, TraitItemMethod};
use crate::text::strs;
use crate::ty::{
    GenericArgument, Path, PathArguments, ReturnType, SGenericArgument, SPathArguments, SPathSegment, SReturnType,
    SType, STypeParamBound, Type, TypeParamBound, view_bounds,
};

verus! {

// ---------------------------------------------------------------------------
// The types a walk meets.

/// The types among generic arguments: those given as types, and those
/// bound to associated types.
pub open spec fn args_types(args: Seq<SGenericArgument>) -> Seq<SType>
    decreases args.len(),
{
    if args.len() == 0 {
        Seq::empty()
    } else {
        args_types(args.drop_last()) + match args.last() {
            SGenericArgument::Type(t) => seq![t],
            SGenericArgument::Binding(_, t) => seq![t],
            _ => Seq::empty(),
        }
    }
}

pub open spec fn return_types(r: SReturnType) -> Seq<SType> {
    match r {
        SReturnType::Default => Seq::empty(),
        SReturnType::Type(t) => seq![*t],
    }
}

pub open spec fn arguments_types(a: SPathArguments) -> Seq<SType> {
    match a {
        SPathArguments::Empty => Seq::empty(),
        SPathArguments::AngleBracketed(args) => args_types(args),
        SPathArguments::Parenthesized(inputs, output) => inputs + return_types(output),
    }
}

/// The types in the arguments of a path's segments, in order.
pub open spec fn path_types(segs: Seq<SPathSegment>) -> Seq<SType>
    decreases segs.len(),
{
    if segs.len() == 0 {
        Seq::empty()
    } else {
        path_types(segs.drop_last()) + arguments_types(segs.last().arguments)
    }
}

pub open spec fn bounds_types(bs: Seq<STypeParamBound>) -> Seq<SType>
    decreases bs.len(),
{
    if bs.len() == 0 {
        Seq::empty()
    } else {
        bounds_types(bs.drop_last()) + match bs.last() {
            STypeParamBound::Trait(p) => path_types(p.segments),
            STypeParamBound::Lifetime(_) => Seq::empty(),
        }
    }
}

/// The types in the paths of attributes.
pub open spec fn attrs_types(attrs: Seq<Attribute>) -> Seq<SType>
    decreases attrs.len(),
{
    if attrs.len() == 0 {
        Seq::empty()
    } else {
        attrs_types(attrs.drop_last()) + path_types(attrs.last().path@.segments)
    }
}

/// The types generic parameters mention: those in the bounds of type
/// parameters when `with_bounds`, and the types of const parameters.
pub open spec fn params_types(ps: Seq<GenericParam>, with_bounds: bool) -> Seq<SType>
    decreases ps.len(),
{
    if ps.len() == 0 {
        Seq::empty()
    } else {
        params_types(ps.drop_last(), with_bounds) + match ps.last() {
            GenericParam::Type(_, bounds) => if with_bounds { bounds_types(view_bounds(bounds@)) } else { Seq::empty() },
            GenericParam::Const(_, t) => seq![t@],
            GenericParam::Lifetime(_) => Seq::empty(),
        }
    }
}

/// The types of the typed arguments.
pub open spec fn inputs_types(inputs: Seq<FnArg>) -> Seq<SType>
    decreases inputs.len(),
{
    if inputs.len() == 0 {
        Seq::empty()
    } else {
        inputs_types(inputs.drop_last()) + match inputs.last() {
            FnArg::Typed(_, t) => seq![t@],
            FnArg::Receiver(_) => Seq::empty(),
        }
    }
}

/// The types a method mentions, in the order of a walk: those in its
/// attributes, its generic parameters, its arguments, then its return type.
pub open spec fn rpc_types(m: TraitItemMethod) -> Seq<SType> {
    attrs_types(m.attrs@) + params_types(m.sig.generics.params@, true) + inputs_types(m.sig.inputs@)
        + return_types(m.sig.output@)
}

/// The names of the type parameters.
pub open spec fn type_param_names(ps: Seq<GenericParam>) -> Seq<Seq<char>>
    decreases ps.len(),
{
    if ps.len() == 0 {
        Seq::empty()
    } else {
        type_param_names(ps.drop_last()) + match ps.last() {
            GenericParam::Type(name, _) => seq![name@],
            _ => Seq::empty(),
        }
    }
}

/// The types a struct mentions, in the order of a walk: those in its
/// attributes, its const parameters, then its fields. The bounds of its type
/// parameters are not looked into.
pub open spec fn struct_types(s: ItemStruct) -> Seq<SType> {
    attrs_types(s.attrs@) + params_types(s.generics.params@, false)
        + Seq::new(s.fields@.len(), |i: int| s.fields@[i].ty@)
}

pub open spec fn view_refs(v: Seq<&Type>) -> Seq<SType> {
    Seq::new(v.len(), |i: int| v[i]@)
}

proof fn lemma_view_refs_push(v: Seq<&Type>, t: &Type)
    ensures
        view_refs(v.push(t)) == view_refs(v) + seq![t@],
{
    assert(view_refs(v.push(t)) =~= view_refs(v) + seq![t@]);
}

pub(crate) fn push_type<'a>(out: &mut Vec<&'a Type>, t: &'a Type)
    ensures
        view_refs(final(out)@) == view_refs(old(out)@) + seq![t@],
{
    let ghost before = out@;
    out.push(t);
    proof { lemma_view_refs_push(before, t); }
}

pub(crate) fn push_return_type<'a>(out: &mut Vec<&'a Type>, r: &'a ReturnType)
    ensures
        view_refs(final(out)@) == view_refs(old(out)@) + return_types(r@),
{
    match r {
        ReturnType::Default => {
            assert(view_refs(out@) =~= view_refs(out@) + return_types(r@));
        },
        ReturnType::Type(t) => push_type(out, t),
    }
}

fn push_arguments_types<'a>(out: &mut Vec<&'a Type>, a: &'a PathArguments)
    ensures
        view_refs(final(out)@) == view_refs(old(out)@) + arguments_types(a@),
{
    let ghost start = view_refs(out@);
    match a {
        PathArguments::Empty => {
            assert(view_refs(out@) =~= start + arguments_types(a@));
        },
        PathArguments::AngleBracketed(args) => {
            let ghost av = crate::ty::view_generic_arguments(args@);
            let mut i: usize = 0;
            assert(av.subrange(0, 0) =~= Seq::<SGenericArgument>::empty());
            assert(view_refs(out@) =~= start + args_types(av.subrange(0, 0)));
            while i < args.len()
                invariant
                    i <= args@.len(),
                    av == crate::ty::view_generic_arguments(args@),
                    view_refs(out@) == start + args_types(av.subrange(0, i as int)),
                decreases args@.len() - i,
            {
                let ghost cur = av.subrange(0, i + 1);
                assert(cur.drop_last() =~= av.subrange(0, i as int));
                assert(cur.last() == args@[i as int]@);
                match &args[i] {
                    GenericArgument::Type(t) => push_type(out, t),
                    GenericArgument::Binding(_, t) => push_type(out, t),
                    _ => {},
                }
                assert(view_refs(out@) =~= start + args_types(cur));
                i += 1;
            }
            assert(av.subrange(0, i as int) =~= av);
        },
        PathArguments::Parenthesized(inputs, output) => {
            let mut i: usize = 0;
            assert(view_refs(out@) =~= start + crate::ty::view_types(inputs@).subrange(0, 0));
            while i < inputs.len()
                invariant
                    i <= inputs@.len(),
                    view_refs(out@) == start + crate::ty::view_types(inputs@).subrange(0, i as int),
                decreases inputs@.len() - i,
            {
                push_type(out, &inputs[i]);
                assert(view_refs(out@) =~= start + crate::ty::view_types(inputs@).subrange(0, i + 1));
                i += 1;
            }
            assert(crate::ty::view_types(inputs@).subrange(0, i as int) =~= crate::ty::view_types(inputs@));
            push_return_type(out, output);
            assert(view_refs(out@) =~= start + arguments_types(a@));
        },
    }
}

pub(crate) fn push_path_types<'a>(out: &mut Vec<&'a Type>, p: &'a Path)
    ensures
        view_refs(final(out)@) == view_refs(old(out)@) + path_types(p@.segments),
{
    let ghost start = view_refs(out@);
    let ghost sv = p@.segments;
    let mut i: usize = 0;
    assert(sv.subrange(0, 0) =~= Seq::<SPathSegment>::empty());
    assert(view_refs(out@) =~= start + path_types(sv.subrange(0, 0)));
    while i < p.segments.len()
        invariant
            i <= p.segments@.len(),
            sv == p@.segments,
            sv.len() == p.segments@.len(),
            view_refs(out@) == start + path_types(sv.subrange(0, i as int)),
        decreases p.segments@.len() - i,
    {
        let ghost cur = sv.subrange(0, i + 1);
        assert(cur.drop_last() =~= sv.subrange(0, i as int));
        assert(cur.last() == p.segments@[i as int]@);
        push_arguments_types(out, &p.segments[i].arguments);
        assert(view_refs(out@) =~= start + path_types(cur));
        i += 1;
    }
    assert(sv.subrange(0, i as int) =~= sv);
}

pub(crate) fn push_attrs_types<'a>(out: &mut Vec<&'a Type>, attrs: &'a Vec<Attribute>)
    ensures
        view_refs(final(out)@) == view_refs(old(out)@) + attrs_types(attrs@),
{
    let ghost start = view_refs(out@);
    let mut i: usize = 0;
    assert(view_refs(out@) =~= start + attrs_types(attrs@.subrange(0, 0)));
    while i < attrs.len()
        invariant
            i <= attrs@.len(),
            view_refs(out@) == start + attrs_types(attrs@.subrange(0, i as int)),
        decreases attrs@.len() - i,
    {
        let ghost cur = attrs@.subrange(0, i + 1);
        assert(cur.drop_last() =~= attrs@.subrange(0, i as int));
        assert(cur.last() == attrs@[i as int]);
        push_path_types(out, &attrs[i].path);
        assert(view_refs(out@) =~= start + attrs_types(cur));
        i += 1;
    }
    assert(attrs@.subrange(0, i as int) =~= attrs@);
}

pub(crate) fn push_bounds_types<'a>(out: &mut Vec<&'a Type>, bs: &'a Vec<TypeParamBound>)
    ensures
        view_refs(final(out)@) == view_refs(old(out)@) + bounds_types(view_bounds(bs@)),
{
    let ghost start = view_refs(out@);
    let ghost bv = view_bounds(bs@);
    let mut i: usize = 0;
    assert(bv.subrange(0, 0) =~= Seq::<STypeParamBound>::empty());
    assert(view_refs(out@) =~= start + bounds_types(bv.subrange(0, 0)));
    while i < bs.len()
        invariant
            i <= bs@.len(),
            bv == view_bounds(bs@),
            view_refs(out@) == start + bounds_types(bv.subrange(0, i as int)),
        decreases bs@.len() - i,
    {
        let ghost cur = bv.subrange(0, i + 1);
        assert(cur.drop_last() =~= bv.subrange(0, i as int));
        assert(cur.last() == bs@[i as int]@);
        match &bs[i] {
            TypeParamBound::Trait(p) => push_path_types(out, p),
            TypeParamBound::Lifetime(_) => {},
        }
        assert(view_refs(out@) =~= start + bounds_types(cur));
        i += 1;
    }
    assert(bv.subrange(0, i as int) =~= bv);
}

pub(crate) fn push_params_types<'a>(out: &mut Vec<&'a Type>, ps: &'a Vec<GenericParam>, with_bounds: bool)
    ensures
        view_refs(final(out)@) == view_refs(old(out)@) + params_types(ps@, with_bounds),
{
    let ghost start = view_refs(out@);
    let mut i: usize = 0;
    assert(view_refs(out@) =~= start + params_types(ps@.subrange(0, 0), with_bounds));
    while i < ps.len()
        invariant
            i <= ps@.len(),
            view_refs(out@) == start + params_types(ps@.subrange(0, i as int), with_bounds),
        decreases ps@.len() - i,
    {
        let ghost cur = ps@.subrange(0, i + 1);
        assert(cur.drop_last() =~= ps@.subrange(0, i as int));
        assert(cur.last() == ps@[i as int]);
        match &ps[i] {
            GenericParam::Type(_, bounds) => {
                if with_bounds {
                    push_bounds_types(out, bounds);
                }
            },
            GenericParam::Const(_, t) => push_type(out, t),
            GenericParam::Lifetime(_) => {},
        }
        assert(view_refs(out@) =~= start + params_types(cur, with_bounds));
        i += 1;
    }
    assert(ps@.subrange(0, i as int) =~= ps@);
}

pub(crate) fn push_inputs_types<'a>(out: &mut Vec<&'a Type>, inputs: &'a Vec<FnArg>)
    ensures
        view_refs(final(out)@) == view_refs(old(out)@) + inputs_types(inputs@),
{
    let ghost start = view_refs(out@);
    let mut i: usize = 0;
    assert(view_refs(out@) =~= start + inputs_types(inputs@.subrange(0, 0)));
    while i < inputs.len()
        invariant
            i <= inputs@.len(),
            view_refs(out@) == start + inputs_types(inputs@.subrange(0, i as int)),
        decreases inputs@.len() - i,
    {
        let ghost cur = inputs@.subrange(0, i + 1);
        assert(cur.drop_last() =~= inputs@.subrange(0, i as int));
        assert(cur.last() == inputs@[i as int]);
        match &inputs[i] {
            FnArg::Typed(_, t) => push_type(out, t),
            FnArg::Receiver(_) => {},
        }
        assert(view_refs(out@) =~= start + inputs_types(cur));
        i += 1;
    }
    assert(inputs@.subrange(0, i as int) =~= inputs@);
}

// ---------------------------------------------------------------------------
// The nodes.

/// A method of a domain trait: a call across domains.
pub struct DomainRpc<'ast> {
    pub raw: &'ast TraitItemMethod,
    /// The types the method mentions (see [`rpc_types`]).
    pub raw_types: Vec<&'ast Type>,
    /// The lowered forms of those types; filled in by later passes.
    pub lowered_types: Vec<LoweredType<'ast>>,
}

/// A type in the form the code generator handles it.
pub enum LoweredType<'ast> {
    RRefLike(&'ast Type),
    RefImmutRRefLike(&'ast Type),
    Bitwise(&'ast Type),
    DomainTraitRef(&'ast Type),
}

pub struct DomainTrait<'ast> {
    pub name: String,
    pub raw: &'ast ItemTrait,
    pub methods: Vec<DomainRpc<'ast>>,
}

pub struct StructDef<'ast> {
    pub name: String,
    pub raw: &'ast ItemStruct,
    /// The types the struct mentions (see [`struct_types`]).
    pub raw_types: Vec<&'ast Type>,
    /// The names of its type parameters.
    pub generic_names: Vec<String>,
}

pub enum ModItem<'ast> {
    DomainTrait(Box<DomainTrait<'ast>>),
    StructDef(Box<StructDef<'ast>>),
}

pub struct Module<'ast> {
    pub name: String,
    pub submodules: Vec<Module<'ast>>,
    pub items: Vec<ModItem<'ast>>,
}

/// `rpc` is the node made for the method `m`.
pub open spec fn rpc_made(rpc: DomainRpc, m: TraitItemMethod) -> bool {
    &&& *rpc.raw == m
    &&& view_refs(rpc.raw_types@) == rpc_types(m)
    &&& rpc.lowered_types@.len() == 0
}

/// The methods of a trait, in order.
pub open spec fn trait_methods(items: Seq<TraitItem>) -> Seq<TraitItemMethod>
    decreases items.len(),
{
    if items.len() == 0 {
        Seq::empty()
    } else {
        trait_methods(items.drop_last()) + match items.last() {
            TraitItem::Method(m) => seq![m],
            _ => Seq::empty(),
        }
    }
}

/// `d` is the node made for the trait `t`: one call per method.
pub open spec fn domain_trait_made(d: DomainTrait, t: ItemTrait) -> bool {
    &&& *d.raw == t
    &&& d.name@ == t.ident@
    &&& d.methods@.len() == trait_methods(t.items@).len()
    &&& forall|i: int| 0 <= i < d.methods@.len() ==> rpc_made(#[trigger] d.methods@[i], trait_methods(t.items@)[i])
}

/// `d` is the node made for the struct `s`.
pub open spec fn struct_def_made(d: StructDef, s: ItemStruct) -> bool {
    &&& *d.raw == s
    &&& d.name@ == s.ident@
    &&& view_refs(d.raw_types@) == struct_types(s)
    &&& strs(d.generic_names@) == type_param_names(s.generics.params@)
}

/// A trait or struct a walk of a module meets.
pub enum Found {
    Trait(ItemTrait),
    Struct(ItemStruct),
}

/// The traits and structs among `items`, in nested modules too, in the
/// order a walk meets them.
pub open spec fn found_items(items: Seq<Item>) -> Seq<Found>
    decreases items, 0int,
{
    if items.len() == 0 {
        Seq::empty()
    } else {
        found_items(items.drop_last()) + found_in(items[items.len() - 1])
    }
}

pub open spec fn found_in(it: Item) -> Seq<Found>
    decreases it, 1int,
{
    match it {
        Item::Trait(t) => seq![Found::Trait(t)],
        Item::Struct(s) => seq![Found::Struct(s)],
        Item::Mod(m) => match m.content {
            Some(v) => found_items(v@),
            None => Seq::empty(),
        },
        _ => Seq::empty(),
    }
}

pub open spec fn item_made(n: ModItem, f: Found) -> bool {
    match (n, f) {
        (ModItem::DomainTrait(d), Found::Trait(t)) => domain_trait_made(*d, t),
        (ModItem::StructDef(d), Found::Struct(s)) => struct_def_made(*d, s),
        _ => false,
    }
}

pub open spec fn items_made(ns: Seq<ModItem>, fs: Seq<Found>) -> bool {
    &&& ns.len() == fs.len()
    &&& forall|i: int| 0 <= i < ns.len() ==> item_made(#[trigger] ns[i], fs[i])
}

fn collect_domain_rpc_types<'a>(m: &'a TraitItemMethod) -> (r: Vec<&'a Type>)
    ensures
        view_refs(r@) == rpc_types(*m),
{
    let mut out: Vec<&'a Type> = Vec::new();
    assert(view_refs(out@) =~= Seq::<SType>::empty());
    push_attrs_types(&mut out, &m.attrs);
    push_params_types(&mut out, &m.sig.generics.params, true);
    push_inputs_types(&mut out, &m.sig.inputs);
    push_return_type(&mut out, &m.sig.output);
    assert(view_refs(out@) =~= rpc_types(*m));
    out
}

fn collect_domain_rpcs<'a>(t: &'a ItemTrait) -> (r: Vec<DomainRpc<'a>>)
    ensures
        r@.len() == trait_methods(t.items@).len(),
        forall|i: int| 0 <= i < r@.len() ==> rpc_made(#[trigger] r@[i], trait_methods(t.items@)[i]),
{
    let mut out: Vec<DomainRpc<'a>> = Vec::new();
    let mut i: usize = 0;
    while i < t.items.len()
        invariant
            i <= t.items@.len(),
            out@.len() == trait_methods(t.items@.subrange(0, i as int)).len(),
            forall|j: int| 0 <= j < out@.len() ==> rpc_made(#[trigger] out@[j], trait_methods(t.items@.subrange(0, i as int))[j]),
        decreases t.items@.len() - i,
    {
        let ghost cur = t.items@.subrange(0, i + 1);
        assert(cur.drop_last() =~= t.items@.subrange(0, i as int));
        assert(cur.last() == t.items@[i as int]);
        let ghost prev = trait_methods(t.items@.subrange(0, i as int));
        match &t.items[i] {
            TraitItem::Method(m) => {
                let raw_types = collect_domain_rpc_types(m);
                out.push(DomainRpc { raw: m, raw_types, lowered_types: Vec::new() });
                assert(trait_methods(cur) == prev + seq![*m]);
                assert forall|j: int| 0 <= j < out@.len() implies rpc_made(#[trigger] out@[j], trait_methods(cur)[j]) by {
                    if j < prev.len() {
                        assert(trait_methods(cur)[j] == prev[j]);
                    }
                }
            },
            _ => {
                assert(trait_methods(cur) =~= prev);
            },
        }
        i += 1;
    }
    assert(t.items@.subrange(0, i as int) =~= t.items@);
    out
}

fn collect_struct_def<'a>(s: &'a ItemStruct) -> (r: (Vec<String>, Vec<&'a Type>))
    ensures
        strs(r.0@) == type_param_names(s.generics.params@),
        view_refs(r.1@) == struct_types(*s),
{
    let ps = &s.generics.params;
    let mut names: Vec<String> = Vec::new();
    let mut i: usize = 0;
    assert(strs(names@) =~= type_param_names(ps@.subrange(0, 0)));
    while i < ps.len()
        invariant
            i <= ps@.len(),
            strs(names@) == type_param_names(ps@.subrange(0, i as int)),
        decreases ps@.len() - i,
    {
        let ghost cur = ps@.subrange(0, i + 1);
        assert(cur.drop_last() =~= ps@.subrange(0, i as int));
        assert(cur.last() == ps@[i as int]);
        let ghost before = strs(names@);
        match &ps[i] {
            GenericParam::Type(name, _) => {
                names.push(name.clone());
                assert(strs(names@) =~= before + seq![name@]);
            },
            _ => {
                assert(strs(names@) =~= before + Seq::<Seq<char>>::empty());
            },
        }
        i += 1;
    }
    assert(ps@.subrange(0, i as int) =~= ps@);
    let mut types: Vec<&'a Type> = Vec::new();
    assert(view_refs(types@) =~= Seq::<SType>::empty());
    push_attrs_types(&mut types, &s.attrs);
    push_params_types(&mut types, ps, false);
    let ghost start = view_refs(types@);
    let ghost fv = Seq::new(s.fields@.len(), |k: int| s.fields@[k].ty@);
    let mut k: usize = 0;
    assert(view_refs(types@) =~= start + fv.subrange(0, 0));
    while k < s.fields.len()
        invariant
            k <= s.fields@.len(),
            fv == Seq::new(s.fields@.len(), |j: int| s.fields@[j].ty@),
            view_refs(types@) == start + fv.subrange(0, k as int),
        decreases s.fields@.len() - k,
    {
        push_type(&mut types, &s.fields[k].ty);
        assert(view_refs(types@) =~= start + fv.subrange(0, k + 1));
        k += 1;
    }
    assert(fv.subrange(0, k as int) =~= fv);
    assert(view_refs(types@) =~= struct_types(*s));
    (names, types)
}

fn collect_item<'a>(it: &'a Item, out: &mut Vec<ModItem<'a>>)
    ensures
        old(out)@.len() <= final(out)@.len(),
        final(out)@.subrange(0, old(out)@.len() as int) == old(out)@,
        items_made(final(out)@.subrange(old(out)@.len() as int, final(out)@.len() as int), found_in(*it)),
    decreases *it, 1int,
{
    let ghost n0 = out@.len();
    match it {
        Item::Trait(t) => {
            let methods = collect_domain_rpcs(t);
            out.push(ModItem::DomainTrait(Box::new(DomainTrait { name: t.ident.clone(), raw: t, methods })));
            assert(out@.subrange(n0 as int, out@.len() as int) =~= seq![out@[n0 as int]]);
        },
        Item::Struct(s) => {
            let (generic_names, raw_types) = collect_struct_def(s);
            out.push(ModItem::StructDef(Box::new(StructDef { name: s.ident.clone(), raw: s, raw_types, generic_names })));
            assert(out@.subrange(n0 as int, out@.len() as int) =~= seq![out@[n0 as int]]);
        },
        Item::Mod(m) => match &m.content {
            Some(v) => collect_items(v, out),
            None => {
                assert(out@.subrange(n0 as int, out@.len() as int) =~= Seq::<ModItem>::empty());
            },
        },
        _ => {
            assert(out@.subrange(n0 as int, out@.len() as int) =~= Seq::<ModItem>::empty());
        },
    }
    assert(out@.subrange(0, n0 as int) == old(out)@);
}

fn collect_items<'a>(items: &'a Vec<Item>, out: &mut Vec<ModItem<'a>>)
    ensures
        old(out)@.len() <= final(out)@.len(),
        final(out)@.subrange(0, old(out)@.len() as int) == old(out)@,
        items_made(final(out)@.subrange(old(out)@.len() as int, final(out)@.len() as int), found_items(items@)),
    decreases items@, 0int,
{
    let ghost n0 = out@.len();
    let ghost o0 = out@;
    let mut i: usize = 0;
    assert(out@.subrange(0, n0 as int) =~= o0);
    assert(items_made(out@.subrange(n0 as int, out@.len() as int), found_items(items@.subrange(0, 0))));
    while i < items.len()
        invariant
            i <= items@.len(),
            n0 == o0.len(),
            n0 <= out@.len(),
            out@.subrange(0, n0 as int) == o0,
            items_made(out@.subrange(n0 as int, out@.len() as int), found_items(items@.subrange(0, i as int))),
        decreases items@.len() - i,
    {
        let ghost cur = items@.subrange(0, i + 1);
        assert(cur.drop_last() =~= items@.subrange(0, i as int));
        assert(cur[cur.len() - 1] == items@[i as int]);
        let ghost before = out@;
        let ghost fa = found_items(items@.subrange(0, i as int));
        let ghost fb = found_in(items@[i as int]);
        assert(decreases_to!(items@ => items@[i as int]));
        collect_item(&items[i], out);
        proof {
            assert forall|k: int| 0 <= k < before.len() implies out@[k] == before[k] by {
                assert(out@.subrange(0, before.len() as int)[k] == out@[k]);
            }
            let a = out@.subrange(n0 as int, before.len() as int);
            let b = out@.subrange(before.len() as int, out@.len() as int);
            assert(a =~= before.subrange(n0 as int, before.len() as int));
            assert(out@.subrange(n0 as int, out@.len() as int) =~= a + b);
            assert(found_items(cur) == fa + fb);
            assert forall|j: int| 0 <= j < (a + b).len() implies item_made(#[trigger] (a + b)[j], (fa + fb)[j]) by {
                if j < a.len() {
                    assert((a + b)[j] == a[j]);
                    assert((fa + fb)[j] == fa[j]);
                } else {
                    assert((a + b)[j] == b[j - a.len()]);
                    assert((fa + fb)[j] == fb[j - fa.len()]);
                }
            }
            assert(out@.subrange(0, n0 as int) =~= before.subrange(0, n0 as int));
        }
        i += 1;
    }
    assert(items@.subrange(0, i as int) =~= items@);
}

/// The module `name` made from the file `ast`: its traits and structs, in
/// nested modules too, in the order a walk meets them; no submodules yet.
pub fn produce_module<'a>(name: &str, ast: &'a File) -> (r: Module<'a>)
    ensures
        r.name@ == name@,
        r.submodules@.len() == 0,
        items_made(r.items@, found_items(ast.items@)),
{
    let mut items: Vec<ModItem<'a>> = Vec::new();
    collect_items(&ast.items, &mut items);
    assert(items@.subrange(0, items@.len() as int) =~= items@);
    Module { name: String::from_str(name), submodules: Vec::new(), items }
}

} // verus!
