//! The pass that rejects bare function, pointer and reference types in an
//! IDL file, with the diagnostics it reports in the order a walk of the file
//! meets the offending types.

use vstd::prelude::*;
use crate::red_idl::{
    RejectPass, arguments_legal, bounds_legal, gargs_legal, path_legal, segments_legal, type_legal, types_legal,
};
use crate::ast::{File, ForeignItem, Generics, ImplItem, Item, Signature, TraitItem};
use crate::ir::{
    attrs_types, bounds_types, inputs_types, params_types, push_attrs_types, push_bounds_types, push_inputs_types,
    push_params_types, push_return_type, push_type, return_types, view_refs,
};
use crate::text::{owned, strs};
use crate::ty::{
    GenericArgument, Path, PathArguments, ReturnType, SGenericArgument, SPath, SPathArguments, SPathSegment,
    SReturnType, SType, STypeParamBound, Type, TypeParamBound, view_bounds, view_generic_arguments, view_types,
};

verus! {

pub open spec fn bare_fn_text() -> Seq<char> {
    "IDL does not allow bare function types"@
}

pub open spec fn pointer_text() -> Seq<char> {
    "IDL does not allow pointer types"@
}

pub open spec fn reference_text() -> Seq<char> {
    "IDL does not allow ref types"@
}

/// The diagnostics for `t`, outermost first: one for each bare function,
/// pointer and reference type in it.
pub open spec fn type_msgs(t: SType) -> Seq<Seq<char>>
    decreases t,
{
    match t {
        SType::BareFn(_) => seq![bare_fn_text()],
        SType::Ptr(_, e) => seq![pointer_text()] + type_msgs(*e),
        SType::Reference(_, e) => seq![reference_text()] + type_msgs(*e),
        SType::Array(e, _) => type_msgs(*e),
        SType::Group(e) => type_msgs(*e),
        SType::Paren(e) => type_msgs(*e),
        SType::Slice(e) => type_msgs(*e),
        SType::Path(p) => path_msgs(p),
        SType::TraitObject(bs) => bounds_msgs(bs),
        SType::Tuple(ts) => types_msgs(ts),
        _ => Seq::empty(),
    }
}

pub open spec fn types_msgs(ts: Seq<SType>) -> Seq<Seq<char>>
    decreases ts,
{
    if ts.len() == 0 {
        Seq::empty()
    } else {
        types_msgs(ts.subrange(0, ts.len() - 1)) + type_msgs(ts[ts.len() - 1])
    }
}

pub open spec fn bounds_msgs(bs: Seq<STypeParamBound>) -> Seq<Seq<char>>
    decreases bs,
{
    if bs.len() == 0 {
        Seq::empty()
    } else {
        bounds_msgs(bs.subrange(0, bs.len() - 1)) + match bs[bs.len() - 1] {
            STypeParamBound::Trait(p) => path_msgs(p),
            STypeParamBound::Lifetime(_) => Seq::empty(),
        }
    }
}

pub open spec fn path_msgs(p: SPath) -> Seq<Seq<char>>
    decreases p,
{
    segments_msgs(p.segments)
}

pub open spec fn segments_msgs(s: Seq<SPathSegment>) -> Seq<Seq<char>>
    decreases s,
{
    if s.len() == 0 {
        Seq::empty()
    } else {
        segments_msgs(s.subrange(0, s.len() - 1)) + arguments_msgs(s[s.len() - 1].arguments)
    }
}

pub open spec fn arguments_msgs(a: SPathArguments) -> Seq<Seq<char>>
    decreases a,
{
    match a {
        SPathArguments::Empty => Seq::empty(),
        SPathArguments::AngleBracketed(args) => gargs_msgs(args),
        SPathArguments::Parenthesized(ins, out) => types_msgs(ins) + match out {
            SReturnType::Default => Seq::empty(),
            SReturnType::Type(t) => type_msgs(*t),
        },
    }
}

pub open spec fn gargs_msgs(args: Seq<SGenericArgument>) -> Seq<Seq<char>>
    decreases args,
{
    if args.len() == 0 {
        Seq::empty()
    } else {
        gargs_msgs(args.subrange(0, args.len() - 1)) + match args[args.len() - 1] {
            SGenericArgument::Type(t) => type_msgs(t),
            SGenericArgument::Binding(_, t) => type_msgs(t),
            _ => Seq::empty(),
        }
    }
}

// ---------------------------------------------------------------------------
// A type is legal exactly when the walk reports nothing about it.

/// `_reject_types` and the diagnostics agree: a type is legal exactly when
/// no diagnostic is reported for it.
pub proof fn law_legal_iff_no_diagnostics(t: SType)
    ensures
        type_legal(t) <==> type_msgs(t).len() == 0,
    decreases t,
{
    match t {
        SType::Ptr(_, e) => {},
        SType::Reference(_, e) => {},
        SType::Array(e, _) => law_legal_iff_no_diagnostics(*e),
        SType::Group(e) => law_legal_iff_no_diagnostics(*e),
        SType::Paren(e) => law_legal_iff_no_diagnostics(*e),
        SType::Slice(e) => law_legal_iff_no_diagnostics(*e),
        SType::Path(p) => lemma_path(p),
        SType::TraitObject(bs) => lemma_bounds(bs),
        SType::Tuple(ts) => lemma_types(ts),
        _ => {},
    }
}

proof fn lemma_types(ts: Seq<SType>)
    ensures
        types_legal(ts) <==> types_msgs(ts).len() == 0,
    decreases ts,
{
    if ts.len() > 0 {
        lemma_types(ts.subrange(0, ts.len() - 1));
        law_legal_iff_no_diagnostics(ts[ts.len() - 1]);
    }
}

proof fn lemma_bounds(bs: Seq<STypeParamBound>)
    ensures
        bounds_legal(bs) <==> bounds_msgs(bs).len() == 0,
    decreases bs,
{
    if bs.len() > 0 {
        lemma_bounds(bs.subrange(0, bs.len() - 1));
        match bs[bs.len() - 1] {
            STypeParamBound::Trait(p) => lemma_path(p),
            STypeParamBound::Lifetime(_) => {},
        }
    }
}

proof fn lemma_path(p: SPath)
    ensures
        path_legal(p) <==> path_msgs(p).len() == 0,
    decreases p,
{
    lemma_segments(p.segments);
}

proof fn lemma_segments(s: Seq<SPathSegment>)
    ensures
        segments_legal(s) <==> segments_msgs(s).len() == 0,
    decreases s,
{
    if s.len() > 0 {
        lemma_segments(s.subrange(0, s.len() - 1));
        lemma_arguments(s[s.len() - 1].arguments);
    }
}

proof fn lemma_arguments(a: SPathArguments)
    ensures
        arguments_legal(a) <==> arguments_msgs(a).len() == 0,
    decreases a,
{
    match a {
        SPathArguments::Empty => {},
        SPathArguments::AngleBracketed(args) => lemma_gargs(args),
        SPathArguments::Parenthesized(ins, out) => {
            lemma_types(ins);
            match out {
                SReturnType::Default => {},
                SReturnType::Type(t) => law_legal_iff_no_diagnostics(*t),
            }
        },
    }
}

proof fn lemma_gargs(args: Seq<SGenericArgument>)
    ensures
        gargs_legal(args) <==> gargs_msgs(args).len() == 0,
    decreases args,
{
    if args.len() > 0 {
        lemma_gargs(args.subrange(0, args.len() - 1));
        match args[args.len() - 1] {
            SGenericArgument::Type(t) => law_legal_iff_no_diagnostics(t),
            SGenericArgument::Binding(_, t) => law_legal_iff_no_diagnostics(t),
            _ => {},
        }
    }
}

// ---------------------------------------------------------------------------
// Reporting.

fn report(out: &mut Vec<String>, text: &str)
    ensures
        strs(final(out)@) == strs(old(out)@) + seq![text@],
{
    let ghost before = strs(out@);
    out.push(owned(text));
    assert(strs(out@) =~= before + seq![text@]);
}

/// Appends the diagnostics for `t` (see [`type_msgs`]).
pub fn type_messages(out: &mut Vec<String>, t: &Type)
    ensures
        strs(final(out)@) == strs(old(out)@) + type_msgs(t@),
    decreases t, 1int,
{
    let ghost start = strs(out@);
    match t {
        Type::BareFn(_) => report(out, "IDL does not allow bare function types"),
        Type::Ptr(_, e) => {
            report(out, "IDL does not allow pointer types");
            type_messages(out, e);
            assert(strs(out@) =~= start + type_msgs(t@));
        },
        Type::Reference(_, e) => {
            report(out, "IDL does not allow ref types");
            type_messages(out, e);
            assert(strs(out@) =~= start + type_msgs(t@));
        },
        Type::Array(e, _) => type_messages(out, e),
        Type::Group(e) => type_messages(out, e),
        Type::Paren(e) => type_messages(out, e),
        Type::Slice(e) => type_messages(out, e),
        Type::Path(p) => path_messages(out, p),
        Type::TraitObject(bs) => bounds_messages(out, bs),
        Type::Tuple(ts) => types_messages(out, ts),
        _ => {
            assert(strs(out@) =~= start + type_msgs(t@));
        },
    }
}

fn types_messages(out: &mut Vec<String>, ts: &Vec<Type>)
    ensures
        strs(final(out)@) == strs(old(out)@) + types_msgs(view_types(ts@)),
    decreases ts, 0int,
{
    let ghost start = strs(out@);
    let ghost tv = view_types(ts@);
    let mut i: usize = 0;
    assert(strs(out@) =~= start + types_msgs(tv.subrange(0, 0)));
    while i < ts.len()
        invariant
            i <= ts@.len(),
            tv == view_types(ts@),
            strs(out@) == start + types_msgs(tv.subrange(0, i as int)),
        decreases ts@.len() - i,
    {
        let ghost cur = tv.subrange(0, i + 1);
        assert(cur.subrange(0, cur.len() - 1) =~= tv.subrange(0, i as int));
        assert(cur[cur.len() - 1] == ts@[i as int]@);
        assert(decreases_to!(ts => ts@));
        type_messages(out, &ts[i]);
        assert(strs(out@) =~= start + types_msgs(cur));
        i += 1;
    }
    assert(tv.subrange(0, i as int) =~= tv);
}

fn bounds_messages(out: &mut Vec<String>, bs: &Vec<TypeParamBound>)
    ensures
        strs(final(out)@) == strs(old(out)@) + bounds_msgs(view_bounds(bs@)),
    decreases bs, 0int,
{
    let ghost start = strs(out@);
    let ghost bv = view_bounds(bs@);
    let mut i: usize = 0;
    assert(strs(out@) =~= start + bounds_msgs(bv.subrange(0, 0)));
    while i < bs.len()
        invariant
            i <= bs@.len(),
            bv == view_bounds(bs@),
            strs(out@) == start + bounds_msgs(bv.subrange(0, i as int)),
        decreases bs@.len() - i,
    {
        let ghost cur = bv.subrange(0, i + 1);
        assert(cur.subrange(0, cur.len() - 1) =~= bv.subrange(0, i as int));
        assert(cur[cur.len() - 1] == bs@[i as int]@);
        assert(decreases_to!(bs => bs@));
        match &bs[i] {
            TypeParamBound::Trait(p) => path_messages(out, p),
            TypeParamBound::Lifetime(_) => {},
        }
        assert(strs(out@) =~= start + bounds_msgs(cur));
        i += 1;
    }
    assert(bv.subrange(0, i as int) =~= bv);
}

fn path_messages(out: &mut Vec<String>, p: &Path)
    ensures
        strs(final(out)@) == strs(old(out)@) + path_msgs(p@),
    decreases p, 0int,
{
    let ghost start = strs(out@);
    let ghost sv = p@.segments;
    let mut i: usize = 0;
    assert(strs(out@) =~= start + segments_msgs(sv.subrange(0, 0)));
    while i < p.segments.len()
        invariant
            i <= p.segments@.len(),
            sv == p@.segments,
            sv.len() == p.segments@.len(),
            strs(out@) == start + segments_msgs(sv.subrange(0, i as int)),
        decreases p.segments@.len() - i,
    {
        let ghost cur = sv.subrange(0, i + 1);
        assert(cur.subrange(0, cur.len() - 1) =~= sv.subrange(0, i as int));
        assert(cur[cur.len() - 1] == p.segments@[i as int]@);
        assert(decreases_to!(p => p.segments));
        assert(decreases_to!(p.segments => p.segments@));
        assert(decreases_to!(p.segments@ => p.segments@[i as int]));
        arguments_messages(out, &p.segments[i].arguments);
        assert(strs(out@) =~= start + segments_msgs(cur));
        i += 1;
    }
    assert(sv.subrange(0, i as int) =~= sv);
}

fn arguments_messages(out: &mut Vec<String>, a: &PathArguments)
    ensures
        strs(final(out)@) == strs(old(out)@) + arguments_msgs(a@),
    decreases a, 0int,
{
    let ghost start = strs(out@);
    match a {
        PathArguments::Empty => {
            assert(strs(out@) =~= start + arguments_msgs(a@));
        },
        PathArguments::AngleBracketed(args) => {
            let ghost av = view_generic_arguments(args@);
            let mut i: usize = 0;
            assert(strs(out@) =~= start + gargs_msgs(av.subrange(0, 0)));
            while i < args.len()
                invariant
                    i <= args@.len(),
                    av == view_generic_arguments(args@),
                    *a == PathArguments::AngleBracketed(*args),
                    strs(out@) == start + gargs_msgs(av.subrange(0, i as int)),
                decreases args@.len() - i,
            {
                let ghost cur = av.subrange(0, i + 1);
                assert(cur.subrange(0, cur.len() - 1) =~= av.subrange(0, i as int));
                assert(cur[cur.len() - 1] == args@[i as int]@);
                assert(decreases_to!(*a => a->AngleBracketed_0));
                match &args[i] {
                    GenericArgument::Type(t) => type_messages(out, t),
                    GenericArgument::Binding(_, t) => type_messages(out, t),
                    _ => {},
                }
                assert(strs(out@) =~= start + gargs_msgs(cur));
                i += 1;
            }
            assert(av.subrange(0, i as int) =~= av);
        },
        PathArguments::Parenthesized(ins, output) => {
            types_messages(out, ins);
            match output {
                ReturnType::Default => {},
                ReturnType::Type(t) => type_messages(out, t),
            }
            assert(strs(out@) =~= start + arguments_msgs(a@));
        },
    }
}

// ---------------------------------------------------------------------------
// The types a walk of a file starts from.

pub open spec fn sig_roots(sig: Signature) -> Seq<SType> {
    params_types(sig.generics.params@, true) + inputs_types(sig.inputs@) + return_types(sig.output@)
}

pub open spec fn generics_roots(g: Generics) -> Seq<SType> {
    params_types(g.params@, true)
}

pub open spec fn fields_roots(fields: Seq<crate::ast::Field>) -> Seq<SType> {
    Seq::new(fields.len(), |i: int| fields[i].ty@)
}

pub open spec fn trait_item_roots(it: TraitItem) -> Seq<SType> {
    match it {
        TraitItem::Const(_, t) => seq![t@],
        TraitItem::Method(m) => attrs_types(m.attrs@) + sig_roots(m.sig),
        TraitItem::Type(_, g) => generics_roots(g),
        _ => Seq::empty(),
    }
}

pub open spec fn trait_items_roots(its: Seq<TraitItem>) -> Seq<SType>
    decreases its.len(),
{
    if its.len() == 0 {
        Seq::empty()
    } else {
        trait_items_roots(its.drop_last()) + trait_item_roots(its.last())
    }
}

pub open spec fn impl_item_roots(it: ImplItem) -> Seq<SType> {
    match it {
        ImplItem::Method(sig) => sig_roots(sig),
        ImplItem::Type(_, g) => generics_roots(g),
        _ => Seq::empty(),
    }
}

pub open spec fn impl_items_roots(its: Seq<ImplItem>) -> Seq<SType>
    decreases its.len(),
{
    if its.len() == 0 {
        Seq::empty()
    } else {
        impl_items_roots(its.drop_last()) + impl_item_roots(its.last())
    }
}

pub open spec fn foreign_items_roots(its: Seq<ForeignItem>) -> Seq<SType>
    decreases its.len(),
{
    if its.len() == 0 {
        Seq::empty()
    } else {
        foreign_items_roots(its.drop_last()) + match its.last() {
            ForeignItem::Fn(sig) => sig_roots(sig),
            _ => Seq::empty(),
        }
    }
}

/// The outermost types a walk of an item meets, in order (for each part of
/// the item that the model holds).
pub open spec fn item_roots(it: Item) -> Seq<SType>
    decreases it, 1int,
{
    match it {
        Item::Struct(s) => attrs_types(s.attrs@) + generics_roots(s.generics) + fields_roots(s.fields@),
        Item::Trait(t) => attrs_types(t.attrs@) + generics_roots(t.generics)
            + bounds_types(view_bounds(t.supertraits@)) + trait_items_roots(t.items@),
        Item::Fn(attrs, _, sig) => attrs_types(attrs@) + sig_roots(sig),
        Item::Const(attrs, _, _, t) => attrs_types(attrs@) + seq![t@],
        Item::Static(_, _, t) => seq![t@],
        Item::Type(attrs, _, _, g, t) => attrs_types(attrs@) + generics_roots(g) + seq![t@],
        Item::Enum(attrs, _, _, g) => attrs_types(attrs@) + generics_roots(g),
        Item::Union(attrs, _, _, g, fields) => attrs_types(attrs@) + generics_roots(g) + fields_roots(fields@),
        Item::TraitAlias(_, _, g) => generics_roots(g),
        Item::Impl(g, its) => generics_roots(g) + impl_items_roots(its@),
        Item::ForeignMod(its) => foreign_items_roots(its@),
        Item::Mod(m) => attrs_types(m.attrs@) + match m.content {
            Some(v) => items_roots(v@),
            None => Seq::empty(),
        },
        Item::Use(u) => attrs_types(u.attrs@),
        Item::ExternCrate(attrs, _) => attrs_types(attrs@),
        _ => Seq::empty(),
    }
}

pub open spec fn items_roots(items: Seq<Item>) -> Seq<SType>
    decreases items, 0int,
{
    if items.len() == 0 {
        Seq::empty()
    } else {
        items_roots(items.drop_last()) + item_roots(items[items.len() - 1])
    }
}

/// The outermost types a walk of the file meets, in order.
pub open spec fn file_roots(f: File) -> Seq<SType> {
    attrs_types(f.attrs@) + items_roots(f.items@)
}

pub(crate) fn push_sig_roots<'a>(out: &mut Vec<&'a Type>, sig: &'a Signature)
    ensures
        view_refs(final(out)@) == view_refs(old(out)@) + sig_roots(*sig),
{
    let ghost start = view_refs(out@);
    push_params_types(out, &sig.generics.params, true);
    push_inputs_types(out, &sig.inputs);
    push_return_type(out, &sig.output);
    assert(view_refs(out@) =~= start + sig_roots(*sig));
}

pub(crate) fn push_fields_roots<'a>(out: &mut Vec<&'a Type>, fields: &'a Vec<crate::ast::Field>)
    ensures
        view_refs(final(out)@) == view_refs(old(out)@) + fields_roots(fields@),
{
    let ghost start = view_refs(out@);
    let ghost fv = fields_roots(fields@);
    let mut k: usize = 0;
    assert(view_refs(out@) =~= start + fv.subrange(0, 0));
    while k < fields.len()
        invariant
            k <= fields@.len(),
            fv == fields_roots(fields@),
            view_refs(out@) == start + fv.subrange(0, k as int),
        decreases fields@.len() - k,
    {
        push_type(out, &fields[k].ty);
        assert(view_refs(out@) =~= start + fv.subrange(0, k + 1));
        k += 1;
    }
    assert(fv.subrange(0, k as int) =~= fv);
}

fn push_trait_items_roots<'a>(out: &mut Vec<&'a Type>, its: &'a Vec<TraitItem>)
    ensures
        view_refs(final(out)@) == view_refs(old(out)@) + trait_items_roots(its@),
{
    let ghost start = view_refs(out@);
    let mut i: usize = 0;
    assert(view_refs(out@) =~= start + trait_items_roots(its@.subrange(0, 0)));
    while i < its.len()
        invariant
            i <= its@.len(),
            view_refs(out@) == start + trait_items_roots(its@.subrange(0, i as int)),
        decreases its@.len() - i,
    {
        let ghost cur = its@.subrange(0, i + 1);
        assert(cur.drop_last() =~= its@.subrange(0, i as int));
        assert(cur.last() == its@[i as int]);
        match &its[i] {
            TraitItem::Const(_, t) => push_type(out, t),
            TraitItem::Method(m) => {
                push_attrs_types(out, &m.attrs);
                push_sig_roots(out, &m.sig);
            },
            TraitItem::Type(_, g) => push_params_types(out, &g.params, true),
            _ => {},
        }
        assert(view_refs(out@) =~= start + trait_items_roots(cur));
        i += 1;
    }
    assert(its@.subrange(0, i as int) =~= its@);
}

fn push_impl_items_roots<'a>(out: &mut Vec<&'a Type>, its: &'a Vec<ImplItem>)
    ensures
        view_refs(final(out)@) == view_refs(old(out)@) + impl_items_roots(its@),
{
    let ghost start = view_refs(out@);
    let mut i: usize = 0;
    assert(view_refs(out@) =~= start + impl_items_roots(its@.subrange(0, 0)));
    while i < its.len()
        invariant
            i <= its@.len(),
            view_refs(out@) == start + impl_items_roots(its@.subrange(0, i as int)),
        decreases its@.len() - i,
    {
        let ghost cur = its@.subrange(0, i + 1);
        assert(cur.drop_last() =~= its@.subrange(0, i as int));
        assert(cur.last() == its@[i as int]);
        match &its[i] {
            ImplItem::Method(sig) => push_sig_roots(out, sig),
            ImplItem::Type(_, g) => push_params_types(out, &g.params, true),
            _ => {},
        }
        assert(view_refs(out@) =~= start + impl_items_roots(cur));
        i += 1;
    }
    assert(its@.subrange(0, i as int) =~= its@);
}

fn push_foreign_items_roots<'a>(out: &mut Vec<&'a Type>, its: &'a Vec<ForeignItem>)
    ensures
        view_refs(final(out)@) == view_refs(old(out)@) + foreign_items_roots(its@),
{
    let ghost start = view_refs(out@);
    let mut i: usize = 0;
    assert(view_refs(out@) =~= start + foreign_items_roots(its@.subrange(0, 0)));
    while i < its.len()
        invariant
            i <= its@.len(),
            view_refs(out@) == start + foreign_items_roots(its@.subrange(0, i as int)),
        decreases its@.len() - i,
    {
        let ghost cur = its@.subrange(0, i + 1);
        assert(cur.drop_last() =~= its@.subrange(0, i as int));
        assert(cur.last() == its@[i as int]);
        match &its[i] {
            ForeignItem::Fn(sig) => push_sig_roots(out, sig),
            _ => {},
        }
        assert(view_refs(out@) =~= start + foreign_items_roots(cur));
        i += 1;
    }
    assert(its@.subrange(0, i as int) =~= its@);
}

fn push_item_roots<'a>(out: &mut Vec<&'a Type>, it: &'a Item)
    ensures
        view_refs(final(out)@) == view_refs(old(out)@) + item_roots(*it),
    decreases *it, 1int,
{
    let ghost start = view_refs(out@);
    match it {
        Item::Struct(s) => {
            push_attrs_types(out, &s.attrs);
            push_params_types(out, &s.generics.params, true);
            push_fields_roots(out, &s.fields);
        },
        Item::Trait(t) => {
            push_attrs_types(out, &t.attrs);
            push_params_types(out, &t.generics.params, true);
            push_bounds_types(out, &t.supertraits);
            push_trait_items_roots(out, &t.items);
        },
        Item::Fn(attrs, _, sig) => {
            push_attrs_types(out, attrs);
            push_sig_roots(out, sig);
        },
        Item::Const(attrs, _, _, t) => {
            push_attrs_types(out, attrs);
            push_type(out, t);
        },
        Item::Static(_, _, t) => push_type(out, t),
        Item::Type(attrs, _, _, g, t) => {
            push_attrs_types(out, attrs);
            push_params_types(out, &g.params, true);
            push_type(out, t);
        },
        Item::Enum(attrs, _, _, g) => {
            push_attrs_types(out, attrs);
            push_params_types(out, &g.params, true);
        },
        Item::Union(attrs, _, _, g, fields) => {
            push_attrs_types(out, attrs);
            push_params_types(out, &g.params, true);
            push_fields_roots(out, fields);
        },
        Item::TraitAlias(_, _, g) => push_params_types(out, &g.params, true),
        Item::Impl(g, its) => {
            push_params_types(out, &g.params, true);
            push_impl_items_roots(out, its);
        },
        Item::ForeignMod(its) => push_foreign_items_roots(out, its),
        Item::Mod(m) => {
            push_attrs_types(out, &m.attrs);
            match &m.content {
                Some(v) => push_items_roots(out, v),
                None => {},
            }
        },
        Item::Use(u) => push_attrs_types(out, &u.attrs),
        Item::ExternCrate(attrs, _) => push_attrs_types(out, attrs),
        _ => {},
    }
    assert(view_refs(out@) =~= start + item_roots(*it));
}

fn push_items_roots<'a>(out: &mut Vec<&'a Type>, items: &'a Vec<Item>)
    ensures
        view_refs(final(out)@) == view_refs(old(out)@) + items_roots(items@),
    decreases items@, 0int,
{
    let ghost start = view_refs(out@);
    let mut i: usize = 0;
    assert(view_refs(out@) =~= start + items_roots(items@.subrange(0, 0)));
    while i < items.len()
        invariant
            i <= items@.len(),
            view_refs(out@) == start + items_roots(items@.subrange(0, i as int)),
        decreases items@.len() - i,
    {
        let ghost cur = items@.subrange(0, i + 1);
        assert(cur.drop_last() =~= items@.subrange(0, i as int));
        assert(cur[cur.len() - 1] == items@[i as int]);
        assert(decreases_to!(items@ => items@[i as int]));
        push_item_roots(out, &items[i]);
        assert(view_refs(out@) =~= start + items_roots(cur));
        i += 1;
    }
    assert(items@.subrange(0, i as int) =~= items@);
}

/// The diagnostics for a file: those for each outermost type a walk of the
/// file meets, in order.
pub open spec fn file_msgs(f: File) -> Seq<Seq<char>> {
    types_msgs(file_roots(f))
}

/// Runs the pass over `file`: its diagnostics (see [`file_msgs`]), and
/// whether the file is legal, which it is exactly when there are none.
pub fn reject_file(file: &File) -> (r: (bool, Vec<String>))
    ensures
        strs(r.1@) == file_msgs(*file),
        r.0 == (file_msgs(*file).len() == 0),
{
    let mut roots: Vec<&Type> = Vec::new();
    assert(view_refs(roots@) =~= Seq::<SType>::empty());
    push_attrs_types(&mut roots, &file.attrs);
    push_items_roots(&mut roots, &file.items);
    let ghost rv = view_refs(roots@);
    assert(rv =~= file_roots(*file));
    let mut out: Vec<String> = Vec::new();
    let mut i: usize = 0;
    assert(strs(out@) =~= types_msgs(rv.subrange(0, 0)));
    while i < roots.len()
        invariant
            i <= roots@.len(),
            rv == view_refs(roots@),
            strs(out@) == types_msgs(rv.subrange(0, i as int)),
        decreases roots@.len() - i,
    {
        let ghost cur = rv.subrange(0, i + 1);
        assert(cur.subrange(0, cur.len() - 1) =~= rv.subrange(0, i as int));
        assert(cur[cur.len() - 1] == roots@[i as int]@);
        type_messages(&mut out, roots[i]);
        i += 1;
    }
    assert(rv.subrange(0, i as int) =~= rv);
    let legal = out.len() == 0;
    (legal, out)
}

impl RejectPass {
    /// Walks `file` (see [`file_msgs`]): returns the diagnostics, and the
    /// pass stays legal only if there are none.
    pub fn visit_file(&mut self, file: &File) -> (r: Vec<String>)
        ensures
            strs(r@) == file_msgs(*file),
            final(self).is_legal == (old(self).is_legal && file_msgs(*file).len() == 0),
    {
        let (legal, msgs) = reject_file(file);
        if !legal {
            self.is_legal = false;
        }
        msgs
    }
}

} // verus!
