//! The sanity check of an IDL module: no item, associated type or type
//! parameter may take one of the names the generated code reserves, and no
//! trait may declare super traits.

use vstd::prelude::*;
use crate::ast::{File, ForeignItem, GenericParam, Generics, ImplItem, Item, TraitItem};
use crate::text::{eq_lit, owned, starts_with, strs};

verus! {

/// The names the generated code keeps for itself: every identifier that
/// starts with `RRef` (`RRef`, `RRefArray`, `RRefDequeue` among them), and
/// `Option`.
pub open spec fn is_reserved_name(name: Seq<char>) -> bool {
    "RRef"@.is_prefix_of(name) || name == "Option"@
}

/// The complaint about `name`, when it is reserved.
pub open spec fn complaint(what: Seq<char>, name: Seq<char>) -> Seq<Seq<char>> {
    if is_reserved_name(name) {
        seq![what + name]
    } else {
        Seq::empty()
    }
}

pub open spec fn param_msgs(p: GenericParam) -> Seq<Seq<char>> {
    match p {
        GenericParam::Type(name, _) => complaint("Cannot type parameter as "@, name@),
        _ => Seq::empty(),
    }
}

pub open spec fn params_msgs(ps: Seq<GenericParam>) -> Seq<Seq<char>>
    decreases ps.len(),
{
    if ps.len() == 0 {
        Seq::empty()
    } else {
        params_msgs(ps.drop_last()) + param_msgs(ps.last())
    }
}

pub open spec fn generics_msgs(g: Generics) -> Seq<Seq<char>> {
    params_msgs(g.params@)
}

pub open spec fn trait_item_msgs(it: TraitItem) -> Seq<Seq<char>> {
    match it {
        TraitItem::Method(m) => generics_msgs(m.sig.generics),
        TraitItem::Type(name, g) =>
            complaint("Cannot define trait-associated type as "@, name@) + generics_msgs(g),
        _ => Seq::empty(),
    }
}

pub open spec fn trait_items_msgs(its: Seq<TraitItem>) -> Seq<Seq<char>>
    decreases its.len(),
{
    if its.len() == 0 {
        Seq::empty()
    } else {
        trait_items_msgs(its.drop_last()) + trait_item_msgs(its.last())
    }
}

pub open spec fn impl_item_msgs(it: ImplItem) -> Seq<Seq<char>> {
    match it {
        ImplItem::Method(sig) => generics_msgs(sig.generics),
        ImplItem::Type(name, g) =>
            complaint("Cannot define impl-associated type as "@, name@) + generics_msgs(g),
        _ => Seq::empty(),
    }
}

pub open spec fn impl_items_msgs(its: Seq<ImplItem>) -> Seq<Seq<char>>
    decreases its.len(),
{
    if its.len() == 0 {
        Seq::empty()
    } else {
        impl_items_msgs(its.drop_last()) + impl_item_msgs(its.last())
    }
}

pub open spec fn foreign_item_msgs(it: ForeignItem) -> Seq<Seq<char>> {
    match it {
        ForeignItem::Fn(sig) => generics_msgs(sig.generics),
        ForeignItem::Type(name) => complaint("Cannot define foreign type as "@, name@),
        _ => Seq::empty(),
    }
}

pub open spec fn foreign_items_msgs(its: Seq<ForeignItem>) -> Seq<Seq<char>>
    decreases its.len(),
{
    if its.len() == 0 {
        Seq::empty()
    } else {
        foreign_items_msgs(its.drop_last()) + foreign_item_msgs(its.last())
    }
}

/// The complaint about a trait named `name` that declares super traits:
/// an interface trait may not extend another trait.
pub open spec fn supertraits_complaint(name: Seq<char>, n_supertraits: nat) -> Seq<Seq<char>> {
    if n_supertraits > 0 {
        seq!["Cannot define super traits for trait "@ + name]
    } else {
        Seq::empty()
    }
}

/// The complaints about one item, in the order a walk of it meets them:
/// the item's own name first, then its type parameters, then what it holds.
pub open spec fn item_msgs(it: Item) -> Seq<Seq<char>>
    decreases it, 1int,
{
    match it {
        Item::Struct(s) => complaint("Cannot define struct as "@, s.ident@) + generics_msgs(s.generics),
        Item::Trait(t) =>
            complaint("Cannot define trait as "@, t.ident@)
                + supertraits_complaint(t.ident@, t.supertraits@.len())
                + generics_msgs(t.generics) + trait_items_msgs(t.items@),
        Item::Type(_, _, name, g, _) => complaint("Cannot define type alias as "@, name@) + generics_msgs(g),
        Item::Impl(g, its) => generics_msgs(g) + impl_items_msgs(its@),
        Item::ForeignMod(its) => foreign_items_msgs(its@),
        Item::Fn(_, _, sig) => generics_msgs(sig.generics),
        Item::Enum(_, _, _, g) => generics_msgs(g),
        Item::Union(_, _, _, g, _) => generics_msgs(g),
        Item::TraitAlias(_, _, g) => generics_msgs(g),
        Item::Mod(m) => match m.content {
            Some(v) => items_msgs(v@),
            None => Seq::empty(),
        },
        _ => Seq::empty(),
    }
}

/// The complaints about a sequence of items, in order.
pub open spec fn items_msgs(items: Seq<Item>) -> Seq<Seq<char>>
    decreases items, 0int,
{
    if items.len() == 0 {
        Seq::empty()
    } else {
        items_msgs(items.drop_last()) + item_msgs(items[items.len() - 1])
    }
}

/// Whether `name` is one of the reserved names.
pub fn is_reserved(name: &String) -> (r: bool)
    ensures
        r == is_reserved_name(name@),
{
    starts_with(name, "RRef") || eq_lit(name, "Option")
}

fn complain(out: &mut Vec<String>, what: &str, name: &String)
    ensures
        strs(final(out)@) == strs(old(out)@) + complaint(what@, name@),
{
    let ghost before = strs(out@);
    if is_reserved(name) {
        let mut m = owned(what);
        m.append(name.as_str());
        out.push(m);
        assert(strs(out@) =~= before + complaint(what@, name@));
    } else {
        assert(strs(out@) =~= before + complaint(what@, name@));
    }
}

fn generics_messages(out: &mut Vec<String>, g: &Generics)
    ensures
        strs(final(out)@) == strs(old(out)@) + generics_msgs(*g),
{
    let ghost start = strs(out@);
    let ps = &g.params;
    let mut i: usize = 0;
    assert(ps@.subrange(0, 0) =~= Seq::<GenericParam>::empty());
    assert(strs(out@) =~= start + params_msgs(ps@.subrange(0, 0)));
    while i < ps.len()
        invariant
            i <= ps@.len(),
            strs(out@) == start + params_msgs(ps@.subrange(0, i as int)),
        decreases ps@.len() - i,
    {
        let ghost cur = ps@.subrange(0, i + 1);
        assert(cur.drop_last() =~= ps@.subrange(0, i as int));
        assert(cur.last() == ps@[i as int]);
        match &ps[i] {
            GenericParam::Type(name, _) => complain(out, "Cannot type parameter as ", name),
            _ => {},
        }
        assert(strs(out@) =~= start + params_msgs(cur));
        i += 1;
    }
    assert(ps@.subrange(0, i as int) =~= ps@);
}

fn trait_item_messages(out: &mut Vec<String>, it: &TraitItem)
    ensures
        strs(final(out)@) == strs(old(out)@) + trait_item_msgs(*it),
{
    let ghost start = strs(out@);
    match it {
        TraitItem::Method(m) => generics_messages(out, &m.sig.generics),
        TraitItem::Type(name, g) => {
            complain(out, "Cannot define trait-associated type as ", name);
            generics_messages(out, g);
            assert(strs(out@) =~= start + trait_item_msgs(*it));
        },
        _ => {
            assert(strs(out@) =~= start + trait_item_msgs(*it));
        },
    }
}

fn impl_item_messages(out: &mut Vec<String>, it: &ImplItem)
    ensures
        strs(final(out)@) == strs(old(out)@) + impl_item_msgs(*it),
{
    let ghost start = strs(out@);
    match it {
        ImplItem::Method(sig) => generics_messages(out, &sig.generics),
        ImplItem::Type(name, g) => {
            complain(out, "Cannot define impl-associated type as ", name);
            generics_messages(out, g);
            assert(strs(out@) =~= start + impl_item_msgs(*it));
        },
        _ => {
            assert(strs(out@) =~= start + impl_item_msgs(*it));
        },
    }
}

fn foreign_item_messages(out: &mut Vec<String>, it: &ForeignItem)
    ensures
        strs(final(out)@) == strs(old(out)@) + foreign_item_msgs(*it),
{
    let ghost start = strs(out@);
    match it {
        ForeignItem::Fn(sig) => generics_messages(out, &sig.generics),
        ForeignItem::Type(name) => complain(out, "Cannot define foreign type as ", name),
        _ => {
            assert(strs(out@) =~= start + foreign_item_msgs(*it));
        },
    }
}

fn trait_items_messages(out: &mut Vec<String>, its: &Vec<TraitItem>)
    ensures
        strs(final(out)@) == strs(old(out)@) + trait_items_msgs(its@),
{
    let ghost start = strs(out@);
    let mut i: usize = 0;
    assert(its@.subrange(0, 0) =~= Seq::<TraitItem>::empty());
    assert(strs(out@) =~= start + trait_items_msgs(its@.subrange(0, 0)));
    while i < its.len()
        invariant
            i <= its@.len(),
            strs(out@) == start + trait_items_msgs(its@.subrange(0, i as int)),
        decreases its@.len() - i,
    {
        let ghost cur = its@.subrange(0, i + 1);
        assert(cur.drop_last() =~= its@.subrange(0, i as int));
        assert(cur.last() == its@[i as int]);
        trait_item_messages(out, &its[i]);
        assert(strs(out@) =~= start + trait_items_msgs(cur));
        i += 1;
    }
    assert(its@.subrange(0, i as int) =~= its@);
}

fn impl_items_messages(out: &mut Vec<String>, its: &Vec<ImplItem>)
    ensures
        strs(final(out)@) == strs(old(out)@) + impl_items_msgs(its@),
{
    let ghost start = strs(out@);
    let mut i: usize = 0;
    assert(its@.subrange(0, 0) =~= Seq::<ImplItem>::empty());
    assert(strs(out@) =~= start + impl_items_msgs(its@.subrange(0, 0)));
    while i < its.len()
        invariant
            i <= its@.len(),
            strs(out@) == start + impl_items_msgs(its@.subrange(0, i as int)),
        decreases its@.len() - i,
    {
        let ghost cur = its@.subrange(0, i + 1);
        assert(cur.drop_last() =~= its@.subrange(0, i as int));
        assert(cur.last() == its@[i as int]);
        impl_item_messages(out, &its[i]);
        assert(strs(out@) =~= start + impl_items_msgs(cur));
        i += 1;
    }
    assert(its@.subrange(0, i as int) =~= its@);
}

fn foreign_items_messages(out: &mut Vec<String>, its: &Vec<ForeignItem>)
    ensures
        strs(final(out)@) == strs(old(out)@) + foreign_items_msgs(its@),
{
    let ghost start = strs(out@);
    let mut i: usize = 0;
    assert(its@.subrange(0, 0) =~= Seq::<ForeignItem>::empty());
    assert(strs(out@) =~= start + foreign_items_msgs(its@.subrange(0, 0)));
    while i < its.len()
        invariant
            i <= its@.len(),
            strs(out@) == start + foreign_items_msgs(its@.subrange(0, i as int)),
        decreases its@.len() - i,
    {
        let ghost cur = its@.subrange(0, i + 1);
        assert(cur.drop_last() =~= its@.subrange(0, i as int));
        assert(cur.last() == its@[i as int]);
        foreign_item_messages(out, &its[i]);
        assert(strs(out@) =~= start + foreign_items_msgs(cur));
        i += 1;
    }
    assert(its@.subrange(0, i as int) =~= its@);
}

fn item_messages(out: &mut Vec<String>, it: &Item)
    ensures
        strs(final(out)@) == strs(old(out)@) + item_msgs(*it),
    decreases *it, 1int,
{
    let ghost start = strs(out@);
    match it {
        Item::Struct(s) => {
            complain(out, "Cannot define struct as ", &s.ident);
            generics_messages(out, &s.generics);
        },
        Item::Trait(t) => {
            complain(out, "Cannot define trait as ", &t.ident);
            let ghost mid = strs(out@);
            if t.supertraits.len() > 0 {
                let mut m = owned("Cannot define super traits for trait ");
                m.append(t.ident.as_str());
                out.push(m);
            }
            assert(strs(out@) =~= mid + supertraits_complaint(t.ident@, t.supertraits@.len()));
            generics_messages(out, &t.generics);
            trait_items_messages(out, &t.items);
        },
        Item::Type(_, _, name, g, _) => {
            complain(out, "Cannot define type alias as ", name);
            generics_messages(out, g);
        },
        Item::Impl(g, its) => {
            generics_messages(out, g);
            impl_items_messages(out, its);
        },
        Item::ForeignMod(its) => foreign_items_messages(out, its),
        Item::Fn(_, _, sig) => generics_messages(out, &sig.generics),
        Item::Enum(_, _, _, g) => generics_messages(out, g),
        Item::Union(_, _, _, g, _) => generics_messages(out, g),
        Item::TraitAlias(_, _, g) => generics_messages(out, g),
        Item::Mod(m) => match &m.content {
            Some(v) => items_messages(out, v),
            None => {},
        },
        _ => {},
    }
    assert(strs(out@) =~= start + item_msgs(*it));
}

fn items_messages(out: &mut Vec<String>, items: &Vec<Item>)
    ensures
        strs(final(out)@) == strs(old(out)@) + items_msgs(items@),
    decreases items@, 0int,
{
    let ghost start = strs(out@);
    let mut i: usize = 0;
    assert(items@.subrange(0, 0) =~= Seq::<Item>::empty());
    assert(strs(out@) =~= start + items_msgs(items@.subrange(0, 0)));
    while i < items.len()
        invariant
            i <= items@.len(),
            strs(out@) == start + items_msgs(items@.subrange(0, i as int)),
        decreases items@.len() - i,
    {
        let ghost cur = items@.subrange(0, i + 1);
        assert(cur.drop_last() =~= items@.subrange(0, i as int));
        assert(cur[cur.len() - 1] == items@[i as int]);
        item_messages(out, &items[i]);
        assert(strs(out@) =~= start + items_msgs(cur));
        i += 1;
    }
    assert(items@.subrange(0, i as int) =~= items@);
}

/// What the sanity check of `ast` complains of, in the order a walk of the
/// module meets the offending names.
pub fn sanity_messages(ast: &File) -> (r: Vec<String>)
    ensures
        strs(r@) == items_msgs(ast.items@),
{
    let mut out: Vec<String> = Vec::new();
    assert(strs(out@) =~= Seq::<Seq<char>>::empty());
    items_messages(&mut out, &ast.items);
    assert(strs(out@) =~= items_msgs(ast.items@));
    out
}

/// Whether `ast` defines nothing under a reserved name.
pub fn sanity_check_module(ast: &File) -> (r: bool)
    ensures
        r == (items_msgs(ast.items@).len() == 0),
{
    let msgs = sanity_messages(ast);
    msgs.len() == 0
}

proof fn lemma_items_msgs_cover(items: Seq<Item>, i: int)
    requires
        0 <= i < items.len(),
    ensures
        items_msgs(items).len() >= item_msgs(items[i]).len(),
    decreases items.len(),
{
    if i < items.len() - 1 {
        lemma_items_msgs_cover(items.drop_last(), i);
        assert(items.drop_last()[i] == items[i]);
    }
}

/// A module that defines a struct or a trait whose name starts with `RRef`,
/// or is `Option`, or a trait with super traits, fails the sanity check.
pub proof fn law_reserved_names_fail_sanity(items: Seq<Item>, i: int)
    requires
        0 <= i < items.len(),
        (items[i] matches Item::Struct(s) && is_reserved_name(s.ident@))
            || (items[i] matches Item::Trait(t) && is_reserved_name(t.ident@))
            || (items[i] matches Item::Trait(t) && t.supertraits@.len() > 0),
    ensures
        items_msgs(items).len() > 0,
{
    lemma_items_msgs_cover(items, i);
}

} // verus!
