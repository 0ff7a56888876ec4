//! Preparing IDL files for the verifier crate: the marker attributes the IDL
//! uses are pruned, and the expanded sources are held to the rules on
//! reserved names and forbidden items.

use vstd::prelude::*;
use crate::ast::{Attribute, File, ImplItem, Item, TraitItem};
use crate::attrs::{path_is, path_is_ident};
use crate::sanity::{is_reserved, is_reserved_name};
use crate::text::eq_lit;

verus! {

// ---------------------------------------------------------------------------
// Pruning the marker attributes.

/// `attrs` without those whose path is the plain identifier `name`.
pub open spec fn without_named(attrs: Seq<Attribute>, name: Seq<char>) -> Seq<Attribute>
    decreases attrs.len(),
{
    if attrs.len() == 0 {
        Seq::empty()
    } else if path_is_ident(attrs.last().path@, name) {
        without_named(attrs.drop_last(), name)
    } else {
        without_named(attrs.drop_last(), name).push(attrs.last())
    }
}

/// No attribute named `name` is left once the attributes named `name` are
/// pruned, and pruning a second time changes nothing.
pub proof fn law_pruned_attributes_are_gone(attrs: Seq<Attribute>, name: Seq<char>)
    ensures
        forall|i: int| 0 <= i < without_named(attrs, name).len()
            ==> !path_is_ident(#[trigger] without_named(attrs, name)[i].path@, name),
        without_named(without_named(attrs, name), name) == without_named(attrs, name),
    decreases attrs.len(),
{
    if attrs.len() > 0 {
        law_pruned_attributes_are_gone(attrs.drop_last(), name);
        let rest = without_named(attrs.drop_last(), name);
        if !path_is_ident(attrs.last().path@, name) {
            let r = rest.push(attrs.last());
            assert(r.drop_last() =~= rest);
            assert(forall|i: int| 0 <= i < rest.len() ==> r[i] == rest[i]);
        }
    }
}

/// `new` is `old` with `interface` pruned from traits and `shared` from
/// structs, in nested modules too; everything else is left as it is.
pub open spec fn item_pruned(old: Item, new: Item) -> bool
    decreases old, 1int,
{
    match old {
        Item::Trait(t) => new matches Item::Trait(t2) && {
            &&& t2.attrs@ == without_named(t.attrs@, "interface"@)
            &&& t2.vis == t.vis
            &&& t2.ident == t.ident
            &&& t2.generics == t.generics
            &&& t2.supertraits == t.supertraits
            &&& t2.items == t.items
        },
        Item::Struct(s) => new matches Item::Struct(s2) && {
            &&& s2.attrs@ == without_named(s.attrs@, "shared"@)
            &&& s2.vis == s.vis
            &&& s2.ident == s.ident
            &&& s2.generics == s.generics
            &&& s2.fields == s.fields
        },
        Item::Mod(m) => new matches Item::Mod(m2) && {
            &&& m2.attrs == m.attrs
            &&& m2.vis == m.vis
            &&& m2.ident == m.ident
            &&& match (m.content, m2.content) {
                (Some(v), Some(v2)) => items_pruned(v@, v2@),
                (None, None) => true,
                _ => false,
            }
        },
        _ => new == old,
    }
}

pub open spec fn items_pruned(old: Seq<Item>, new: Seq<Item>) -> bool
    decreases old, 0int,
{
    &&& old.len() == new.len()
    &&& old.len() > 0 ==> {
        &&& items_pruned(old.drop_last(), new.drop_last())
        &&& item_pruned(old[old.len() - 1], new[new.len() - 1])
    }
}

fn remove_named(attrs: &mut Vec<Attribute>, name: &str)
    ensures
        final(attrs)@ == without_named(old(attrs)@, name@),
{
    let ghost orig = attrs@;
    let ghost n = orig.len();
    let mut rest: Vec<Attribute> = Vec::new();
    std::mem::swap(&mut rest, attrs);
    let mut kept: Vec<Attribute> = Vec::new();
    assert(rest@.subrange(0, rest@.len() as int) =~= orig.subrange(0, n as int));
    assert(kept@ =~= without_named(orig.subrange(0, 0), name@));
    while rest.len() > 0
        invariant
            rest@.len() <= n,
            n == orig.len(),
            rest@ == orig.subrange(n - rest@.len(), n as int),
            kept@ == without_named(orig.subrange(0, n - rest@.len()), name@),
        decreases rest@.len(),
    {
        let ghost k = n - rest@.len();
        let a = rest.remove(0);
        assert(a == orig[k]);
        let ghost cur = orig.subrange(0, k + 1);
        assert(cur.drop_last() =~= orig.subrange(0, k));
        assert(cur.last() == orig[k]);
        if !path_is(&a.path, name) {
            kept.push(a);
        }
        assert(rest@ =~= orig.subrange(n - rest@.len(), n as int));
    }
    assert(orig.subrange(0, n as int) =~= orig);
    *attrs = kept;
}

fn prune_item(it: &mut Item)
    ensures
        item_pruned(*old(it), *final(it)),
    decreases *old(it), 1int,
{
    match it {
        Item::Trait(t) => remove_named(&mut t.attrs, "interface"),
        Item::Struct(s) => remove_named(&mut s.attrs, "shared"),
        Item::Mod(m) => match &mut m.content {
            Some(v) => prune_items(v),
            None => {},
        },
        _ => {},
    }
}

fn prune_items(items: &mut Vec<Item>)
    ensures
        items_pruned(old(items)@, final(items)@),
    decreases old(items)@, 0int,
{
    let ghost orig = items@;
    let mut i: usize = 0;
    assert(items_pruned(orig.subrange(0, 0), items@.subrange(0, 0)));
    while i < items.len()
        invariant
            i <= items@.len(),
            items@.len() == orig.len(),
            orig == old(items)@,
            items_pruned(orig.subrange(0, i as int), items@.subrange(0, i as int)),
            forall|j: int| i <= j < orig.len() ==> #[trigger] items@[j] == orig[j],
        decreases orig.len() - i,
    {
        let ghost before = items@;
        assert(decreases_to!(orig => orig[i as int]));
        prune_item(&mut items[i]);
        proof {
            let a = orig.subrange(0, i + 1);
            let b = items@.subrange(0, i + 1);
            assert(a.drop_last() =~= orig.subrange(0, i as int));
            assert(b.drop_last() =~= before.subrange(0, i as int));
            assert(before.subrange(0, i as int) =~= items@.subrange(0, i as int));
        }
        i += 1;
    }
    assert(orig.subrange(0, i as int) =~= orig);
    assert(items@.subrange(0, i as int) =~= items@);
}

/// Prunes the marker attributes from an IDL file: `interface` from each
/// trait and `shared` from each struct, in nested modules too.
pub fn prune_idl_attributes(file: &mut File)
    ensures
        final(file).attrs == old(file).attrs,
        items_pruned(old(file).items@, final(file).items@),
{
    prune_items(&mut file.items);
}

// ---------------------------------------------------------------------------
// Reserved names and forbidden items.

/// Why an expanded IDL source is refused.
pub enum ReservedWordsError {
    ForeignModule,
    TraitAssociatedType,
    ImplAssociatedType,
    TypeAlias,
    ReservedStruct,
    ReservedTrait,
}

impl ReservedWordsError {
    pub open spec fn text(self) -> Seq<char> {
        match self {
            ReservedWordsError::ForeignModule => "Foreign modules are not permitted"@,
            ReservedWordsError::TraitAssociatedType => "Trait associated types are not permitted"@,
            ReservedWordsError::ImplAssociatedType => "Impl associated types are not permitted"@,
            ReservedWordsError::TypeAlias => "Type aliases are not supported"@,
            ReservedWordsError::ReservedStruct => "Struct declared with reserved name"@,
            ReservedWordsError::ReservedTrait => "Trait declared with reserved name"@,
        }
    }

    /// The message that reports the error.
    pub fn message(&self) -> (r: String)
        ensures
            r@ == self.text(),
    {
        match self {
            ReservedWordsError::ForeignModule => String::from_str("Foreign modules are not permitted"),
            ReservedWordsError::TraitAssociatedType => String::from_str("Trait associated types are not permitted"),
            ReservedWordsError::ImplAssociatedType => String::from_str("Impl associated types are not permitted"),
            ReservedWordsError::TypeAlias => String::from_str("Type aliases are not supported"),
            ReservedWordsError::ReservedStruct => String::from_str("Struct declared with reserved name"),
            ReservedWordsError::ReservedTrait => String::from_str("Trait declared with reserved name"),
        }
    }
}

pub open spec fn trait_items_error(its: Seq<TraitItem>) -> Option<ReservedWordsError> {
    if exists|i: int| 0 <= i < its.len() && #[trigger] its[i] is Type {
        Some(ReservedWordsError::TraitAssociatedType)
    } else {
        None
    }
}

pub open spec fn impl_items_error(its: Seq<ImplItem>) -> Option<ReservedWordsError> {
    if exists|i: int| 0 <= i < its.len() && #[trigger] its[i] is Type {
        Some(ReservedWordsError::ImplAssociatedType)
    } else {
        None
    }
}

/// The first rule an item breaks, in the order a walk of it meets them.
/// The module `sys` holds trusted code and is not looked into.
pub open spec fn item_error(it: Item) -> Option<ReservedWordsError>
    decreases it, 1int,
{
    match it {
        Item::ForeignMod(_) => Some(ReservedWordsError::ForeignModule),
        Item::Type(..) => Some(ReservedWordsError::TypeAlias),
        Item::Struct(s) => if is_reserved_name(s.ident@) {
            Some(ReservedWordsError::ReservedStruct)
        } else {
            None
        },
        Item::Trait(t) => if is_reserved_name(t.ident@) {
            Some(ReservedWordsError::ReservedTrait)
        } else {
            trait_items_error(t.items@)
        },
        Item::Impl(_, its) => impl_items_error(its@),
        Item::Mod(m) => if m.ident@ == "sys"@ {
            None
        } else {
            match m.content {
                Some(v) => items_error(v@),
                None => None,
            }
        },
        _ => None,
    }
}

/// The first rule that a sequence of items breaks.
pub open spec fn items_error(items: Seq<Item>) -> Option<ReservedWordsError>
    decreases items, 0int,
{
    if items.len() == 0 {
        None
    } else {
        match items_error(items.drop_last()) {
            Some(e) => Some(e),
            None => item_error(items[items.len() - 1]),
        }
    }
}

fn trait_items_check(its: &Vec<TraitItem>) -> (r: Result<(), ReservedWordsError>)
    ensures
        match r {
            Ok(()) => trait_items_error(its@) is None,
            Err(e) => trait_items_error(its@) == Some(e),
        },
{
    let mut i: usize = 0;
    while i < its.len()
        invariant
            i <= its@.len(),
            forall|j: int| 0 <= j < i ==> !(#[trigger] its@[j] is Type),
        decreases its@.len() - i,
    {
        if let TraitItem::Type(..) = &its[i] {
            return Err(ReservedWordsError::TraitAssociatedType);
        }
        i += 1;
    }
    Ok(())
}

fn impl_items_check(its: &Vec<ImplItem>) -> (r: Result<(), ReservedWordsError>)
    ensures
        match r {
            Ok(()) => impl_items_error(its@) is None,
            Err(e) => impl_items_error(its@) == Some(e),
        },
{
    let mut i: usize = 0;
    while i < its.len()
        invariant
            i <= its@.len(),
            forall|j: int| 0 <= j < i ==> !(#[trigger] its@[j] is Type),
        decreases its@.len() - i,
    {
        if let ImplItem::Type(..) = &its[i] {
            return Err(ReservedWordsError::ImplAssociatedType);
        }
        i += 1;
    }
    Ok(())
}

fn item_check(it: &Item) -> (r: Result<(), ReservedWordsError>)
    ensures
        match r {
            Ok(()) => item_error(*it) is None,
            Err(e) => item_error(*it) == Some(e),
        },
    decreases *it, 1int,
{
    match it {
        Item::ForeignMod(_) => Err(ReservedWordsError::ForeignModule),
        Item::Type(..) => Err(ReservedWordsError::TypeAlias),
        Item::Struct(s) => if is_reserved(&s.ident) {
            Err(ReservedWordsError::ReservedStruct)
        } else {
            Ok(())
        },
        Item::Trait(t) => if is_reserved(&t.ident) {
            Err(ReservedWordsError::ReservedTrait)
        } else {
            trait_items_check(&t.items)
        },
        Item::Impl(_, its) => impl_items_check(its),
        Item::Mod(m) => if eq_lit(&m.ident, "sys") {
            Ok(())
        } else {
            match &m.content {
                Some(v) => items_check(v),
                None => Ok(()),
            }
        },
        _ => Ok(()),
    }
}

fn items_check(items: &Vec<Item>) -> (r: Result<(), ReservedWordsError>)
    ensures
        match r {
            Ok(()) => items_error(items@) is None,
            Err(e) => items_error(items@) == Some(e),
        },
    decreases items@, 0int,
{
    let mut i: usize = 0;
    assert(items@.subrange(0, 0).len() == 0);
    while i < items.len()
        invariant
            i <= items@.len(),
            items_error(items@.subrange(0, i as int)) is None,
        decreases items@.len() - i,
    {
        let ghost cur = items@.subrange(0, i + 1);
        assert(cur.drop_last() =~= items@.subrange(0, i as int));
        assert(cur[cur.len() - 1] == items@[i as int]);
        let r = item_check(&items[i]);
        if let Err(e) = r {
            proof { lemma_first_error_stays(items@, i as int + 1); }
            return Err(e);
        }
        i += 1;
    }
    assert(items@.subrange(0, i as int) =~= items@);
    Ok(())
}

/// An error of a prefix is the error of the whole.
proof fn lemma_first_error_stays(items: Seq<Item>, k: int)
    requires
        0 <= k <= items.len(),
        items_error(items.subrange(0, k)) is Some,
    ensures
        items_error(items) == items_error(items.subrange(0, k)),
    decreases items.len() - k,
{
    if k == items.len() {
        assert(items.subrange(0, k) =~= items);
    } else {
        let next = items.subrange(0, k + 1);
        assert(next.drop_last() =~= items.subrange(0, k));
        lemma_first_error_stays(items, k + 1);
    }
}

/// Holds an expanded IDL source to the rules: no foreign modules, associated
/// types or type aliases, and no struct or trait under a reserved name. The
/// first offence met, walking the items in order, is reported.
pub fn check_reserved_words(file: &File) -> (r: Result<(), ReservedWordsError>)
    ensures
        match r {
            Ok(()) => items_error(file.items@) is None,
            Err(e) => items_error(file.items@) == Some(e),
        },
{
    items_check(&file.items)
}

} // verus!
