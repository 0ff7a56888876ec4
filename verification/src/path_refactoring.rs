//! Rewriting the first segment of paths: every path in a trait's method
//! signatures whose first segment is `src` gets `dest` there instead, and the
//! generic arguments of every segment are rewritten the same way.

use vstd::prelude::*;
use crate::ty::{
    GenericArgument, Path, PathArguments, PathSegment, ReturnType, Type, TypeParamBound,
    SGenericArgument, SPath, SPathArguments, SPathSegment, SReturnType, SType, STypeParamBound,
    view_bounds, view_generic_arguments, view_segments, view_types, view_type, view_bound,
    view_segment, view_generic_argument, view_arguments,
};
use crate::ast::{File, FnArg, Item, ItemTrait, TraitItem, TraitItemMethod};

verus! {







// ---------------------------------------------------------------------------
// The rewrite.

pub open spec fn refactor_type(src: Seq<char>, dest: Seq<char>, t: SType) -> SType
    decreases t,
{
    match t {
        SType::Array(e, len) => SType::Array(Box::new(refactor_type(src, dest, *e)), len),
        SType::Path(p) => SType::Path(refactor_path(src, dest, p)),
        SType::TraitObject(bounds) => SType::TraitObject(
            Seq::new(
                bounds.len(),
                |i: int|
                    if 0 <= i < bounds.len() {
                        refactor_bound(src, dest, bounds[i])
                    } else {
                        STypeParamBound::Lifetime(Seq::empty())
                    },
            ),
        ),
        SType::Tuple(elems) => SType::Tuple(
            Seq::new(
                elems.len(),
                |i: int|
                    if 0 <= i < elems.len() {
                        refactor_type(src, dest, elems[i])
                    } else {
                        SType::Infer
                    },
            ),
        ),
        _ => t,
    }
}

pub open spec fn refactor_bound(src: Seq<char>, dest: Seq<char>, b: STypeParamBound) -> STypeParamBound
    decreases b,
{
    match b {
        STypeParamBound::Trait(p) => STypeParamBound::Trait(refactor_path(src, dest, p)),
        STypeParamBound::Lifetime(_) => b,
    }
}

/// The first segment is renamed when it is `src`; the arguments of every
/// segment are rewritten.
pub open spec fn refactor_path(src: Seq<char>, dest: Seq<char>, p: SPath) -> SPath
    decreases p,
{
    SPath {
        leading_colon: p.leading_colon,
        segments: Seq::new(
            p.segments.len(),
            |i: int|
                if 0 <= i < p.segments.len() {
                    SPathSegment {
                        ident: if i == 0 && p.segments[i].ident == src {
                            dest
                        } else {
                            p.segments[i].ident
                        },
                        arguments: refactor_arguments(src, dest, p.segments[i].arguments),
                    }
                } else {
                    p.segments[i]
                },
        ),
    }
}

pub open spec fn refactor_arguments(src: Seq<char>, dest: Seq<char>, a: SPathArguments) -> SPathArguments
    decreases a,
{
    match a {
        SPathArguments::AngleBracketed(args) => SPathArguments::AngleBracketed(
            Seq::new(
                args.len(),
                |i: int|
                    if 0 <= i < args.len() {
                        refactor_generic_argument(src, dest, args[i])
                    } else {
                        args[i]
                    },
            ),
        ),
        _ => a,
    }
}

pub open spec fn refactor_generic_argument(src: Seq<char>, dest: Seq<char>, a: SGenericArgument) -> SGenericArgument
    decreases a,
{
    match a {
        SGenericArgument::Type(t) => SGenericArgument::Type(refactor_type(src, dest, t)),
        _ => a,
    }
}

pub open spec fn refactor_return_type(src: Seq<char>, dest: Seq<char>, r: SReturnType) -> SReturnType {
    match r {
        SReturnType::Default => r,
        SReturnType::Type(t) => SReturnType::Type(Box::new(refactor_type(src, dest, *t))),
    }
}

// ---------------------------------------------------------------------------
// Executable rewrite of types and paths.

pub fn refactor_path_in_type(src: &String, dest: &String, ty: &mut Type)
    ensures
        final(ty)@ == refactor_type(src@, dest@, old(ty)@),
    decreases *old(ty),
{
    match ty {
        Type::Array(arr, _) => refactor_path_in_type(src, dest, arr),
        Type::Path(path) => refactor_path_in_path(src, dest, path),
        Type::TraitObject(bounds) => {
            let ghost old_b = bounds@;
            let mut i: usize = 0;
            while i < bounds.len()
                invariant
                    i <= bounds@.len(),
                    bounds@.len() == old_b.len(),
                    *old(ty) == Type::TraitObject(old(ty)->TraitObject_0),
                    old(ty)->TraitObject_0@ == old_b,
                    forall|j: int| 0 <= j < i ==> #[trigger] view_bound(bounds@[j]) == refactor_bound(src@, dest@, view_bound(old_b[j])),
                    forall|j: int| i <= j < bounds@.len() ==> #[trigger] bounds@[j] == old_b[j],
                decreases bounds@.len() - i,
            {
                assert(view_bounds(old_b)[i as int] == view_bound(old_b[i as int]));
                proof {
                    assert(decreases_to!(*old(ty) => old(ty)->TraitObject_0));
                    assert(decreases_to!(old(ty)->TraitObject_0 => old_b));
                    assert(decreases_to!(old_b => old_b[i as int]));
                }
                refactor_path_in_bound(src, dest, &mut bounds[i]);
                i += 1;
            }
            let ghost want = refactor_type(src@, dest@, view_type(Type::TraitObject(old(ty)->TraitObject_0)))->TraitObject_0;
            assert(i == old_b.len());
            assert(view_type(Type::TraitObject(old(ty)->TraitObject_0)) == SType::TraitObject(view_bounds(old_b)));
            assert(want == Seq::new(view_bounds(old_b).len(), |k: int| if 0 <= k < view_bounds(old_b).len() { refactor_bound(src@, dest@, view_bounds(old_b)[k]) } else { STypeParamBound::Lifetime(Seq::empty()) }));
            assert forall|j: int| 0 <= j < old_b.len() implies #[trigger] view_bounds(bounds@)[j] == want[j] by {
                assert(view_bounds(old_b)[j] == view_bound(old_b[j]));
                assert(view_bounds(bounds@)[j] == view_bound(bounds@[j]));
                assert(view_bound(bounds@[j]) == refactor_bound(src@, dest@, view_bound(old_b[j])));
                assert(want[j] == refactor_bound(src@, dest@, view_bounds(old_b)[j]));
            }
            assert(view_bounds(bounds@) =~= want);
        },
        Type::Tuple(elems) => {
            let ghost old_e = elems@;
            let mut i: usize = 0;
            while i < elems.len()
                invariant
                    i <= elems@.len(),
                    elems@.len() == old_e.len(),
                    *old(ty) == Type::Tuple(old(ty)->Tuple_0),
                    old(ty)->Tuple_0@ == old_e,
                    forall|j: int| 0 <= j < i ==> #[trigger] view_type(elems@[j]) == refactor_type(src@, dest@, view_type(old_e[j])),
                    forall|j: int| i <= j < elems@.len() ==> #[trigger] elems@[j] == old_e[j],
                decreases elems@.len() - i,
            {
                assert(view_types(old_e)[i as int] == view_type(old_e[i as int]));
                proof {
                    assert(decreases_to!(*old(ty) => old(ty)->Tuple_0));
                    assert(decreases_to!(old(ty)->Tuple_0 => old_e));
                    assert(decreases_to!(old_e => old_e[i as int]));
                }
                refactor_path_in_type(src, dest, &mut elems[i]);
                i += 1;
            }
            let ghost want = refactor_type(src@, dest@, view_type(Type::Tuple(old(ty)->Tuple_0)))->Tuple_0;
            assert(i == old_e.len());
            assert(view_type(Type::Tuple(old(ty)->Tuple_0)) == SType::Tuple(view_types(old_e)));
            assert(want == Seq::new(view_types(old_e).len(), |k: int| if 0 <= k < view_types(old_e).len() { refactor_type(src@, dest@, view_types(old_e)[k]) } else { SType::Infer }));
            assert forall|j: int| 0 <= j < old_e.len() implies #[trigger] view_types(elems@)[j] == want[j] by {
                assert(view_types(old_e)[j] == view_type(old_e[j]));
                assert(view_types(elems@)[j] == view_type(elems@[j]));
                assert(view_type(elems@[j]) == refactor_type(src@, dest@, view_type(old_e[j])));
                assert(want[j] == refactor_type(src@, dest@, view_types(old_e)[j]));
            }
            assert(view_types(elems@) =~= want);
        },
        _ => {},
    }
}

pub fn refactor_path_in_bound(src: &String, dest: &String, bound: &mut TypeParamBound)
    ensures
        final(bound)@ == refactor_bound(src@, dest@, old(bound)@),
    decreases *old(bound),
{
    match bound {
        TypeParamBound::Trait(p) => refactor_path_in_path(src, dest, p),
        TypeParamBound::Lifetime(_) => {},
    }
}

pub fn refactor_path_in_path(src: &String, dest: &String, path: &mut Path)
    ensures
        final(path)@ == refactor_path(src@, dest@, old(path)@),
    decreases *old(path),
{
    let ghost old_s = path.segments@;
    if path.segments.len() > 0 && path.segments[0].ident == *src {
        path.segments[0].ident = dest.clone();
    }
    let mut i: usize = 0;
    while i < path.segments.len()
        invariant
            i <= path.segments@.len(),
            path.segments@.len() == old_s.len(),
            old(path).segments@ == old_s,
            path.leading_colon == old(path).leading_colon,
            old_s.len() > 0 ==> path.segments@[0].ident@ == (if old_s[0].ident@ == src@ { dest@ } else { old_s[0].ident@ }),
            forall|j: int| 1 <= j < old_s.len() ==> #[trigger] path.segments@[j].ident == old_s[j].ident,
            forall|j: int| 0 <= j < i ==> #[trigger] view_arguments(path.segments@[j].arguments) == refactor_arguments(src@, dest@, view_arguments(old_s[j].arguments)),
            forall|j: int| i <= j < old_s.len() ==> #[trigger] path.segments@[j].arguments == old_s[j].arguments,
        decreases old_s.len() - i,
    {
        assert(view_segments(old_s)[i as int] == view_segment(old_s[i as int]));
        proof {
            assert(decreases_to!(*old(path) => old(path).segments));
            assert(decreases_to!(old(path).segments => old_s));
            assert(decreases_to!(old_s => old_s[i as int]));
            assert(decreases_to!(old_s[i as int] => old_s[i as int].arguments));
        }
        refactor_path_in_path_arguments(src, dest, &mut path.segments[i].arguments);
        i += 1;
    }
    let ghost want = refactor_path(src@, dest@, old(path)@).segments;
    assert(i == old_s.len());
    assert(old(path)@.segments == view_segments(old_s));
    assert forall|j: int| 0 <= j < old_s.len() implies #[trigger] view_segments(path.segments@)[j] == want[j] by {
        assert(view_segments(old_s)[j] == view_segment(old_s[j]));
        assert(view_segments(path.segments@)[j] == view_segment(path.segments@[j]));
        assert(0 <= j < i);
        assert(view_arguments(path.segments@[j].arguments) == refactor_arguments(src@, dest@, view_arguments(old_s[j].arguments)));
        assert(view_segment(path.segments@[j]).arguments == view_arguments(path.segments@[j].arguments));
        assert(view_segment(path.segments@[j]).arguments == refactor_arguments(src@, dest@, view_segment(old_s[j]).arguments));
        if j == 0 {
            assert(view_segment(path.segments@[j]).ident == (if view_segment(old_s[j]).ident == src@ { dest@ } else { view_segment(old_s[j]).ident }));
        } else {
            assert(view_segment(path.segments@[j]).ident == view_segment(old_s[j]).ident);
        }
    }
    assert(view_segments(path.segments@) =~= want);
    assert(path@ == refactor_path(src@, dest@, old(path)@));
}

pub fn refactor_path_in_path_arguments(src: &String, dest: &String, args: &mut PathArguments)
    ensures
        final(args)@ == refactor_arguments(src@, dest@, old(args)@),
    decreases *old(args),
{
    match args {
        PathArguments::AngleBracketed(list) => {
            let ghost old_a = list@;
            let mut i: usize = 0;
            while i < list.len()
                invariant
                    i <= list@.len(),
                    list@.len() == old_a.len(),
                    *old(args) == PathArguments::AngleBracketed(old(args)->AngleBracketed_0),
                    old(args)->AngleBracketed_0@ == old_a,
                    forall|j: int| 0 <= j < i ==> #[trigger] view_generic_argument(list@[j]) == refactor_generic_argument(src@, dest@, view_generic_argument(old_a[j])),
                    forall|j: int| i <= j < list@.len() ==> #[trigger] list@[j] == old_a[j],
                decreases list@.len() - i,
            {
                assert(view_generic_arguments(old_a)[i as int] == view_generic_argument(old_a[i as int]));
                proof {
                    assert(decreases_to!(*old(args) => old(args)->AngleBracketed_0));
                    assert(decreases_to!(old(args)->AngleBracketed_0 => old_a));
                    assert(decreases_to!(old_a => old_a[i as int]));
                }
                refactor_path_in_generic_argument(src, dest, &mut list[i]);
                i += 1;
            }
            let ghost want = refactor_arguments(src@, dest@, view_arguments(PathArguments::AngleBracketed(old(args)->AngleBracketed_0)))->AngleBracketed_0;
            assert(i == old_a.len());
            assert(view_arguments(PathArguments::AngleBracketed(old(args)->AngleBracketed_0)) == SPathArguments::AngleBracketed(view_generic_arguments(old_a)));
            assert(want == Seq::new(view_generic_arguments(old_a).len(), |k: int| if 0 <= k < view_generic_arguments(old_a).len() { refactor_generic_argument(src@, dest@, view_generic_arguments(old_a)[k]) } else { view_generic_arguments(old_a)[k] }));
            assert forall|j: int| 0 <= j < old_a.len() implies #[trigger] view_generic_arguments(list@)[j] == want[j] by {
                assert(view_generic_arguments(old_a)[j] == view_generic_argument(old_a[j]));
                assert(view_generic_arguments(list@)[j] == view_generic_argument(list@[j]));
                assert(view_generic_argument(list@[j]) == refactor_generic_argument(src@, dest@, view_generic_argument(old_a[j])));
                assert(want[j] == refactor_generic_argument(src@, dest@, view_generic_arguments(old_a)[j]));
            }
            assert(view_generic_arguments(list@) =~= want);
        },
        _ => {},
    }
}

pub fn refactor_path_in_generic_argument(src: &String, dest: &String, arg: &mut GenericArgument)
    ensures
        final(arg)@ == refactor_generic_argument(src@, dest@, old(arg)@),
    decreases *old(arg),
{
    match arg {
        GenericArgument::Type(ty) => refactor_path_in_type(src, dest, ty),
        _ => {},
    }
}

pub fn refactor_path_in_return_type(src: &String, dest: &String, rtn: &mut ReturnType)
    ensures
        final(rtn)@ == refactor_return_type(src@, dest@, old(rtn)@),
{
    match rtn {
        ReturnType::Default => {},
        ReturnType::Type(ty) => refactor_path_in_type(src, dest, ty),
    }
}

// ---------------------------------------------------------------------------
// Signatures, traits and files.


pub open spec fn fn_arg_refactored(src: Seq<char>, dest: Seq<char>, old: FnArg, new: FnArg) -> bool {
    match old {
        FnArg::Receiver(_) => new == old,
        FnArg::Typed(p, t) => new matches FnArg::Typed(p2, t2) && p2 == p && t2@ == refactor_type(
            src,
            dest,
            t@,
        ),
    }
}


/// `new` is `old` with the paths in its arguments and return type rewritten.
pub open spec fn method_refactored(src: Seq<char>, dest: Seq<char>, old: TraitItemMethod, new: TraitItemMethod) -> bool {
    &&& new.attrs == old.attrs
    &&& new.sig.ident == old.sig.ident
    &&& new.sig.generics == old.sig.generics
    &&& new.sig.inputs@.len() == old.sig.inputs@.len()
    &&& forall|i: int| 0 <= i < old.sig.inputs@.len() ==> fn_arg_refactored(
        src,
        dest,
        #[trigger] old.sig.inputs@[i],
        new.sig.inputs@[i],
    )
    &&& new.sig.output@ == refactor_return_type(src, dest, old.sig.output@)
}


pub open spec fn trait_item_refactored(src: Seq<char>, dest: Seq<char>, old: TraitItem, new: TraitItem) -> bool {
    match old {
        TraitItem::Method(m) => new matches TraitItem::Method(m2) && method_refactored(src, dest, m, m2),
        _ => new == old,
    }
}


pub open spec fn trait_items_refactored(src: Seq<char>, dest: Seq<char>, old: Seq<TraitItem>, new: Seq<TraitItem>) -> bool {
    &&& new.len() == old.len()
    &&& forall|i: int| 0 <= i < old.len() ==> trait_item_refactored(src, dest, #[trigger] old[i], new[i])
}

pub open spec fn trait_refactored(src: Seq<char>, dest: Seq<char>, old: ItemTrait, new: ItemTrait) -> bool {
    &&& new.attrs == old.attrs
    &&& new.vis == old.vis
    &&& new.ident == old.ident
    &&& new.generics == old.generics
    &&& new.supertraits == old.supertraits
    &&& trait_items_refactored(src, dest, old.items@, new.items@)
}


/// Only traits are rewritten; every other item is left as it is.
pub open spec fn item_refactored(src: Seq<char>, dest: Seq<char>, old: Item, new: Item) -> bool {
    match old {
        Item::Trait(tr) => new matches Item::Trait(tr2) && trait_refactored(src, dest, tr, tr2),
        _ => new == old,
    }
}


pub open spec fn items_refactored(src: Seq<char>, dest: Seq<char>, old: Seq<Item>, new: Seq<Item>) -> bool {
    &&& new.len() == old.len()
    &&& forall|i: int| 0 <= i < old.len() ==> item_refactored(src, dest, #[trigger] old[i], new[i])
}

pub fn refactor_path_in_fn_arg(src: &String, dest: &String, arg: &mut FnArg)
    ensures
        fn_arg_refactored(src@, dest@, *old(arg), *final(arg)),
{
    match arg {
        FnArg::Receiver(_) => {},
        FnArg::Typed(_, ty) => refactor_path_in_type(src, dest, ty),
    }
}

pub fn refactor_path_in_trait_item_method(src: &String, dest: &String, method: &mut TraitItemMethod)
    ensures
        method_refactored(src@, dest@, *old(method), *final(method)),
{
    refactor_path_in_return_type(src, dest, &mut method.sig.output);
    let ghost old_in = method.sig.inputs@;
    let mut i: usize = 0;
    while i < method.sig.inputs.len()
        invariant
            i <= method.sig.inputs@.len(),
            method.sig.inputs@.len() == old_in.len(),
            old(method).sig.inputs@ == old_in,
            method.attrs == old(method).attrs,
            method.sig.ident == old(method).sig.ident,
            method.sig.generics == old(method).sig.generics,
            method.sig.output@ == refactor_return_type(src@, dest@, old(method).sig.output@),
            forall|j: int| 0 <= j < i ==> fn_arg_refactored(src@, dest@, #[trigger] old_in[j], method.sig.inputs@[j]),
            forall|j: int| i <= j < old_in.len() ==> #[trigger] method.sig.inputs@[j] == old_in[j],
        decreases old_in.len() - i,
    {
        refactor_path_in_fn_arg(src, dest, &mut method.sig.inputs[i]);
        i += 1;
    }
}

pub fn refactor_path_in_trait_item(src: &String, dest: &String, item: &mut TraitItem)
    ensures
        trait_item_refactored(src@, dest@, *old(item), *final(item)),
{
    match item {
        TraitItem::Method(method) => refactor_path_in_trait_item_method(src, dest, method),
        _ => {},
    }
}

pub fn refactor_path_in_trait_items(src: &String, dest: &String, items: &mut Vec<TraitItem>)
    ensures
        trait_items_refactored(src@, dest@, old(items)@, final(items)@),
{
    let ghost old_items = items@;
    let mut i: usize = 0;
    while i < items.len()
        invariant
            i <= items@.len(),
            items@.len() == old_items.len(),
            forall|j: int| 0 <= j < i ==> trait_item_refactored(src@, dest@, #[trigger] old_items[j], items@[j]),
            forall|j: int| i <= j < old_items.len() ==> #[trigger] items@[j] == old_items[j],
        decreases old_items.len() - i,
    {
        refactor_path_in_trait_item(src, dest, &mut items[i]);
        i += 1;
    }
}

pub fn refactor_path_in_trait(src: &String, dest: &String, tr: &mut ItemTrait)
    ensures
        trait_refactored(src@, dest@, *old(tr), *final(tr)),
{
    refactor_path_in_trait_items(src, dest, &mut tr.items)
}

pub fn refactor_path_in_item(src: &String, dest: &String, item: &mut Item)
    ensures
        item_refactored(src@, dest@, *old(item), *final(item)),
{
    match item {
        Item::Trait(tr) => refactor_path_in_trait(src, dest, tr),
        _ => {},
    }
}

pub fn refactor_path_in_items(src: &String, dest: &String, items: &mut Vec<Item>)
    ensures
        items_refactored(src@, dest@, old(items)@, final(items)@),
{
    let ghost old_items = items@;
    let mut i: usize = 0;
    while i < items.len()
        invariant
            i <= items@.len(),
            items@.len() == old_items.len(),
            forall|j: int| 0 <= j < i ==> item_refactored(src@, dest@, #[trigger] old_items[j], items@[j]),
            forall|j: int| i <= j < old_items.len() ==> #[trigger] items@[j] == old_items[j],
        decreases old_items.len() - i,
    {
        refactor_path_in_item(src, dest, &mut items[i]);
        i += 1;
    }
}

pub fn refactor_path_in_ast(src: &String, dest: &String, ast: &mut File)
    ensures
        final(ast).attrs == old(ast).attrs,
        items_refactored(src@, dest@, old(ast).items@, final(ast).items@),
{
    refactor_path_in_items(src, dest, &mut ast.items)
}

// ---------------------------------------------------------------------------
// Laws of the rewrite.

/// Rewriting `s` to `s` changes nothing.
pub proof fn law_refactor_to_same_ident_is_identity(s: Seq<char>, t: SType)
    ensures
        refactor_type(s, s, t) == t,
    decreases t,
{
    match t {
        SType::Array(e, _) => law_refactor_to_same_ident_is_identity(s, *e),
        SType::Path(p) => lemma_same_path(s, p),
        SType::TraitObject(bounds) => {
            assert forall|i: int| 0 <= i < bounds.len() implies refactor_bound(s, s, #[trigger] bounds[i]) == bounds[i] by {
                lemma_same_bound(s, bounds[i]);
            }
            assert(refactor_type(s, s, t)->TraitObject_0 =~= bounds);
        },
        SType::Tuple(elems) => {
            assert forall|i: int| 0 <= i < elems.len() implies refactor_type(s, s, #[trigger] elems[i]) == elems[i] by {
                law_refactor_to_same_ident_is_identity(s, elems[i]);
            }
            assert(refactor_type(s, s, t)->Tuple_0 =~= elems);
        },
        _ => {},
    }
}

proof fn lemma_same_bound(s: Seq<char>, b: STypeParamBound)
    ensures
        refactor_bound(s, s, b) == b,
    decreases b,
{
    match b {
        STypeParamBound::Trait(p) => lemma_same_path(s, p),
        STypeParamBound::Lifetime(_) => {},
    }
}

proof fn lemma_same_path(s: Seq<char>, p: SPath)
    ensures
        refactor_path(s, s, p) == p,
    decreases p,
{
    assert forall|i: int| 0 <= i < p.segments.len() implies #[trigger] refactor_path(s, s, p).segments[i] == p.segments[i] by {
        lemma_same_arguments(s, p.segments[i].arguments);
    }
    assert(refactor_path(s, s, p).segments =~= p.segments);
}

proof fn lemma_same_arguments(s: Seq<char>, a: SPathArguments)
    ensures
        refactor_arguments(s, s, a) == a,
    decreases a,
{
    match a {
        SPathArguments::AngleBracketed(args) => {
            assert forall|i: int| 0 <= i < args.len() implies refactor_generic_argument(s, s, #[trigger] args[i]) == args[i] by {
                match args[i] {
                    SGenericArgument::Type(t) => law_refactor_to_same_ident_is_identity(s, t),
                    _ => {},
                }
            }
            assert(refactor_arguments(s, s, a)->AngleBracketed_0 =~= args);
        },
        _ => {},
    }
}

/// Rewriting a second time changes nothing more.
pub proof fn law_refactor_is_idempotent(src: Seq<char>, dest: Seq<char>, t: SType)
    ensures
        refactor_type(src, dest, refactor_type(src, dest, t)) == refactor_type(src, dest, t),
    decreases t,
{
    let r = refactor_type(src, dest, t);
    match t {
        SType::Array(e, _) => law_refactor_is_idempotent(src, dest, *e),
        SType::Path(p) => lemma_idempotent_path(src, dest, p),
        SType::TraitObject(bounds) => {
            assert forall|i: int| 0 <= i < bounds.len() implies refactor_bound(src, dest, #[trigger] r->TraitObject_0[i]) == r->TraitObject_0[i] by {
                lemma_idempotent_bound(src, dest, bounds[i]);
            }
            assert(refactor_type(src, dest, r)->TraitObject_0 =~= r->TraitObject_0);
        },
        SType::Tuple(elems) => {
            assert forall|i: int| 0 <= i < elems.len() implies refactor_type(src, dest, #[trigger] r->Tuple_0[i]) == r->Tuple_0[i] by {
                law_refactor_is_idempotent(src, dest, elems[i]);
            }
            assert(refactor_type(src, dest, r)->Tuple_0 =~= r->Tuple_0);
        },
        _ => {},
    }
}

proof fn lemma_idempotent_bound(src: Seq<char>, dest: Seq<char>, b: STypeParamBound)
    ensures
        refactor_bound(src, dest, refactor_bound(src, dest, b)) == refactor_bound(src, dest, b),
    decreases b,
{
    match b {
        STypeParamBound::Trait(p) => lemma_idempotent_path(src, dest, p),
        STypeParamBound::Lifetime(_) => {},
    }
}

proof fn lemma_idempotent_path(src: Seq<char>, dest: Seq<char>, p: SPath)
    ensures
        refactor_path(src, dest, refactor_path(src, dest, p)) == refactor_path(src, dest, p),
    decreases p,
{
    let r = refactor_path(src, dest, p);
    assert forall|i: int| 0 <= i < p.segments.len() implies #[trigger] refactor_path(src, dest, r).segments[i] == r.segments[i] by {
        lemma_idempotent_arguments(src, dest, p.segments[i].arguments);
    }
    assert(refactor_path(src, dest, r).segments =~= r.segments);
}

proof fn lemma_idempotent_arguments(src: Seq<char>, dest: Seq<char>, a: SPathArguments)
    ensures
        refactor_arguments(src, dest, refactor_arguments(src, dest, a)) == refactor_arguments(src, dest, a),
    decreases a,
{
    let r = refactor_arguments(src, dest, a);
    match a {
        SPathArguments::AngleBracketed(args) => {
            assert forall|i: int| 0 <= i < args.len() implies refactor_generic_argument(src, dest, #[trigger] r->AngleBracketed_0[i]) == r->AngleBracketed_0[i] by {
                match args[i] {
                    SGenericArgument::Type(t) => law_refactor_is_idempotent(src, dest, t),
                    _ => {},
                }
            }
            assert(refactor_arguments(src, dest, r)->AngleBracketed_0 =~= r->AngleBracketed_0);
        },
        _ => {},
    }
}

/// No path that the rewrite visits starts with `x`.
pub open spec fn first_segments_avoid_type(x: Seq<char>, t: SType) -> bool
    decreases t,
{
    match t {
        SType::Array(e, _) => first_segments_avoid_type(x, *e),
        SType::Path(p) => first_segments_avoid_path(x, p),
        SType::TraitObject(bounds) => forall|i: int| 0 <= i < bounds.len() ==> first_segments_avoid_bound(
            x,
            #[trigger] bounds[i],
        ),
        SType::Tuple(elems) => forall|i: int| 0 <= i < elems.len() ==> first_segments_avoid_type(
            x,
            #[trigger] elems[i],
        ),
        _ => true,
    }
}

pub open spec fn first_segments_avoid_bound(x: Seq<char>, b: STypeParamBound) -> bool
    decreases b,
{
    match b {
        STypeParamBound::Trait(p) => first_segments_avoid_path(x, p),
        STypeParamBound::Lifetime(_) => true,
    }
}

pub open spec fn first_segments_avoid_path(x: Seq<char>, p: SPath) -> bool
    decreases p,
{
    &&& (p.segments.len() > 0 ==> p.segments[0].ident != x)
    &&& forall|i: int| 0 <= i < p.segments.len() ==> first_segments_avoid_arguments(
        x,
        #[trigger] p.segments[i].arguments,
    )
}

pub open spec fn first_segments_avoid_arguments(x: Seq<char>, a: SPathArguments) -> bool
    decreases a,
{
    match a {
        SPathArguments::AngleBracketed(args) => forall|i: int| 0 <= i < args.len() ==> match #[trigger] args[i] {
            SGenericArgument::Type(t) => first_segments_avoid_type(x, t),
            _ => true,
        },
        _ => true,
    }
}

/// Rewriting `dest` back to `src` undoes a rewrite of `src` to `dest`, as long
/// as no rewritten path started with `dest` already.
pub proof fn law_refactor_back_undoes(src: Seq<char>, dest: Seq<char>, t: SType)
    requires
        first_segments_avoid_type(dest, t),
    ensures
        refactor_type(dest, src, refactor_type(src, dest, t)) == t,
    decreases t,
{
    let r = refactor_type(src, dest, t);
    match t {
        SType::Array(e, _) => law_refactor_back_undoes(src, dest, *e),
        SType::Path(p) => law_refactor_path_back_undoes(src, dest, p),
        SType::TraitObject(bounds) => {
            assert forall|i: int| 0 <= i < bounds.len() implies refactor_bound(dest, src, #[trigger] r->TraitObject_0[i]) == bounds[i] by {
                lemma_undo_bound(src, dest, bounds[i]);
            }
            assert(refactor_type(dest, src, r)->TraitObject_0 =~= bounds);
        },
        SType::Tuple(elems) => {
            assert forall|i: int| 0 <= i < elems.len() implies refactor_type(dest, src, #[trigger] r->Tuple_0[i]) == elems[i] by {
                law_refactor_back_undoes(src, dest, elems[i]);
            }
            assert(refactor_type(dest, src, r)->Tuple_0 =~= elems);
        },
        _ => {},
    }
}

proof fn lemma_undo_bound(src: Seq<char>, dest: Seq<char>, b: STypeParamBound)
    requires
        first_segments_avoid_bound(dest, b),
    ensures
        refactor_bound(dest, src, refactor_bound(src, dest, b)) == b,
    decreases b,
{
    match b {
        STypeParamBound::Trait(p) => law_refactor_path_back_undoes(src, dest, p),
        STypeParamBound::Lifetime(_) => {},
    }
}

/// Renaming `dest` back to `src` in a path restores a path in which `src`
/// was renamed to `dest` (what `refactor_path_in_path` does), as long as no
/// path the renaming reaches started with `dest` already.
pub proof fn law_refactor_path_back_undoes(src: Seq<char>, dest: Seq<char>, p: SPath)
    requires
        first_segments_avoid_path(dest, p),
    ensures
        refactor_path(dest, src, refactor_path(src, dest, p)) == p,
    decreases p,
{
    let r = refactor_path(src, dest, p);
    assert forall|i: int| 0 <= i < p.segments.len() implies #[trigger] refactor_path(dest, src, r).segments[i] == p.segments[i] by {
        lemma_undo_arguments(src, dest, p.segments[i].arguments);
    }
    assert(refactor_path(dest, src, r).segments =~= p.segments);
}

proof fn lemma_undo_arguments(src: Seq<char>, dest: Seq<char>, a: SPathArguments)
    requires
        first_segments_avoid_arguments(dest, a),
    ensures
        refactor_arguments(dest, src, refactor_arguments(src, dest, a)) == a,
    decreases a,
{
    let r = refactor_arguments(src, dest, a);
    match a {
        SPathArguments::AngleBracketed(args) => {
            assert forall|i: int| 0 <= i < args.len() implies refactor_generic_argument(dest, src, #[trigger] r->AngleBracketed_0[i]) == args[i] by {
                match args[i] {
                    SGenericArgument::Type(t) => law_refactor_back_undoes(src, dest, t),
                    _ => {},
                }
            }
            assert(refactor_arguments(dest, src, r)->AngleBracketed_0 =~= args);
        },
        _ => {},
    }
}

/// Refactoring an array rewrites its element and keeps its length: the
/// refactored form of `[T; n]` is `[refactored T; n]`.
pub proof fn law_refactor_array_rewrites_element(src: Seq<char>, dest: Seq<char>, e: SType, len: crate::ty::SExpr)
    ensures
        refactor_type(src, dest, SType::Array(Box::new(e), len)) == SType::Array(Box::new(refactor_type(src, dest, e)), len),
{
}

/// After renaming `src` to `dest`, no path the renaming reaches (the type
/// itself, array elements, tuple elements, trait bounds, and the type
/// arguments inside them) starts with `src` any more.
pub proof fn law_refactor_leaves_no_src(src: Seq<char>, dest: Seq<char>, t: SType)
    requires
        src != dest,
    ensures
        first_segments_avoid_type(src, refactor_type(src, dest, t)),
    decreases t,
{
    let r = refactor_type(src, dest, t);
    match t {
        SType::Array(e, _) => law_refactor_leaves_no_src(src, dest, *e),
        SType::Path(p) => lemma_path_leaves_no_src(src, dest, p),
        SType::TraitObject(bounds) => {
            assert forall|i: int| 0 <= i < bounds.len() implies first_segments_avoid_bound(src, #[trigger] r->TraitObject_0[i]) by {
                assert(r->TraitObject_0[i] == refactor_bound(src, dest, bounds[i]));
                match bounds[i] {
                    STypeParamBound::Trait(p) => lemma_path_leaves_no_src(src, dest, p),
                    STypeParamBound::Lifetime(_) => {},
                }
            }
        },
        SType::Tuple(elems) => {
            assert forall|i: int| 0 <= i < elems.len() implies first_segments_avoid_type(src, #[trigger] r->Tuple_0[i]) by {
                law_refactor_leaves_no_src(src, dest, elems[i]);
            }
        },
        _ => {},
    }
}

proof fn lemma_path_leaves_no_src(src: Seq<char>, dest: Seq<char>, p: SPath)
    requires
        src != dest,
    ensures
        first_segments_avoid_path(src, refactor_path(src, dest, p)),
    decreases p,
{
    let r = refactor_path(src, dest, p);
    assert forall|i: int| 0 <= i < r.segments.len() implies first_segments_avoid_arguments(src, #[trigger] r.segments[i].arguments) by {
        lemma_arguments_leave_no_src(src, dest, p.segments[i].arguments);
    }
}

proof fn lemma_arguments_leave_no_src(src: Seq<char>, dest: Seq<char>, a: SPathArguments)
    requires
        src != dest,
    ensures
        first_segments_avoid_arguments(src, refactor_arguments(src, dest, a)),
    decreases a,
{
    let r = refactor_arguments(src, dest, a);
    match a {
        SPathArguments::AngleBracketed(args) => {
            assert forall|i: int| 0 <= i < args.len() implies match #[trigger] r->AngleBracketed_0[i] {
                SGenericArgument::Type(t) => first_segments_avoid_type(src, t),
                _ => true,
            } by {
                match args[i] {
                    SGenericArgument::Type(t) => law_refactor_leaves_no_src(src, dest, t),
                    _ => {},
                }
            }
        },
        _ => {},
    }
}

} // verus!

verus! {

pub open spec fn refactor_fn_arg(src: Seq<char>, dest: Seq<char>, a: crate::print::SFnArg) -> crate::print::SFnArg {
    match a {
        crate::print::SFnArg::Receiver(_) => a,
        crate::print::SFnArg::Typed(p, t) => crate::print::SFnArg::Typed(p, refactor_type(src, dest, t)),
    }
}

/// The signature `s` with the paths in its parameters and return type rewritten.
pub open spec fn refactor_sig(src: Seq<char>, dest: Seq<char>, s: crate::print::SSignature) -> crate::print::SSignature {
    crate::print::SSignature {
        inputs: Seq::new(s.inputs.len(), |i: int| refactor_fn_arg(src, dest, s.inputs[i])),
        output: refactor_return_type(src, dest, s.output),
        ..s
    }
}

/// A copy of `sig` with the paths in its parameters and return type rewritten.
pub fn refactored_signature(src: &String, dest: &String, sig: &crate::ast::Signature) -> (r: crate::ast::Signature)
    ensures
        crate::print::view_sig(r) == refactor_sig(src@, dest@, crate::print::view_sig(*sig)),
{
    let ghost want = refactor_sig(src@, dest@, crate::print::view_sig(*sig));
    let generics = crate::copy::copy_generics(&sig.generics);
    let mut inputs: Vec<FnArg> = Vec::new();
    let mut i: usize = 0;
    while i < sig.inputs.len()
        invariant
            i <= sig.inputs@.len(),
            inputs@.len() == i,
            want == refactor_sig(src@, dest@, crate::print::view_sig(*sig)),
            forall|j: int| 0 <= j < i ==> #[trigger] crate::print::view_fn_arg(inputs@[j]) == want.inputs[j],
        decreases sig.inputs@.len() - i,
    {
        let a = match &sig.inputs[i] {
            FnArg::Receiver(s) => FnArg::Receiver(s.clone()),
            FnArg::Typed(p, t) => {
                let mut t2 = crate::copy::copy_type(t);
                refactor_path_in_type(src, dest, &mut t2);
                FnArg::Typed(crate::copy::copy_pat(p), t2)
            },
        };
        inputs.push(a);
        i += 1;
    }
    let mut output = crate::copy::copy_return_type(&sig.output);
    refactor_path_in_return_type(src, dest, &mut output);
    let r = crate::ast::Signature { ident: sig.ident.clone(), generics, inputs, output };
    assert(crate::print::view_fn_args(r.inputs@) =~= want.inputs);
    r
}

} // verus!
