//! Small helpers on the syntax model: visibility tests, paths made of
//! identifiers, and the type inside a box.

use vstd::prelude::*;
use crate::ast::Visibility;
use crate::text::strs;
use crate::ty::{GenericArgument, Path, PathArguments, PathSegment, SGenericArgument, SPathArguments, SType, Type};

verus! {

/// Whether `vis` is private: no visibility was written.
pub fn is_prviate(vis: &Visibility) -> (r: bool)
    ensures
        r == (*vis is Inherited),
{
    match vis {
        Visibility::Inherited => true,
        _ => false,
    }
}

/// Whether `vis` is anything but private.
pub fn is_public(vis: &Visibility) -> (r: bool)
    ensures
        r == crate::symbols::is_public(*vis),
{
    !is_prviate(vis)
}

/// The path made of the identifiers `idents`, without leading `::` or
/// generic arguments.
pub fn idents_to_path(idents: &Vec<String>) -> (r: Path)
    ensures
        !r@.leading_colon,
        r@.segments.len() == idents@.len(),
        forall|i: int| 0 <= i < idents@.len() ==> (#[trigger] r@.segments[i]).ident == idents@[i]@
            && r@.segments[i].arguments is Empty,
{
    let mut segments: Vec<PathSegment> = Vec::new();
    let mut i: usize = 0;
    while i < idents.len()
        invariant
            i <= idents@.len(),
            segments@.len() == i,
            forall|j: int| 0 <= j < i ==> (#[trigger] segments@[j]).ident@ == idents@[j]@
                && segments@[j].arguments is Empty,
        decreases idents@.len() - i,
    {
        segments.push(PathSegment { ident: idents[i].clone(), arguments: PathArguments::Empty });
        i += 1;
    }
    let r = Path { leading_colon: false, segments };
    assert forall|k: int| 0 <= k < idents@.len() implies (#[trigger] r@.segments[k]).ident == idents@[k]@
        && r@.segments[k].arguments is Empty by {
        assert(r@.segments[k] == r.segments@[k]@);
    }
    r
}

/// Whether `t` is a path whose last segment is `Box` with a single generic
/// argument, a type: the form of `Box<T>` (or `alloc::boxed::Box<T>`).
pub open spec fn is_boxed(t: SType) -> bool {
    &&& t matches SType::Path(p)
    &&& p.segments.len() > 0
    &&& p.segments.last().ident == "Box"@
    &&& p.segments.last().arguments matches SPathArguments::AngleBracketed(args)
    &&& args.len() == 1
    &&& args[0] is Type
}

/// Whether `ty` has the form `Box<T>` (see [`is_boxed`]).
pub fn is_box_type(ty: &Type) -> (r: bool)
    ensures
        r == is_boxed(ty@),
{
    match ty {
        Type::Path(p) => {
            let n = p.segments.len();
            assert(ty@ == SType::Path(p@));
            assert(p@.segments.len() == n);
            if n == 0 {
                return false;
            }
            assert(p@.segments[n - 1] == p.segments@[n - 1]@);
            if !crate::text::eq_lit(&p.segments[n - 1].ident, "Box") {
                return false;
            }
            match &p.segments[n - 1].arguments {
                PathArguments::AngleBracketed(args) => {
                    if args.len() != 1 {
                        return false;
                    }
                    assert(crate::ty::view_generic_arguments(args@)[0] == args@[0]@);
                    match &args[0] {
                        GenericArgument::Type(_) => true,
                        _ => false,
                    }
                },
                _ => false,
            }
        },
        _ => false,
    }
}

/// The type inside `Box<T>` (see [`is_boxed`]).
pub open spec fn boxed_type(t: SType) -> SType {
    match t {
        SType::Path(p) => match p.segments.last().arguments {
            SPathArguments::AngleBracketed(args) => match args[0] {
                SGenericArgument::Type(inner) => inner,
                _ => t,
            },
            _ => t,
        },
        _ => t,
    }
}

/// `T` from `Box<T>`. Only a `Box` may be unwrapped (see [`is_boxed`]).
pub fn get_type_inside_of_box(ty: &Type) -> (r: &Type)
    requires
        is_boxed(ty@),
    ensures
        r@ == boxed_type(ty@),
{
    match ty {
        Type::Path(p) => {
            let n = p.segments.len();
            assert(p@.segments[n - 1] == p.segments@[n - 1]@);
            match &p.segments[n - 1].arguments {
                PathArguments::AngleBracketed(args) => {
                    assert(args@.len() == 1);
                    assert(crate::ty::view_generic_arguments(args@)[0] == args@[0]@);
                    match &args[0] {
                        GenericArgument::Type(inner) => inner,
                        _ => ty,
                    }
                },
                _ => ty,
            }
        },
        _ => ty,
    }
}

} // verus!
