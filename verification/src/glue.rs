//! The glue crate the high-level IDL compiler writes: its `lib.rs`, and the
//! type identifier assignments appended to each IDL module, one for each
//! type an `RRef`-like type holds.

use vstd::prelude::*;
use crate::text::{decimal, eq_lit, owned, strs, write_decimal};
use crate::ty::{GenericArgument, Path, PathArguments, SGenericArgument, SPath, SPathArguments};

verus! {

/// The text of `lib.rs`: the trusted module `sys`, then one module per
/// IDL file stem.
pub open spec fn lib_rs_str(stems: Seq<Seq<char>>) -> Seq<char>
    decreases stems.len(),
{
    if stems.len() == 0 {
        "mod sys;\n"@
    } else {
        lib_rs_str(stems.drop_last()) + "mod "@ + stems.last() + ";\n"@
    }
}

/// `lib.rs` of the glue or verifier crate (see [`lib_rs_str`]).
pub fn lib_rs_text(stems: &Vec<String>) -> (r: String)
    ensures
        r@ == lib_rs_str(strs(stems@)),
{
    let mut out = owned("mod sys;\n");
    let mut i: usize = 0;
    while i < stems.len()
        invariant
            i <= stems@.len(),
            out@ == lib_rs_str(strs(stems@).subrange(0, i as int)),
        decreases stems@.len() - i,
    {
        let ghost cur = strs(stems@).subrange(0, i + 1);
        assert(cur.drop_last() =~= strs(stems@).subrange(0, i as int));
        out.append("mod ");
        out.append(stems[i].as_str());
        out.append(";\n");
        i += 1;
    }
    assert(strs(stems@).subrange(0, i as int) =~= strs(stems@));
    out
}

/// The assignments of the numbers `start`, `start + 1`, ... to the types
/// `tids`, one per line, after an empty line.
pub open spec fn assign_ids_str(start: nat, tids: Seq<Seq<char>>) -> Seq<char>
    decreases tids.len(),
{
    if tids.len() == 0 {
        "\n"@
    } else {
        assign_ids_str(start, tids.drop_last()) + "crate::sys::hidl_macros::assign_id!("@
            + decimal((start + tids.len() - 1) as nat) + ", "@ + tids.last() + ");\n"@
    }
}

/// The type identifier assignments appended to an IDL module (see
/// [`assign_ids_str`]), and the next free number.
pub fn assign_id_lines(start: u64, tids: &Vec<String>) -> (r: (String, u64))
    requires
        start + tids@.len() <= u64::MAX,
    ensures
        r.0@ == assign_ids_str(start as nat, strs(tids@)),
        r.1 == start + tids@.len(),
{
    let mut out = owned("\n");
    let mut count = start;
    let mut i: usize = 0;
    while i < tids.len()
        invariant
            i <= tids@.len(),
            start + tids@.len() <= u64::MAX,
            count == start + i,
            out@ == assign_ids_str(start as nat, strs(tids@).subrange(0, i as int)),
        decreases tids@.len() - i,
    {
        let ghost cur = strs(tids@).subrange(0, i + 1);
        assert(cur.drop_last() =~= strs(tids@).subrange(0, i as int));
        out.append("crate::sys::hidl_macros::assign_id!(");
        write_decimal(&mut out, count);
        out.append(", ");
        out.append(tids[i].as_str());
        out.append(");\n");
        count = count + 1;
        i += 1;
    }
    assert(strs(tids@).subrange(0, i as int) =~= strs(tids@));
    (out, count)
}

/// Why a path to an `RRef`-like type is refused.
pub enum RRefSyntaxError {
    /// The type's arguments are not in angle brackets.
    NotAngleBracketed,
    /// The angle brackets are empty.
    NoArgument,
    /// The first argument is not a type.
    NotATypeArgument,
}

/// The names of the types that hold a value in shared memory.
pub open spec fn is_rref_like(name: Seq<char>) -> bool {
    name == "RRef"@ || name == "RRefArray"@ || name == "RRefDequeue"@
}

/// What a type path tells the search for held types: whether it names an
/// `RRef`-like type (by its last segment) whose first argument is a type.
pub open spec fn rref_like_path(p: SPath) -> Result<bool, RRefSyntaxError> {
    let last = p.segments.last();
    if !is_rref_like(last.ident) {
        Ok(false)
    } else {
        match last.arguments {
            SPathArguments::AngleBracketed(args) => if args.len() == 0 {
                Err(RRefSyntaxError::NoArgument)
            } else if args[0] is Type {
                Ok(true)
            } else {
                Err(RRefSyntaxError::NotATypeArgument)
            },
            _ => Err(RRefSyntaxError::NotAngleBracketed),
        }
    }
}

/// Whether the type path `p` names an `RRef`-like type whose first
/// argument, a type, is then to be numbered (see [`rref_like_path`]).
pub fn rref_like_check(p: &Path) -> (r: Result<bool, RRefSyntaxError>)
    requires
        p@.segments.len() > 0,
    ensures
        r == rref_like_path(p@),
{
    let n = p.segments.len();
    let last = &p.segments[n - 1];
    assert(p@.segments.last() == last@);
    if !(eq_lit(&last.ident, "RRef") || eq_lit(&last.ident, "RRefArray") || eq_lit(&last.ident, "RRefDequeue")) {
        return Ok(false);
    }
    match &last.arguments {
        PathArguments::AngleBracketed(args) => {
            if args.len() == 0 {
                Err(RRefSyntaxError::NoArgument)
            } else {
                assert(crate::ty::view_generic_arguments(args@)[0] == args@[0]@);
                match &args[0] {
                    GenericArgument::Type(_) => Ok(true),
                    _ => Err(RRefSyntaxError::NotATypeArgument),
                }
            }
        },
        _ => Err(RRefSyntaxError::NotAngleBracketed),
    }
}

} // verus!
