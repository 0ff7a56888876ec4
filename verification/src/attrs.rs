//! Attributes of IDL items: testing for one by name, removing one, and the
//! map from names to values that an item's attributes define.

use vstd::prelude::*;
use crate::ast::{Attribute, Meta, NestedMeta};
use crate::copy::copy_lit;
use crate::text::eq_lit;
use crate::ty::{Lit, Path, PathArguments, SLit, SPath};

verus! {

/// Whether `p` is the single plain identifier `name`.
pub open spec fn path_is_ident(p: SPath, name: Seq<char>) -> bool {
    !p.leading_colon && p.segments.len() == 1 && p.segments[0].arguments is Empty
        && p.segments[0].ident == name
}

/// The identifier `p` consists of, when it is a single plain one.
pub open spec fn path_ident(p: SPath) -> Option<Seq<char>> {
    if !p.leading_colon && p.segments.len() == 1 && p.segments[0].arguments is Empty {
        Some(p.segments[0].ident)
    } else {
        None
    }
}

pub open spec fn meta_path(m: Meta) -> SPath {
    match m {
        Meta::Path(p) => p@,
        Meta::List(p, _) => p@,
        Meta::NameValue(p, _) => p@,
    }
}

/// Whether `a` is the attribute `name`: its contents parse and are named `name`.
pub open spec fn attr_is(a: Attribute, name: Seq<char>) -> bool {
    match a.meta {
        Some(m) => path_is_ident(meta_path(m), name),
        None => false,
    }
}

pub open spec fn has_attr(attrs: Seq<Attribute>, name: Seq<char>) -> bool {
    exists|i: int| 0 <= i < attrs.len() && attr_is(#[trigger] attrs[i], name)
}

/// `attrs` without the attributes `name`.
pub open spec fn without_attr(attrs: Seq<Attribute>, name: Seq<char>) -> Seq<Attribute>
    decreases attrs.len(),
{
    if attrs.len() == 0 {
        Seq::empty()
    } else if attr_is(attrs.last(), name) {
        without_attr(attrs.drop_last(), name)
    } else {
        without_attr(attrs.drop_last(), name).push(attrs.last())
    }
}

pub fn path_is(p: &Path, name: &str) -> (r: bool)
    ensures
        r == path_is_ident(p@, name@),
{
    if !p.leading_colon && p.segments.len() == 1 {
        match &p.segments[0].arguments {
            PathArguments::Empty => eq_lit(&p.segments[0].ident, name),
            _ => false,
        }
    } else {
        false
    }
}

pub fn ident_of(p: &Path) -> (r: Option<String>)
    ensures
        match r {
            Some(s) => path_ident(p@) == Some(s@),
            None => path_ident(p@) is None,
        },
{
    if !p.leading_colon && p.segments.len() == 1 {
        match &p.segments[0].arguments {
            PathArguments::Empty => Some(p.segments[0].ident.clone()),
            _ => None,
        }
    } else {
        None
    }
}

fn path_of_meta(m: &Meta) -> (r: &Path)
    ensures
        r@ == meta_path(*m),
{
    match m {
        Meta::Path(p) => p,
        Meta::List(p, _) => p,
        Meta::NameValue(p, _) => p,
    }
}

/// Whether `a` is the attribute `name`.
pub fn attribute_is(a: &Attribute, name: &str) -> (r: bool)
    ensures
        r == attr_is(*a, name@),
{
    match &a.meta {
        Some(m) => path_is(path_of_meta(m), name),
        None => false,
    }
}

/// Whether one of `attrs` is the attribute `name`.
pub fn has_attribute(attrs: &Vec<Attribute>, name: &str) -> (r: bool)
    ensures
        r == has_attr(attrs@, name@),
{
    let mut i: usize = 0;
    while i < attrs.len()
        invariant
            i <= attrs@.len(),
            forall|j: int| 0 <= j < i ==> !attr_is(#[trigger] attrs@[j], name@),
        decreases attrs@.len() - i,
    {
        if attribute_is(&attrs[i], name) {
            return true;
        }
        i += 1;
    }
    false
}

/// Removes the attributes `name` from `attrs`, keeping the order of the rest.
pub fn remove_attribute(attrs: &mut Vec<Attribute>, name: &str)
    ensures
        final(attrs)@ == without_attr(old(attrs)@, name@),
{
    let ghost orig = attrs@;
    let ghost n = orig.len();
    let mut rest: Vec<Attribute> = Vec::new();
    std::mem::swap(&mut rest, attrs);
    let mut kept: Vec<Attribute> = Vec::new();
    assert(rest@.subrange(0, rest@.len() as int) =~= orig.subrange(0, n as int));
    assert(kept@ =~= without_attr(orig.subrange(0, 0), name@));
    while rest.len() > 0
        invariant
            rest@.len() <= n,
            n == orig.len(),
            rest@ == orig.subrange(n - rest@.len(), n as int),
            kept@ == without_attr(orig.subrange(0, n - rest@.len()), name@),
        decreases rest@.len(),
    {
        let ghost k = n - rest@.len();
        let a = rest.remove(0);
        assert(a == orig[k]);
        let ghost cur = orig.subrange(0, k + 1);
        assert(cur.drop_last() =~= orig.subrange(0, k));
        assert(cur.last() == orig[k]);
        if !attribute_is(&a, name) {
            kept.push(a);
        }
        assert(rest@ =~= orig.subrange(n - rest@.len(), n as int));
    }
    assert(orig.subrange(0, n as int) =~= orig);
    *attrs = kept;
}

// ---------------------------------------------------------------------------
// The attribute map.

/// Why the attributes of an item cannot be read as a map.
pub enum AttributeError {
    /// An attribute whose contents are not of a structured form.
    Unparsable,
    /// A literal in a list that is not a string.
    NonStringLiteral,
    /// A name that is not a single identifier.
    NotAnIdent,
}

/// The entries an attribute's contents define, in order: each name of the
/// form `name` or `name = lit`, inside lists too, and each string literal
/// inside a list. The list's own name defines nothing.
pub open spec fn meta_entries(m: Meta) -> Result<Seq<(Seq<char>, Option<SLit>)>, AttributeError>
    decreases m,
{
    match m {
        Meta::Path(p) => match path_ident(p@) {
            Some(id) => Ok(seq![(id, None)]),
            None => Err(AttributeError::NotAnIdent),
        },
        Meta::NameValue(p, l) => match path_ident(p@) {
            Some(id) => Ok(seq![(id, Some(l@))]),
            None => Err(AttributeError::NotAnIdent),
        },
        Meta::List(_, nested) => nested_entries(nested@),
    }
}

pub open spec fn nested_entries(ns: Seq<NestedMeta>) -> Result<Seq<(Seq<char>, Option<SLit>)>, AttributeError>
    decreases ns,
{
    if ns.len() == 0 {
        Ok(Seq::empty())
    } else {
        match nested_entries(ns.subrange(0, ns.len() - 1)) {
            Err(e) => Err(e),
            Ok(prev) => match ns[ns.len() - 1] {
                NestedMeta::Meta(m) => match meta_entries(m) {
                    Err(e) => Err(e),
                    Ok(more) => Ok(prev + more),
                },
                NestedMeta::Lit(Lit::Str(s)) => Ok(prev + seq![(s@, None::<SLit>)]),
                NestedMeta::Lit(_) => Err(AttributeError::NonStringLiteral),
            },
        }
    }
}

/// The entries all of `attrs` define, in order.
pub open spec fn attrs_entries(attrs: Seq<Attribute>) -> Result<Seq<(Seq<char>, Option<SLit>)>, AttributeError>
    decreases attrs.len(),
{
    if attrs.len() == 0 {
        Ok(Seq::empty())
    } else {
        match attrs_entries(attrs.drop_last()) {
            Err(e) => Err(e),
            Ok(prev) => match attrs.last().meta {
                None => Err(AttributeError::Unparsable),
                Some(m) => match meta_entries(m) {
                    Err(e) => Err(e),
                    Ok(more) => Ok(prev + more),
                },
            },
        }
    }
}

/// The value the entries give `name`: that of its last entry.
pub open spec fn entry_value(entries: Seq<(Seq<char>, Option<SLit>)>, name: Seq<char>) -> Option<Option<SLit>>
    decreases entries.len(),
{
    if entries.len() == 0 {
        None
    } else if entries.last().0 == name {
        Some(entries.last().1)
    } else {
        entry_value(entries.drop_last(), name)
    }
}

pub open spec fn view_entries(v: Seq<(String, Option<Lit>)>) -> Seq<(Seq<char>, Option<SLit>)> {
    Seq::new(
        v.len(),
        |i: int| (v[i].0@, match v[i].1 {
            Some(l) => Some(l@),
            None => None,
        }),
    )
}

proof fn lemma_view_entries_concat(a: Seq<(String, Option<Lit>)>, b: Seq<(String, Option<Lit>)>)
    ensures
        view_entries(a + b) == view_entries(a) + view_entries(b),
{
    assert(view_entries(a + b) =~= view_entries(a) + view_entries(b));
}

fn append_entries(out: &mut Vec<(String, Option<Lit>)>, more: Vec<(String, Option<Lit>)>)
    ensures
        view_entries(final(out)@) == view_entries(old(out)@) + view_entries(more@),
{
    let mut more = more;
    let ghost (a, b) = (out@, more@);
    out.append(&mut more);
    proof { lemma_view_entries_concat(a, b); }
}

fn one_entry(name: String, value: Option<Lit>) -> (r: Vec<(String, Option<Lit>)>)
    ensures
        view_entries(r@) == seq![(name@, match value { Some(l) => Some(l@), None => None })],
{
    let mut r: Vec<(String, Option<Lit>)> = Vec::new();
    r.push((name, value));
    assert(view_entries(r@) =~= seq![(name@, match value { Some(l) => Some(l@), None => None })]);
    r
}

/// The entries the contents `m` define (see [`meta_entries`]).
pub fn meta_entries_of(m: &Meta) -> (r: Result<Vec<(String, Option<Lit>)>, AttributeError>)
    ensures
        match r {
            Ok(v) => meta_entries(*m) == Ok::<Seq<(Seq<char>, Option<SLit>)>, AttributeError>(view_entries(v@)),
            Err(e) => meta_entries(*m) == Err::<Seq<(Seq<char>, Option<SLit>)>, AttributeError>(e),
        },
    decreases m, 1int,
{
    match m {
        Meta::Path(p) => match ident_of(p) {
            Some(id) => Ok(one_entry(id, None)),
            None => Err(AttributeError::NotAnIdent),
        },
        Meta::NameValue(p, l) => match ident_of(p) {
            Some(id) => Ok(one_entry(id, Some(copy_lit(l)))),
            None => Err(AttributeError::NotAnIdent),
        },
        Meta::List(_, nested) => nested_entries_of(nested),
    }
}

fn nested_entries_of(ns: &Vec<NestedMeta>) -> (r: Result<Vec<(String, Option<Lit>)>, AttributeError>)
    ensures
        match r {
            Ok(v) => nested_entries(ns@) == Ok::<Seq<(Seq<char>, Option<SLit>)>, AttributeError>(view_entries(v@)),
            Err(e) => nested_entries(ns@) == Err::<Seq<(Seq<char>, Option<SLit>)>, AttributeError>(e),
        },
    decreases ns, 0int,
{
    let mut out: Vec<(String, Option<Lit>)> = Vec::new();
    let mut i: usize = 0;
    assert(view_entries(out@) =~= Seq::<(Seq<char>, Option<SLit>)>::empty());
    assert(ns@.subrange(0, 0).len() == 0);
    while i < ns.len()
        invariant
            i <= ns@.len(),
            nested_entries(ns@.subrange(0, i as int)) == Ok::<Seq<(Seq<char>, Option<SLit>)>, AttributeError>(view_entries(out@)),
        decreases ns@.len() - i,
    {
        let ghost cur = ns@.subrange(0, i + 1);
        assert(cur.subrange(0, cur.len() - 1) =~= ns@.subrange(0, i as int));
        assert(cur[cur.len() - 1] == ns@[i as int]);
        assert(decreases_to!(ns => ns@));
        let more = match &ns[i] {
            NestedMeta::Meta(m) => meta_entries_of(m),
            NestedMeta::Lit(Lit::Str(s)) => Ok(one_entry(s.clone(), None)),
            NestedMeta::Lit(_) => Err(AttributeError::NonStringLiteral),
        };
        match more {
            Err(e) => {
                proof { lemma_nested_prefix(ns@, i + 1); }
                return Err(e);
            },
            Ok(v) => append_entries(&mut out, v),
        }
        i += 1;
    }
    assert(ns@.subrange(0, i as int) =~= ns@);
    Ok(out)
}

proof fn lemma_nested_prefix(ns: Seq<NestedMeta>, n: int)
    requires
        0 <= n <= ns.len(),
        nested_entries(ns.subrange(0, n)) is Err,
    ensures
        nested_entries(ns) == nested_entries(ns.subrange(0, n)),
    decreases ns.len(),
{
    if n < ns.len() {
        let s = ns.subrange(0, ns.len() - 1);
        assert(s.subrange(0, n) =~= ns.subrange(0, n));
        lemma_nested_prefix(s, n);
    } else {
        assert(ns.subrange(0, n) =~= ns);
    }
}

proof fn lemma_attrs_prefix(attrs: Seq<Attribute>, n: int)
    requires
        0 <= n <= attrs.len(),
        attrs_entries(attrs.subrange(0, n)) is Err,
    ensures
        attrs_entries(attrs) == attrs_entries(attrs.subrange(0, n)),
    decreases attrs.len(),
{
    if n < attrs.len() {
        let s = attrs.drop_last();
        assert(s.subrange(0, n) =~= attrs.subrange(0, n));
        lemma_attrs_prefix(s, n);
    } else {
        assert(attrs.subrange(0, n) =~= attrs);
    }
}

/// The entries `attrs` define (see [`attrs_entries`]).
pub fn attribute_entries(attrs: &Vec<Attribute>) -> (r: Result<Vec<(String, Option<Lit>)>, AttributeError>)
    ensures
        match r {
            Ok(v) => attrs_entries(attrs@) == Ok::<Seq<(Seq<char>, Option<SLit>)>, AttributeError>(view_entries(v@)),
            Err(e) => attrs_entries(attrs@) == Err::<Seq<(Seq<char>, Option<SLit>)>, AttributeError>(e),
        },
{
    let mut out: Vec<(String, Option<Lit>)> = Vec::new();
    let mut i: usize = 0;
    assert(view_entries(out@) =~= Seq::<(Seq<char>, Option<SLit>)>::empty());
    assert(attrs@.subrange(0, 0).len() == 0);
    while i < attrs.len()
        invariant
            i <= attrs@.len(),
            attrs_entries(attrs@.subrange(0, i as int)) == Ok::<Seq<(Seq<char>, Option<SLit>)>, AttributeError>(view_entries(out@)),
        decreases attrs@.len() - i,
    {
        let ghost cur = attrs@.subrange(0, i + 1);
        assert(cur.drop_last() =~= attrs@.subrange(0, i as int));
        assert(cur.last() == attrs@[i as int]);
        let more = match &attrs[i].meta {
            None => Err(AttributeError::Unparsable),
            Some(m) => meta_entries_of(m),
        };
        match more {
            Err(e) => {
                proof { lemma_attrs_prefix(attrs@, i + 1); }
                return Err(e);
            },
            Ok(v) => append_entries(&mut out, v),
        }
        i += 1;
    }
    assert(attrs@.subrange(0, i as int) =~= attrs@);
    Ok(out)
}

/// The value the entries give `name` (see [`entry_value`]).
pub fn find_entry(entries: &Vec<(String, Option<Lit>)>, name: &str) -> (r: Option<Option<Lit>>)
    ensures
        match r {
            Some(Some(l)) => entry_value(view_entries(entries@), name@) == Some(Some(l@)),
            Some(None) => entry_value(view_entries(entries@), name@) == Some(None::<SLit>),
            None => entry_value(view_entries(entries@), name@) is None,
        },
{
    let ghost ev = view_entries(entries@);
    let mut i: usize = entries.len();
    assert(ev.subrange(0, ev.len() as int) =~= ev);
    while i > 0
        invariant
            i <= entries@.len(),
            ev == view_entries(entries@),
            entry_value(ev, name@) == entry_value(ev.subrange(0, i as int), name@),
        decreases i,
    {
        let ghost cur = ev.subrange(0, i as int);
        assert(cur.drop_last() =~= ev.subrange(0, i - 1));
        if eq_lit(&entries[i - 1].0, name) {
            return match &entries[i - 1].1 {
                Some(l) => Some(Some(copy_lit(l))),
                None => Some(None),
            };
        }
        i -= 1;
    }
    None
}

} // verus!

verus! {

/// Once the attributes `name` are removed, none is left, and the other
/// attributes are kept.
pub proof fn law_remove_attribute(attrs: Seq<Attribute>, name: Seq<char>, other: Seq<char>)
    requires
        other != name,
    ensures
        !has_attr(without_attr(attrs, name), name),
        has_attr(without_attr(attrs, name), other) == has_attr(attrs, other),
    decreases attrs.len(),
{
    if attrs.len() > 0 {
        let rest = attrs.drop_last();
        law_remove_attribute(rest, name, other);
        let w = without_attr(rest, name);
        assert forall|x: Seq<char>| has_attr(w.push(attrs.last()), x) == (has_attr(w, x) || attr_is(attrs.last(), x)) by {
            if has_attr(w.push(attrs.last()), x) {
                let k = choose|k: int| 0 <= k < w.push(attrs.last()).len() && attr_is(#[trigger] w.push(attrs.last())[k], x);
                if k < w.len() {
                    assert(attr_is(w[k], x));
                }
            }
            if has_attr(w, x) {
                let k = choose|k: int| 0 <= k < w.len() && attr_is(#[trigger] w[k], x);
                assert(w.push(attrs.last())[k] == w[k]);
            }
            if attr_is(attrs.last(), x) {
                assert(w.push(attrs.last())[w.len() as int] == attrs.last());
            }
        }
        assert forall|x: Seq<char>| has_attr(attrs, x) == (has_attr(rest, x) || attr_is(attrs.last(), x)) by {
            if has_attr(attrs, x) {
                let k = choose|k: int| 0 <= k < attrs.len() && attr_is(#[trigger] attrs[k], x);
                if k < rest.len() {
                    assert(attr_is(rest[k], x));
                }
            }
            if has_attr(rest, x) {
                let k = choose|k: int| 0 <= k < rest.len() && attr_is(#[trigger] rest[k], x);
                assert(attrs[k] == rest[k]);
            }
            if attr_is(attrs.last(), x) {
                assert(attrs[attrs.len() - 1] == attrs.last());
            }
        }
        if attr_is(attrs.last(), name) {
            assert(attr_is(attrs.last(), other) ==> false) by {
                if attr_is(attrs.last(), other) {
                    assert(meta_path(attrs.last().meta->0).segments[0].ident == name);
                }
            }
        }
    }
}

} // verus!
