//! The `typeid` module: a `TypeIdentifiable` trait and, for every type the
//! interface sends across a domain boundary, an impl that gives the type its
//! number, counting from zero in the order the types are first met.

use vstd::prelude::*;
use vstd::string::StringExecFns;
use crate::ast::{File, Item};
use crate::collect::boundary_types_of;
use crate::print::{type_str, type_to_string};
use crate::resolve::boundary_types;
use crate::symbols::ResolveError;
use crate::text::{decimal, eq_lit, strs, write_decimal};
use crate::ty::{view_types, SType};

verus! {

/// The strings of `s`, each once, in the order of their first occurrence.
pub open spec fn distinct(s: Seq<Seq<char>>) -> Seq<Seq<char>>
    decreases s.len(),
{
    if s.len() == 0 {
        Seq::empty()
    } else {
        let d = distinct(s.drop_last());
        if d.contains(s.last()) {
            d
        } else {
            d.push(s.last())
        }
    }
}

/// The source text of each of `ts`.
pub open spec fn printed(ts: Seq<SType>) -> Seq<Seq<char>> {
    Seq::new(ts.len(), |i: int| type_str(ts[i]))
}

/// The types that get a number, as source text: the boundary types of the
/// file, each once, in the order first met.
pub open spec fn typeid_types(items: Seq<Item>) -> Result<Seq<Seq<char>>, ResolveError> {
    match boundary_types(items) {
        Ok(ts) => Ok(distinct(printed(ts))),
        Err(e) => Err(e),
    }
}

pub open spec fn typeid_impl(ty: Seq<char>, i: nat) -> Seq<char> {
    "impl TypeIdentifiable for "@ + ty + " { fn type_id() -> u64 { "@ + decimal(i) + "u64 } } "@
}

/// The impls for `tys`, numbered from zero.
pub open spec fn typeid_impls(tys: Seq<Seq<char>>) -> Seq<char>
    decreases tys.len(),
{
    if tys.len() == 0 {
        Seq::empty()
    } else {
        typeid_impls(tys.drop_last()) + typeid_impl(tys.last(), (tys.len() - 1) as nat)
    }
}

/// The source text of the items of the `typeid` module for the types `tys`.
pub open spec fn typeid_module(tys: Seq<Seq<char>>) -> Seq<char> {
    "pub trait TypeIdentifiable { fn type_id() -> u64; } "@ + typeid_impls(tys)
}

/// Whether `item` is a module named `typeid`.
pub open spec fn is_typeid_module(item: Item) -> bool {
    item matches Item::Mod(m) && m.ident@ == "typeid"@
}

/// `items` without the modules named `typeid`.
pub open spec fn without_typeid(items: Seq<Item>) -> Seq<Item>
    decreases items.len(),
{
    if items.len() == 0 {
        Seq::empty()
    } else if is_typeid_module(items.last()) {
        without_typeid(items.drop_last())
    } else {
        without_typeid(items.drop_last()).push(items.last())
    }
}

fn distinct_strings(v: &Vec<String>) -> (r: Vec<String>)
    ensures
        strs(r@) == distinct(strs(v@)),
{
    let ghost sv = strs(v@);
    let mut r: Vec<String> = Vec::new();
    let mut i: usize = 0;
    assert(strs(r@) =~= distinct(sv.subrange(0, 0)));
    while i < v.len()
        invariant
            i <= v@.len(),
            sv == strs(v@),
            strs(r@) == distinct(sv.subrange(0, i as int)),
        decreases v@.len() - i,
    {
        let ghost cur = sv.subrange(0, i + 1);
        assert(cur.drop_last() =~= sv.subrange(0, i as int));
        assert(cur.last() == v@[i as int]@);
        let mut k: usize = 0;
        let mut found = false;
        while k < r.len()
            invariant
                k <= r@.len(),
                i < v@.len(),
                !found ==> forall|j: int| 0 <= j < k ==> strs(r@)[j] != v@[i as int]@,
                found ==> strs(r@).contains(v@[i as int]@),
            decreases r@.len() - k,
        {
            if r[k] == v[i] {
                assert(strs(r@)[k as int] == v@[i as int]@);
                found = true;
            }
            k += 1;
        }
        if !found {
            let ghost before = strs(r@);
            r.push(v[i].clone());
            assert(strs(r@) =~= before.push(v@[i as int]@));
        }
        i += 1;
    }
    assert(sv.subrange(0, i as int) =~= sv);
    r
}

/// The source text of the items of the `typeid` module for the types `tys`.
pub fn typeid_module_text(tys: &Vec<String>) -> (r: String)
    ensures
        r@ == typeid_module(strs(tys@)),
{
    let ghost tv = strs(tys@);
    let mut out = String::new();
    out.append("pub trait TypeIdentifiable { fn type_id() -> u64; } ");
    let ghost head = out@;
    let mut i: usize = 0;
    assert(tv.subrange(0, 0).len() == 0);
    assert(out@ =~= head + typeid_impls(tv.subrange(0, 0)));
    while i < tys.len()
        invariant
            i <= tys@.len(),
            tv == strs(tys@),
            out@ == head + typeid_impls(tv.subrange(0, i as int)),
        decreases tys@.len() - i,
    {
        let ghost before = out@;
        out.append("impl TypeIdentifiable for ");
        out.append(tys[i].as_str());
        out.append(" { fn type_id() -> u64 { ");
        write_decimal(&mut out, i as u64);
        out.append("u64 } } ");
        let ghost cur = tv.subrange(0, i + 1);
        assert(cur.drop_last() =~= tv.subrange(0, i as int));
        assert(cur.last() == tys@[i as int]@);
        assert(out@ =~= before + typeid_impl(tys@[i as int]@, i as nat));
        i += 1;
    }
    assert(tv.subrange(0, i as int) =~= tv);
    out
}

/// Whether `item` is a module named `typeid`.
fn typeid_module_item(item: &Item) -> (r: bool)
    ensures
        r == is_typeid_module(*item),
{
    match item {
        Item::Mod(m) => eq_lit(&m.ident, "typeid"),
        _ => false,
    }
}

/// The source text of the types that get a number (see [`typeid_types`]).
pub fn typeid_type_names(items: &Vec<Item>) -> (r: Result<Vec<String>, ResolveError>)
    ensures
        match r {
            Ok(v) => typeid_types(items@) == Ok::<Seq<Seq<char>>, ResolveError>(strs(v@)),
            Err(e) => typeid_types(items@) == Err::<Seq<Seq<char>>, ResolveError>(e),
        },
{
    match boundary_types_of(items) {
        Err(e) => Err(e),
        Ok(ts) => {
            let mut names: Vec<String> = Vec::new();
            let mut i: usize = 0;
            while i < ts.len()
                invariant
                    i <= ts@.len(),
                    names@.len() == i,
                    forall|j: int| 0 <= j < i ==> #[trigger] names@[j]@ == type_str(ts@[j]@),
                decreases ts@.len() - i,
            {
                names.push(type_to_string(&ts[i]));
                i += 1;
            }
            assert(strs(names@) =~= printed(view_types(ts@)));
            Ok(distinct_strings(&names))
        },
    }
}

/// Whether `item` is the public module `typeid` whose items are `text`.
pub open spec fn is_generated_typeid(item: Item, text: Seq<char>) -> bool {
    &&& item matches Item::Mod(m)
    &&& m.ident@ == "typeid"@
    &&& m.vis is Public
    &&& m.attrs@.len() == 0
    &&& m.content matches Some(c)
    &&& c@.len() == 1
    &&& c@[0] matches Item::Verbatim(t)
    &&& t@ == text
}

/// Replaces the `typeid` module of `file`: resolves the types of the
/// interface, removes every module named `typeid` and appends a new one
/// that numbers the boundary types (its items held as source text). A file
/// whose types cannot be resolved is left as it is, and the error returned.
pub fn generate_typeid(file: &mut File) -> (r: Result<(), ResolveError>)
    ensures
        match typeid_types(old(file).items@) {
            Err(e) => r == Err::<(), ResolveError>(e) && *final(file) == *old(file),
            Ok(tys) => {
                &&& r is Ok
                &&& final(file).attrs == old(file).attrs
                &&& final(file).items@.len() == without_typeid(old(file).items@).len() + 1
                &&& final(file).items@.subrange(0, final(file).items@.len() - 1) == without_typeid(old(file).items@)
                &&& is_generated_typeid(final(file).items@.last(), typeid_module(tys))
            },
        },
{
    let names = match typeid_type_names(&file.items) {
        Err(e) => {
            return Err(e);
        },
        Ok(n) => n,
    };
    let text = typeid_module_text(&names);
    let ghost orig = file.items@;
    let mut rest: Vec<Item> = Vec::new();
    std::mem::swap(&mut rest, &mut file.items);
    let mut kept: Vec<Item> = Vec::new();
    let ghost n = orig.len();
    assert(rest@.subrange(0, rest@.len() as int) =~= orig.subrange(0, n as int));
    assert(kept@ =~= without_typeid(orig.subrange(0, 0)));
    while rest.len() > 0
        invariant
            rest@.len() <= n,
            n == orig.len(),
            rest@ == orig.subrange(n - rest@.len(), n as int),
            kept@ == without_typeid(orig.subrange(0, n - rest@.len())),
        decreases rest@.len(),
    {
        let ghost k = n - rest@.len();
        let item = rest.remove(0);
        assert(item == orig[k]);
        let ghost cur = orig.subrange(0, k + 1);
        assert(cur.drop_last() =~= orig.subrange(0, k));
        assert(cur.last() == orig[k]);
        if !typeid_module_item(&item) {
            kept.push(item);
        }
        assert(rest@ =~= orig.subrange(n - rest@.len(), n as int));
    }
    assert(orig.subrange(0, n as int) =~= orig);
    let mut body: Vec<Item> = Vec::new();
    body.push(Item::Verbatim(text));
    kept.push(Item::Mod(crate::ast::ItemMod {
        attrs: Vec::new(),
        vis: crate::ast::Visibility::Public,
        ident: crate::text::owned("typeid"),
        content: Some(body),
    }));
    file.items = kept;
    Ok(())
}

} // verus!

verus! {

/// Whether no string occurs twice in `s`.
pub open spec fn no_repeats(s: Seq<Seq<char>>) -> bool {
    forall|i: int, j: int| 0 <= i < j < s.len() ==> s[i] != s[j]
}

proof fn lemma_distinct(s: Seq<Seq<char>>)
    ensures
        no_repeats(distinct(s)),
        forall|x: Seq<char>| distinct(s).contains(x) <==> s.contains(x),
    decreases s.len(),
{
    if s.len() > 0 {
        let d = distinct(s.drop_last());
        lemma_distinct(s.drop_last());
        assert forall|x: Seq<char>| s.contains(x) <==> (s.drop_last().contains(x) || x == s.last()) by {
            if s.contains(x) {
                let k = choose|k: int| 0 <= k < s.len() && s[k] == x;
                if k < s.len() - 1 {
                    assert(s.drop_last()[k] == x);
                }
            }
            if s.drop_last().contains(x) {
                let k = choose|k: int| 0 <= k < s.drop_last().len() && s.drop_last()[k] == x;
                assert(s[k] == x);
            }
            if x == s.last() {
                assert(s[s.len() - 1] == x);
            }
        }
        if !d.contains(s.last()) {
            assert forall|x: Seq<char>| d.push(s.last()).contains(x) <==> (d.contains(x) || x == s.last()) by {
                if d.push(s.last()).contains(x) {
                    let k = choose|k: int| 0 <= k < d.push(s.last()).len() && d.push(s.last())[k] == x;
                    if k < d.len() {
                        assert(d[k] == x);
                    }
                }
                if d.contains(x) {
                    let k = choose|k: int| 0 <= k < d.len() && d[k] == x;
                    assert(d.push(s.last())[k] == x);
                }
                if x == s.last() {
                    assert(d.push(s.last())[d.len() as int] == x);
                }
            }
            assert forall|i: int, j: int| 0 <= i < j < d.push(s.last()).len() implies d.push(s.last())[i] != d.push(s.last())[j] by {
                if j == d.len() {
                    assert(d[i] == d.push(s.last())[i]);
                }
            }
        }
    }
}

/// The numbering of the `typeid` module is one to one: no type is listed
/// twice, and the listed types are exactly the source texts of the types
/// that cross a domain boundary.
pub proof fn law_typeid_numbers_each_boundary_type_once(items: Seq<Item>)
    requires
        typeid_types(items) is Ok,
    ensures
        no_repeats(typeid_types(items)->Ok_0),
        forall|t: SType| boundary_types(items)->Ok_0.contains(t) ==> typeid_types(items)->Ok_0.contains(type_str(t)),
        forall|x: Seq<char>| typeid_types(items)->Ok_0.contains(x) ==> exists|t: SType| boundary_types(items)->Ok_0.contains(t) && type_str(t) == x,
{
    let ts = boundary_types(items)->Ok_0;
    let p = printed(ts);
    lemma_distinct(p);
    assert forall|t: SType| ts.contains(t) implies typeid_types(items)->Ok_0.contains(type_str(t)) by {
        let k = choose|k: int| 0 <= k < ts.len() && ts[k] == t;
        assert(p[k] == type_str(t));
        assert(p.contains(type_str(t)));
    }
    assert forall|x: Seq<char>| typeid_types(items)->Ok_0.contains(x) implies exists|t: SType| ts.contains(t) && type_str(t) == x by {
        assert(p.contains(x));
        let k = choose|k: int| 0 <= k < p.len() && p[k] == x;
        assert(ts.contains(ts[k]));
    }
}

} // verus!
