//! The compiler's pass over an interface file: the proxy of each interface
//! trait is written beside it, the domain create of each domain create
//! trait is collected, and the proxy module receives the proxy struct.

use vstd::prelude::*;
use crate::ast::{Attribute, File, Item, ItemTrait, Meta, NestedMeta};
use crate::attrs::{has_attr, has_attribute, meta_path, path_is, path_is_ident, without_attr};
use crate::domain_create::{
    create_init_str, domain_create, domain_create_attrs, is_doc_attr, method_sigs, trait_path_str, view_records,
    DomainCreateBuilder, DomainCreateError, DomainCreateRecord,
};
use crate::proxy::{dc_name, generate_interface_proxy, interface_proxy, proxy_items, view_dcs, ProxyBuilder, ProxyError};
use crate::symbols::ResolveError;
use crate::typeid::{generate_typeid, is_generated_typeid, typeid_module, typeid_types, without_typeid};
use crate::print::SSignature;
use crate::text::{clone_strings, eq_lit, owned, strs};

verus! {

/// What the domain create builder records of one generated domain create.
pub type RecordView = (Seq<Seq<char>>, Seq<char>, Seq<SSignature>);

/// `new` is `old` after its proxy was generated; `proxies` holds the proxy's
/// text, or nothing where `old` is no interface.
pub open spec fn proxied(old: ItemTrait, new: ItemTrait, proxies: Seq<Seq<char>>) -> bool {
    match interface_proxy(old) {
        None => proxies.len() == 0 && new == old,
        Some(text) => {
            &&& proxies == seq![text]
            &&& new.attrs@.len() == without_attr(old.attrs@, "interface"@).len() + 1
            &&& new.attrs@.drop_last() == without_attr(old.attrs@, "interface"@)
            &&& is_doc_attr(new.attrs@.last(), "redIDL Auto Generated: interface trait. Generations are below"@)
            &&& new.items == old.items
            &&& new.ident == old.ident
            &&& new.vis == old.vis
            &&& new.generics == old.generics
            &&& new.supertraits == old.supertraits
        },
    }
}

/// The outcome of the domain create of `t` in the module `path`.
#[verifier::opaque]
pub open spec fn dc_outcome(t: ItemTrait, path: Seq<Seq<char>>) -> Result<Option<Seq<Seq<char>>>, DomainCreateError> {
    domain_create(t, path)
}

/// `new` is `old` after its domain create was generated in the module
/// `path`; `recs` is what the builder recorded and `dcs` the generated items.
pub open spec fn dc_generated(
    old: ItemTrait,
    new: ItemTrait,
    path: Seq<Seq<char>>,
    recs: Seq<RecordView>,
    dcs: Seq<Seq<char>>,
) -> bool {
    match dc_outcome(old, path) {
        Err(_) => false,
        Ok(None) => new == old && recs.len() == 0 && dcs.len() == 0,
        Ok(Some(items)) => {
            &&& dcs == items
            &&& recs == seq![(path.push(old.ident@), trait_path_str(path, old.ident@), method_sigs(old.items@))]
            &&& new.attrs@.len() == domain_create_attrs(old.attrs@).len() + 1
            &&& new.attrs@.drop_last() == domain_create_attrs(old.attrs@)
            &&& is_doc_attr(new.attrs@.last(), "redIDL Auto Generated: domain_create trait. Generations are below"@)
            &&& new.items == old.items
            &&& new.ident == old.ident
            &&& new.vis == old.vis
            &&& new.generics == old.generics
            &&& new.supertraits == old.supertraits
        },
    }
}

/// A trait is processed by generating its proxy, then its domain create.
pub open spec fn trait_generated(
    old: ItemTrait,
    new: ItemTrait,
    path: Seq<Seq<char>>,
    recs: Seq<RecordView>,
    dcs: Seq<Seq<char>>,
    proxies: Seq<Seq<char>>,
) -> bool {
    exists|mid: ItemTrait|
        #![trigger proxied(old, mid, proxies)]
        proxied(old, mid, proxies) && dc_generated(mid, new, path, recs, dcs)
}

/// Whether `e` stops the domain create of `old` in the module `path`.
pub open spec fn trait_fails(old: ItemTrait, path: Seq<Seq<char>>, e: DomainCreateError) -> bool {
    exists|mid: ItemTrait, proxies: Seq<Seq<char>>|
        #![trigger proxied(old, mid, proxies)]
        proxied(old, mid, proxies) && dc_outcome(mid, path) == Err::<Option<Seq<Seq<char>>>, DomainCreateError>(e)
}

/// How the contributions of the items of a module are laid out: a trait
/// contributes records, domain creates and proxies of its own; an inline
/// module, what its own items contribute.
pub enum Trace {
    Leaf(Seq<RecordView>, Seq<Seq<char>>, Seq<Seq<char>>),
    Module(Seq<Trace>),
}

pub open spec fn trace_recs(t: Trace) -> Seq<RecordView>
    decreases t, 0int,
{
    match t {
        Trace::Leaf(r, _, _) => r,
        Trace::Module(ts) => traces_recs(ts),
    }
}

pub open spec fn traces_recs(ts: Seq<Trace>) -> Seq<RecordView>
    decreases ts, 1int,
{
    if ts.len() == 0 {
        Seq::empty()
    } else {
        traces_recs(ts.drop_last()) + trace_recs(ts[ts.len() - 1])
    }
}

pub open spec fn trace_dcs(t: Trace) -> Seq<Seq<char>>
    decreases t, 0int,
{
    match t {
        Trace::Leaf(_, d, _) => d,
        Trace::Module(ts) => traces_dcs(ts),
    }
}

pub open spec fn traces_dcs(ts: Seq<Trace>) -> Seq<Seq<char>>
    decreases ts, 1int,
{
    if ts.len() == 0 {
        Seq::empty()
    } else {
        traces_dcs(ts.drop_last()) + trace_dcs(ts[ts.len() - 1])
    }
}

/// The proxies the items of a module append to that module.
pub open spec fn traces_proxies(ts: Seq<Trace>) -> Seq<Seq<char>>
    decreases ts.len(),
{
    if ts.len() == 0 {
        Seq::empty()
    } else {
        traces_proxies(ts.drop_last()) + trace_proxies(ts[ts.len() - 1])
    }
}

/// The proxies one item appends to its module.
pub open spec fn trace_proxies(t: Trace) -> Seq<Seq<char>> {
    match t {
        Trace::Leaf(_, _, p) => p,
        Trace::Module(_) => Seq::empty(),
    }
}

/// One item of the module `path` processed: traits as above, inline modules
/// recursively (their proxies go inside them), everything else untouched.
pub open spec fn item_generated(old: Item, new: Item, path: Seq<Seq<char>>, tr: Trace) -> bool
    decreases old, 2int,
{
    match old {
        Item::Trait(t) => {
            &&& new matches Item::Trait(t2)
            &&& tr matches Trace::Leaf(r, d, p) && trait_generated(t, t2, path, r, d, p)
        },
        Item::Mod(m) => match m.content {
            Some(v) => {
                &&& new matches Item::Mod(m2)
                &&& m2.attrs == m.attrs && m2.vis == m.vis && m2.ident == m.ident
                &&& tr matches Trace::Module(ts)
                &&& m2.content matches Some(v2) && module_generated(v@, v2@, path.push(m.ident@), ts)
            },
            None => new == old && tr == Trace::Leaf(Seq::empty(), Seq::empty(), Seq::empty()),
        },
        _ => new == old && tr == Trace::Leaf(Seq::empty(), Seq::empty(), Seq::empty()),
    }
}

/// The items of a module processed one by one, in order.
pub open spec fn walk_generated(old: Seq<Item>, new: Seq<Item>, path: Seq<Seq<char>>, ts: Seq<Trace>) -> bool
    decreases old, 0int,
{
    &&& new.len() == old.len()
    &&& ts.len() == old.len()
    &&& old.len() > 0 ==> {
        &&& walk_generated(old.drop_last(), new.drop_last(), path, ts.drop_last())
        &&& item_generated(old[old.len() - 1], new[new.len() - 1], path, ts[ts.len() - 1])
    }
}

/// Whether `items` are the proxy texts `texts`, as source-text items.
pub open spec fn are_texts(items: Seq<Item>, texts: Seq<Seq<char>>) -> bool {
    &&& items.len() == texts.len()
    &&& forall|i: int| 0 <= i < items.len() ==> (#[trigger] items[i] matches Item::Verbatim(s) && s@ == texts[i])
}

/// A module's items processed: each item in order, then the proxies of its
/// traits appended.
pub open spec fn module_generated(old: Seq<Item>, new: Seq<Item>, path: Seq<Seq<char>>, ts: Seq<Trace>) -> bool
    decreases old, 1int,
{
    &&& old.len() <= new.len()
    &&& walk_generated(old, new.subrange(0, old.len() as int), path, ts)
    &&& are_texts(new.subrange(old.len() as int, new.len() as int), traces_proxies(ts))
}

/// Whether processing the items of the module `path` stops with `e` at a
/// trait, in nested modules too.
pub open spec fn module_fails(old: Seq<Item>, path: Seq<Seq<char>>, e: DomainCreateError) -> bool
    decreases old, 0int,
{
    exists|i: int| 0 <= i < old.len() && item_fails(#[trigger] old[i], path, e)
}

pub open spec fn item_fails(old: Item, path: Seq<Seq<char>>, e: DomainCreateError) -> bool
    decreases old, 1int,
{
    match old {
        Item::Trait(t) => trait_fails(t, path, e),
        Item::Mod(m) => match m.content {
            Some(v) => module_fails(v@, path.push(m.ident@), e),
            None => false,
        },
        _ => false,
    }
}

// ---------------------------------------------------------------------------
// The pass itself.

/// The records `after` holds beyond `before`.
pub open spec fn added(before: Seq<DomainCreateRecord>, after: Seq<DomainCreateRecord>) -> Seq<RecordView> {
    view_records(after).subrange(before.len() as int, after.len() as int)
}

/// `after` holds the records of `before`, then maybe more.
pub open spec fn extends(before: Seq<DomainCreateRecord>, after: Seq<DomainCreateRecord>) -> bool {
    &&& before.len() <= after.len()
    &&& view_records(after).subrange(0, before.len() as int) == view_records(before)
}

proof fn lemma_extends_trans(a: Seq<DomainCreateRecord>, b: Seq<DomainCreateRecord>, c: Seq<DomainCreateRecord>)
    requires
        extends(a, b),
        extends(b, c),
    ensures
        extends(a, c),
        added(a, c) == added(a, b) + added(b, c),
{
    let vc = view_records(c);
    let vb = view_records(b);
    assert(vc.subrange(0, a.len() as int) =~= vc.subrange(0, b.len() as int).subrange(0, a.len() as int));
    assert(vb.subrange(0, a.len() as int) =~= view_records(a));
    assert(vc.subrange(a.len() as int, b.len() as int) =~= vb.subrange(a.len() as int, b.len() as int));
    assert(added(a, c) =~= added(a, b) + added(b, c));
}

proof fn lemma_extends_refl(a: Seq<DomainCreateRecord>)
    ensures
        extends(a, a),
        added(a, a) == Seq::<RecordView>::empty(),
{
    assert(view_records(a).subrange(0, a.len() as int) =~= view_records(a));
    assert(added(a, a) =~= Seq::<RecordView>::empty());
}

proof fn lemma_dc_outcome(t: ItemTrait, path: Seq<Seq<char>>)
    ensures
        dc_outcome(t, path) == domain_create(t, path),
{
    reveal(dc_outcome);
}

fn proxy_step(t: &mut ItemTrait) -> (p: Vec<String>)
    ensures
        proxied(*old(t), *final(t), strs(p@)),
{
    let proxy = generate_interface_proxy(t);
    let mut proxies: Vec<String> = Vec::new();
    match proxy {
        Some(text) => proxies.push(text),
        None => {},
    }
    assert(strs(proxies@) =~= match proxy { Some(text) => seq![text@], None => Seq::<Seq<char>>::empty() });
    proxies
}

fn dc_step(t: &mut ItemTrait, builder: &mut DomainCreateBuilder, path: &Vec<String>) -> (r: Result<Vec<String>, DomainCreateError>)
    ensures
        extends(old(builder).domain_creates@, final(builder).domain_creates@),
        match r {
            Ok(d) => dc_generated(*old(t), *final(t), strs(path@),
                added(old(builder).domain_creates@, final(builder).domain_creates@), strs(d@)),
            Err(e) => dc_outcome(*old(t), strs(path@)) == Err::<Option<Seq<Seq<char>>>, DomainCreateError>(e),
        },
{
    let ghost b0 = builder.domain_creates@;
    proof {
        lemma_extends_refl(b0);
        lemma_dc_outcome(*t, strs(path@));
    }
    match builder.generate_domain_create(t, path) {
        Err(e) => Err(e),
        Ok(None) => {
            let d: Vec<String> = Vec::new();
            assert(strs(d@) =~= Seq::<Seq<char>>::empty());
            Ok(d)
        },
        Ok(Some(d)) => {
            let ghost vb = view_records(builder.domain_creates@);
            assert(vb.subrange(0, b0.len() as int) =~= view_records(b0));
            assert(added(b0, builder.domain_creates@) =~= seq![vb.last()]);
            Ok(d)
        },
    }
}

fn generate_trait(t: &mut ItemTrait, builder: &mut DomainCreateBuilder, path: &Vec<String>) -> (r: Result<(Vec<String>, Vec<String>), DomainCreateError>)
    ensures
        extends(old(builder).domain_creates@, final(builder).domain_creates@),
        match r {
            Ok((d, p)) => trait_generated(*old(t), *final(t), strs(path@),
                added(old(builder).domain_creates@, final(builder).domain_creates@), strs(d@), strs(p@)),
            Err(e) => trait_fails(*old(t), strs(path@), e),
        },
{
    let ghost t0 = *t;
    let proxies = proxy_step(t);
    let ghost mid = *t;
    match dc_step(t, builder, path) {
        Err(e) => {
            assert(proxied(t0, mid, strs(proxies@)));
            Err(e)
        },
        Ok(d) => {
            assert(proxied(t0, mid, strs(proxies@)));
            Ok((d, proxies))
        },
    }
}

fn generate_item(it: &mut Item, builder: &mut DomainCreateBuilder, path: &Vec<String>) -> (r: Result<(Vec<String>, Vec<String>, Ghost<Trace>), DomainCreateError>)
    ensures
        extends(old(builder).domain_creates@, final(builder).domain_creates@),
        match r {
            Ok((d, p, tr)) => {
                &&& item_generated(*old(it), *final(it), strs(path@), tr@)
                &&& trace_recs(tr@) == added(old(builder).domain_creates@, final(builder).domain_creates@)
                &&& trace_dcs(tr@) == strs(d@)
                &&& trace_proxies(tr@) == strs(p@)
            },
            Err(e) => item_fails(*old(it), strs(path@), e),
        },
    decreases *old(it), 1int,
{
    let ghost b0 = builder.domain_creates@;
    proof { lemma_extends_refl(b0); }
    let none: Vec<String> = Vec::new();
    let none2: Vec<String> = Vec::new();
    assert(strs(none@) =~= Seq::<Seq<char>>::empty());
    assert(strs(none2@) =~= Seq::<Seq<char>>::empty());
    let ghost empty_leaf = Trace::Leaf(Seq::empty(), Seq::empty(), Seq::empty());
    match it {
        Item::Trait(t) => match generate_trait(t, builder, path) {
            Ok((d, p)) => Ok((d, p, Ghost(Trace::Leaf(added(b0, builder.domain_creates@), strs(d@), strs(p@))))),
            Err(e) => Err(e),
        },
        Item::Mod(m) => {
            let mut sub = clone_strings(path);
            sub.push(m.ident.clone());
            assert(strs(sub@) =~= strs(path@).push(m.ident@));
            match &mut m.content {
                Some(v) => match generate_module_traced(v, builder, &sub) {
                    Ok((d, ts)) => Ok((d, none, Ghost(Trace::Module(ts@)))),
                    Err(e) => Err(e),
                },
                None => Ok((none2, none, Ghost(empty_leaf))),
            }
        },
        _ => Ok((none2, none, Ghost(empty_leaf))),
    }
}

proof fn lemma_walk_step(
    orig: Seq<Item>,
    before: Seq<Item>,
    after: Seq<Item>,
    i: int,
    pv: Seq<Seq<char>>,
    ts: Seq<Trace>,
    t: Trace,
)
    requires
        0 <= i < orig.len(),
        before.len() == orig.len(),
        after.len() == orig.len(),
        forall|j: int| 0 <= j < after.len() && j != i ==> after[j] == before[j],
        walk_generated(orig.subrange(0, i), before.subrange(0, i), pv, ts),
        item_generated(orig[i], after[i], pv, t),
    ensures
        walk_generated(orig.subrange(0, i + 1), after.subrange(0, i + 1), pv, ts.push(t)),
        traces_recs(ts.push(t)) == traces_recs(ts) + trace_recs(t),
        traces_dcs(ts.push(t)) == traces_dcs(ts) + trace_dcs(t),
        traces_proxies(ts.push(t)) == traces_proxies(ts) + trace_proxies(t),
{
    let a = orig.subrange(0, i + 1);
    let b = after.subrange(0, i + 1);
    let c = ts.push(t);
    assert(a.drop_last() =~= orig.subrange(0, i));
    assert(b.drop_last() =~= before.subrange(0, i));
    assert(c.drop_last() =~= ts);
    assert(a[a.len() - 1] == orig[i]);
    assert(b[b.len() - 1] == after[i]);
    assert(c[c.len() - 1] == t);
}

/// Appends `texts` to `items`, each as a source-text item.
fn append_texts(items: &mut Vec<Item>, texts: &Vec<String>)
    ensures
        final(items)@.len() == old(items)@.len() + texts@.len(),
        final(items)@.subrange(0, old(items)@.len() as int) == old(items)@,
        are_texts(final(items)@.subrange(old(items)@.len() as int, final(items)@.len() as int), strs(texts@)),
{
    let ghost walked = items@;
    let ghost n = walked.len();
    let ghost pvs = strs(texts@);
    let mut k: usize = 0;
    assert(walked.subrange(0, n as int) =~= walked);
    while k < texts.len()
        invariant
            k <= texts@.len(),
            pvs == strs(texts@),
            n == walked.len(),
            items@.len() == n + k,
            items@.subrange(0, n as int) == walked,
            are_texts(items@.subrange(n as int, items@.len() as int), pvs.subrange(0, k as int)),
        decreases texts@.len() - k,
    {
        let ghost prev = items@;
        items.push(Item::Verbatim(texts[k].clone()));
        proof {
            assert(items@.subrange(0, n as int) =~= prev.subrange(0, n as int));
            let tail = items@.subrange(n as int, items@.len() as int);
            let ptail = prev.subrange(n as int, prev.len() as int);
            assert(forall|j: int| 0 <= j < ptail.len() ==> tail[j] == #[trigger] ptail[j]);
            assert(tail.len() == k + 1);
            assert(pvs.subrange(0, k + 1).len() == k + 1);
            assert forall|j: int| 0 <= j < tail.len() implies (#[trigger] tail[j] matches Item::Verbatim(s) && s@ == pvs.subrange(0, k + 1)[j]) by {
                if j < k {
                    assert(tail[j] == ptail[j]);
                    assert(pvs.subrange(0, k + 1)[j] == pvs.subrange(0, k as int)[j]);
                } else {
                    assert(tail[j] == items@[n + k]);
                }
            }
        }
        k += 1;
    }
    assert(pvs.subrange(0, k as int) =~= pvs);
}

fn generate_module_traced(items: &mut Vec<Item>, builder: &mut DomainCreateBuilder, path: &Vec<String>) -> (r: Result<(Vec<String>, Ghost<Seq<Trace>>), DomainCreateError>)
    ensures
        extends(old(builder).domain_creates@, final(builder).domain_creates@),
        match r {
            Ok((d, ts)) => {
                &&& module_generated(old(items)@, final(items)@, strs(path@), ts@)
                &&& traces_recs(ts@) == added(old(builder).domain_creates@, final(builder).domain_creates@)
                &&& traces_dcs(ts@) == strs(d@)
            },
            Err(e) => module_fails(old(items)@, strs(path@), e),
        },
    decreases old(items)@, 0int,
{
    let ghost orig = items@;
    let ghost b0 = builder.domain_creates@;
    let ghost pv = strs(path@);
    proof { lemma_extends_refl(b0); }
    let mut dcs: Vec<String> = Vec::new();
    let mut proxies: Vec<String> = Vec::new();
    let ghost mut ts: Seq<Trace> = Seq::empty();
    let n = items.len();
    let mut i: usize = 0;
    assert(strs(dcs@) =~= Seq::<Seq<char>>::empty());
    assert(strs(proxies@) =~= Seq::<Seq<char>>::empty());
    assert(walk_generated(orig.subrange(0, 0), items@.subrange(0, 0), pv, ts));
    while i < n
        invariant
            n == orig.len(),
            i <= n,
            items@.len() == n,
            orig == old(items)@,
            pv == strs(path@),
            b0 == old(builder).domain_creates@,
            extends(b0, builder.domain_creates@),
            walk_generated(orig.subrange(0, i as int), items@.subrange(0, i as int), pv, ts),
            traces_recs(ts) == added(b0, builder.domain_creates@),
            traces_dcs(ts) == strs(dcs@),
            traces_proxies(ts) == strs(proxies@),
            forall|j: int| i <= j < n ==> #[trigger] items@[j] == orig[j],
        decreases n - i,
    {
        let ghost before = items@;
        let ghost b1 = builder.domain_creates@;
        let ghost (d1, p1) = (strs(dcs@), strs(proxies@));
        assert(decreases_to!(orig => orig[i as int]));
        match generate_item(&mut items[i], builder, path) {
            Err(e) => {
                assert(item_fails(orig[i as int], pv, e));
                proof { lemma_extends_trans(b0, b1, builder.domain_creates@); }
                return Err(e);
            },
            Ok((d, p, tr)) => {
                let ghost (d2, p2) = (strs(d@), strs(p@));
                let ghost b2 = builder.domain_creates@;
                let mut d = d;
                let mut p = p;
                dcs.append(&mut d);
                proxies.append(&mut p);
                proof {
                    lemma_extends_trans(b0, b1, b2);
                    assert(strs(dcs@) =~= d1 + d2);
                    assert(strs(proxies@) =~= p1 + p2);
                    lemma_walk_step(orig, before, items@, i as int, pv, ts, tr@);
                    ts = ts.push(tr@);
                }
            },
        }
        i += 1;
    }
    assert(orig.subrange(0, n as int) =~= orig);
    let ghost walked = items@;
    assert(walked.subrange(0, n as int) =~= walked);
    append_texts(items, &proxies);
    assert(items@.subrange(0, orig.len() as int) == walked);
    assert(walk_generated(orig, items@.subrange(0, orig.len() as int), pv, ts));
    Ok((dcs, Ghost(ts)))
}

/// Processes the items of the module `path` (see [`module_generated`]):
/// each trait gets its proxy, appended to the module, and its domain create,
/// recorded in `builder` and returned; inline modules are processed in turn.
/// Processing stops at the first domain create that fails.
pub fn generate_module(items: &mut Vec<Item>, builder: &mut DomainCreateBuilder, path: &Vec<String>) -> (r: Result<Vec<String>, DomainCreateError>)
    ensures
        extends(old(builder).domain_creates@, final(builder).domain_creates@),
        match r {
            Ok(d) => exists|ts: Seq<Trace>| {
                &&& #[trigger] module_generated(old(items)@, final(items)@, strs(path@), ts)
                &&& traces_recs(ts) == added(old(builder).domain_creates@, final(builder).domain_creates@)
                &&& traces_dcs(ts) == strs(d@)
            },
            Err(e) => module_fails(old(items)@, strs(path@), e),
        },
{
    match generate_module_traced(items, builder, path) {
        Ok((d, ts)) => {
            assert(module_generated(old(items)@, items@, strs(path@), ts@));
            Ok(d)
        },
        Err(e) => Err(e),
    }
}

// ---------------------------------------------------------------------------
// The whole pass.

/// Why the pass over an interface file fails.
pub enum GenerateError {
    /// The types of the interface cannot be resolved.
    TypeId(ResolveError),
    /// A domain create cannot be generated.
    DomainCreate(DomainCreateError),
    /// The file has no module `proxy`.
    NoProxyModule,
    /// The module `proxy` is declared without a body.
    ProxyModuleNotInline,
    /// The proxy struct cannot be generated.
    Proxy(ProxyError),
}

/// The position of the first module named `proxy` among `items`.
pub open spec fn proxy_module_index(items: Seq<Item>) -> Option<int>
    decreases items.len(),
{
    if items.len() == 0 {
        None
    } else {
        match proxy_module_index(items.drop_last()) {
            Some(k) => Some(k),
            None => if items.last() matches Item::Mod(m) && m.ident@ == "proxy"@ {
                Some(items.len() - 1)
            } else {
                None
            },
        }
    }
}

/// The domain creates of the proxy builder made from the records `recs`.
pub open spec fn builder_dcs(recs: Seq<RecordView>) -> Seq<(Seq<char>, Seq<char>, Seq<SSignature>)> {
    Seq::new(recs.len(), |i: int| (dc_name(recs[i].0), recs[i].1, recs[i].2))
}

/// The paths of the records `recs`.
pub open spec fn record_paths(recs: Seq<RecordView>) -> Seq<Seq<char>> {
    Seq::new(recs.len(), |i: int| recs[i].1)
}

/// The function that creates the init domain, for the records `recs`.
#[verifier::opaque]
pub open spec fn init_text(recs: Seq<RecordView>) -> Seq<char> {
    create_init_str(record_paths(recs))
}

/// The proxy struct and its impls, for the records `recs`.
#[verifier::opaque]
pub open spec fn proxy_texts(recs: Seq<RecordView>) -> Option<Seq<Seq<char>>> {
    proxy_items(builder_dcs(recs))
}

/// `fin` is `walked` with `texts` appended to the inline module at `k`.
pub open spec fn proxy_extended(walked: Seq<Item>, fin: Seq<Item>, k: int, texts: Seq<Seq<char>>) -> bool {
    &&& 0 <= k < walked.len()
    &&& fin.len() == walked.len()
    &&& forall|j: int| 0 <= j < fin.len() && j != k ==> #[trigger] fin[j] == walked[j]
    &&& walked[k] matches Item::Mod(m)
    &&& m.content matches Some(v)
    &&& fin[k] matches Item::Mod(m2)
    &&& m2.attrs == m.attrs && m2.vis == m.vis && m2.ident == m.ident
    &&& m2.content matches Some(v2)
    &&& v2@.len() == v@.len() + texts.len()
    &&& v2@.subrange(0, v@.len() as int) == v@
    &&& are_texts(v2@.subrange(v@.len() as int, v2@.len() as int), texts)
}

/// The items `typed` after the type identifiers were generated: the old
/// `typeid` modules removed and the new one appended.
pub open spec fn typeid_done(old: Seq<Item>, typed: Seq<Item>, tys: Seq<Seq<char>>) -> bool {
    &&& typed.len() == without_typeid(old).len() + 1
    &&& typed.subrange(0, typed.len() - 1) == without_typeid(old)
    &&& is_generated_typeid(typed.last(), typeid_module(tys))
}

/// What the pass does once the type identifiers were generated: the items
/// `typed` are processed as the module `interface`; the domain creates,
/// then the function that creates the init domain, are returned; the
/// proxy struct is appended to the first module `proxy`.
pub open spec fn generated_from(typed: Seq<Item>, fin: Seq<Item>, r: Result<Seq<Seq<char>>, GenerateError>) -> bool {
    let path = seq!["interface"@];
    match r {
        Ok(dcs) => exists|walked: Seq<Item>, ts: Seq<Trace>|
            #![trigger module_generated(typed, walked, path, ts)]
            {
                &&& module_generated(typed, walked, path, ts)
                &&& dcs == traces_dcs(ts).push(init_text(traces_recs(ts)))
                &&& proxy_module_index(walked) matches Some(k)
                &&& proxy_texts(traces_recs(ts)) matches Some(texts)
                &&& proxy_extended(walked, fin, k, texts)
            },
        Err(GenerateError::DomainCreate(e)) => module_fails(typed, path, e),
        Err(GenerateError::NoProxyModule) => exists|walked: Seq<Item>, ts: Seq<Trace>|
            #![trigger module_generated(typed, walked, path, ts)]
            module_generated(typed, walked, path, ts) && proxy_module_index(walked) is None,
        Err(GenerateError::ProxyModuleNotInline) => exists|walked: Seq<Item>, ts: Seq<Trace>|
            #![trigger module_generated(typed, walked, path, ts)]
            {
                &&& module_generated(typed, walked, path, ts)
                &&& proxy_module_index(walked) matches Some(k)
                &&& walked[k] matches Item::Mod(m) && m.content is None
            },
        Err(GenerateError::Proxy(_)) => exists|walked: Seq<Item>, ts: Seq<Trace>|
            #![trigger module_generated(typed, walked, path, ts)]
            {
                &&& module_generated(typed, walked, path, ts)
                &&& proxy_module_index(walked) matches Some(k)
                &&& walked[k] matches Item::Mod(m) && m.content is Some
                &&& proxy_texts(traces_recs(ts)) is None
            },
        Err(GenerateError::TypeId(_)) => false,
    }
}

pub open spec fn view_result(r: Result<Vec<String>, GenerateError>) -> Result<Seq<Seq<char>>, GenerateError> {
    match r {
        Ok(v) => Ok(strs(v@)),
        Err(e) => Err(e),
    }
}

/// The position of the first module named `proxy`.
fn find_proxy_module(items: &Vec<Item>) -> (r: Option<usize>)
    ensures
        match r {
            Some(k) => proxy_module_index(items@) == Some(k as int),
            None => proxy_module_index(items@) is None,
        },
{
    let mut i: usize = 0;
    assert(items@.subrange(0, 0).len() == 0);
    while i < items.len()
        invariant
            i <= items@.len(),
            proxy_module_index(items@.subrange(0, i as int)) is None,
        decreases items@.len() - i,
    {
        let ghost cur = items@.subrange(0, i + 1);
        assert(cur.drop_last() =~= items@.subrange(0, i as int));
        let hit = match &items[i] {
            Item::Mod(m) => eq_lit(&m.ident, "proxy"),
            _ => false,
        };
        if hit {
            proof { lemma_proxy_index_prefix(items@, i as int + 1); }
            return Some(i);
        }
        i += 1;
    }
    assert(items@.subrange(0, i as int) =~= items@);
    None
}

proof fn lemma_proxy_index_bounds(items: Seq<Item>)
    ensures
        proxy_module_index(items) matches Some(k) ==> 0 <= k < items.len() && items[k] is Mod,
    decreases items.len(),
{
    if items.len() > 0 {
        lemma_proxy_index_bounds(items.drop_last());
        if let Some(k) = proxy_module_index(items.drop_last()) {
            assert(items[k] == items.drop_last()[k]);
        }
    }
}

proof fn lemma_proxy_index_prefix(items: Seq<Item>, k: int)
    requires
        0 <= k <= items.len(),
        proxy_module_index(items.subrange(0, k)) is Some,
    ensures
        proxy_module_index(items) == proxy_module_index(items.subrange(0, k)),
    decreases items.len() - k,
{
    if k == items.len() {
        assert(items.subrange(0, k) =~= items);
    } else {
        let next = items.subrange(0, k + 1);
        assert(next.drop_last() =~= items.subrange(0, k));
        lemma_proxy_index_prefix(items, k + 1);
    }
}

fn init_of(builder: &DomainCreateBuilder) -> (r: String)
    ensures
        r@ == init_text(view_records(builder.domain_creates@)),
{
    let r = builder.generate_create_init();
    proof {
        reveal(init_text);
        assert(record_paths(view_records(builder.domain_creates@)) =~= Seq::new(builder.domain_creates@.len(), |i: int| builder.domain_creates@[i].path@));
    }
    r
}

fn proxy_of(records: Vec<DomainCreateRecord>) -> (r: Result<Vec<String>, ProxyError>)
    ensures
        match proxy_texts(view_records(records@)) {
            Some(t) => r matches Ok(v) && strs(v@) == t,
            None => r is Err,
        },
{
    let ghost recs = view_records(records@);
    let pb = ProxyBuilder::new(records);
    proof {
        reveal(proxy_texts);
        assert(view_dcs(pb.domain_creates@) =~= builder_dcs(recs));
    }
    pb.generate_proxy()
}

/// Processes the items of a file whose type identifiers were generated
/// (see [`generated_from`]).
fn generate_after_typeid(items: &mut Vec<Item>) -> (r: Result<Vec<String>, GenerateError>)
    ensures
        generated_from(old(items)@, final(items)@, view_result(r)),
{
    let ghost typed = items@;
    let mut path: Vec<String> = Vec::new();
    path.push(owned("interface"));
    let ghost pv = seq!["interface"@];
    assert(strs(path@) =~= pv);
    let mut builder = DomainCreateBuilder::new();
    let ghost b0 = builder.domain_creates@;
    let (mut dcs, tsg) = match generate_module_traced(items, &mut builder, &path) {
        Err(e) => {
            return Err(GenerateError::DomainCreate(e));
        },
        Ok(d) => d,
    };
    let ghost walked = items@;
    let ghost ts = tsg@;
    proof {
        assert(b0.len() == 0);
        assert(added(b0, builder.domain_creates@) =~= view_records(builder.domain_creates@));
        assert(module_generated(typed, walked, pv, ts));
    }
    let init = init_of(&builder);
    let ghost d0 = strs(dcs@);
    dcs.push(init);
    assert(strs(dcs@) =~= d0.push(init@));
    let k = match find_proxy_module(items) {
        None => {
            return Err(GenerateError::NoProxyModule);
        },
        Some(k) => k,
    };
    proof { lemma_proxy_index_bounds(items@); }
    let ghost recs = view_records(builder.domain_creates@);
    let records = builder.take();
    match &mut items[k] {
        Item::Mod(m) => match &mut m.content {
            Some(v) => {
                let texts = match proxy_of(records) {
                    Err(e) => {
                        return Err(GenerateError::Proxy(e));
                    },
                    Ok(t) => t,
                };
                append_texts(v, &texts);
            },
            None => {
                return Err(GenerateError::ProxyModuleNotInline);
            },
        },
        _ => {
            return Err(GenerateError::NoProxyModule);
        },
    }
    proof {
        assert(proxy_extended(walked, items@, k as int, proxy_texts(recs).unwrap()));
    }
    Ok(dcs)
}

/// Runs the pass over an interface file (see [`generated_from`]): the type
/// identifiers are generated, the file is processed as the module
/// `interface`, and the proxy struct goes into the module `proxy`. Returns
/// the domain creates, then the function that creates the init domain.
pub fn generate(ast: &mut File) -> (r: Result<Vec<String>, GenerateError>)
    ensures
        match typeid_types(old(ast).items@) {
            Err(e) => r == Err::<Vec<String>, GenerateError>(GenerateError::TypeId(e)) && *final(ast) == *old(ast),
            Ok(tys) => {
                &&& final(ast).attrs == old(ast).attrs
                &&& exists|typed: Seq<Item>|
                    #![trigger typeid_done(old(ast).items@, typed, tys)]
                    typeid_done(old(ast).items@, typed, tys) && generated_from(typed, final(ast).items@, view_result(r))
            },
        },
{
    match generate_typeid(ast) {
        Err(e) => {
            return Err(GenerateError::TypeId(e));
        },
        Ok(()) => {},
    }
    let ghost typed = ast.items@;
    proof {
        match typeid_types(old(ast).items@) {
            Ok(tys) => assert(typeid_done(old(ast).items@, typed, tys)),
            Err(_) => {},
        }
    }
    generate_after_typeid(&mut ast.items)
}

// ---------------------------------------------------------------------------
// What macro expansion leaves in a file.

/// `#![feature(..., prelude_import, ...)]`
pub open spec fn is_prelude_feature(a: Attribute) -> bool {
    &&& a.meta matches Some(Meta::List(p, nested))
    &&& path_is_ident(p@, "feature"@)
    &&& exists|i: int| 0 <= i < nested@.len()
        && (#[trigger] nested@[i] matches NestedMeta::Meta(m) && path_is_ident(meta_path(m), "prelude_import"@))
}

/// The prelude import and the crates expansion brings in.
pub open spec fn is_expansion_leftover(it: Item) -> bool {
    match it {
        Item::Use(u) => has_attr(u.attrs@, "prelude_import"@),
        Item::ExternCrate(_, id) => id@ == "compiler_builtins"@ || id@ == "core"@
            || id@ == "interface_attribute_placeholder"@,
        _ => false,
    }
}

pub open spec fn kept_attrs(attrs: Seq<Attribute>) -> Seq<Attribute>
    decreases attrs.len(),
{
    if attrs.len() == 0 {
        Seq::empty()
    } else if is_prelude_feature(attrs.last()) {
        kept_attrs(attrs.drop_last())
    } else {
        kept_attrs(attrs.drop_last()).push(attrs.last())
    }
}

pub open spec fn kept_items(items: Seq<Item>) -> Seq<Item>
    decreases items.len(),
{
    if items.len() == 0 {
        Seq::empty()
    } else if is_expansion_leftover(items.last()) {
        kept_items(items.drop_last())
    } else {
        kept_items(items.drop_last()).push(items.last())
    }
}

/// Whether `a` is `#![feature(..., prelude_import, ...)]`.
pub fn prelude_feature(a: &Attribute) -> (r: bool)
    ensures
        r == is_prelude_feature(*a),
{
    match &a.meta {
        Some(Meta::List(p, nested)) => {
            if !path_is(p, "feature") {
                return false;
            }
            let mut i: usize = 0;
            while i < nested.len()
                invariant
                    i <= nested@.len(),
                    a.meta == Some(Meta::List(*p, *nested)),
                    path_is_ident(p@, "feature"@),
                    forall|j: int| 0 <= j < i ==> !(#[trigger] nested@[j] matches NestedMeta::Meta(m) && path_is_ident(meta_path(m), "prelude_import"@)),
                decreases nested@.len() - i,
            {
                if let NestedMeta::Meta(m) = &nested[i] {
                    let hit = match m {
                        Meta::Path(q) => path_is(q, "prelude_import"),
                        Meta::List(q, _) => path_is(q, "prelude_import"),
                        Meta::NameValue(q, _) => path_is(q, "prelude_import"),
                    };
                    if hit {
                        assert(path_is_ident(meta_path(*m), "prelude_import"@));
                        assert(nested@[i as int] matches NestedMeta::Meta(mm) && path_is_ident(meta_path(mm), "prelude_import"@));
                        return true;
                    }
                }
                i += 1;
            }
            false
        },
        _ => false,
    }
}

fn expansion_leftover(it: &Item) -> (r: bool)
    ensures
        r == is_expansion_leftover(*it),
{
    match it {
        Item::Use(u) => has_attribute(&u.attrs, "prelude_import"),
        Item::ExternCrate(_, id) => eq_lit(id, "compiler_builtins") || eq_lit(id, "core")
            || eq_lit(id, "interface_attribute_placeholder"),
        _ => false,
    }
}

/// Removes what macro expansion leaves in a file: the `prelude_import`
/// feature, the prelude import and the crates expansion brings in.
pub fn remove_prelude_and_placeholder(ast: &mut File)
    ensures
        final(ast).attrs@ == kept_attrs(old(ast).attrs@),
        final(ast).items@ == kept_items(old(ast).items@),
{
    let ghost orig = ast.attrs@;
    let ghost n = orig.len();
    let mut rest: Vec<Attribute> = Vec::new();
    std::mem::swap(&mut rest, &mut ast.attrs);
    let mut kept: Vec<Attribute> = Vec::new();
    assert(rest@.subrange(0, rest@.len() as int) =~= orig.subrange(0, n as int));
    assert(kept@ =~= kept_attrs(orig.subrange(0, 0)));
    while rest.len() > 0
        invariant
            rest@.len() <= n,
            n == orig.len(),
            rest@ == orig.subrange(n - rest@.len(), n as int),
            kept@ == kept_attrs(orig.subrange(0, n - rest@.len())),
        decreases rest@.len(),
    {
        let ghost k = n - rest@.len();
        let a = rest.remove(0);
        assert(a == orig[k]);
        let ghost cur = orig.subrange(0, k + 1);
        assert(cur.drop_last() =~= orig.subrange(0, k));
        assert(cur.last() == orig[k]);
        if !prelude_feature(&a) {
            kept.push(a);
        }
        assert(rest@ =~= orig.subrange(n - rest@.len(), n as int));
    }
    assert(orig.subrange(0, n as int) =~= orig);
    ast.attrs = kept;

    let ghost origi = ast.items@;
    let ghost m = origi.len();
    let mut resti: Vec<Item> = Vec::new();
    std::mem::swap(&mut resti, &mut ast.items);
    let mut kepti: Vec<Item> = Vec::new();
    assert(resti@.subrange(0, resti@.len() as int) =~= origi.subrange(0, m as int));
    assert(kepti@ =~= kept_items(origi.subrange(0, 0)));
    while resti.len() > 0
        invariant
            resti@.len() <= m,
            m == origi.len(),
            resti@ == origi.subrange(m - resti@.len(), m as int),
            kepti@ == kept_items(origi.subrange(0, m - resti@.len())),
        decreases resti@.len(),
    {
        let ghost k = m - resti@.len();
        let it = resti.remove(0);
        assert(it == origi[k]);
        let ghost cur = origi.subrange(0, k + 1);
        assert(cur.drop_last() =~= origi.subrange(0, k));
        assert(cur.last() == origi[k]);
        if !expansion_leftover(&it) {
            kepti.push(it);
        }
        assert(resti@ =~= origi.subrange(m - resti@.len(), m as int));
    }
    assert(origi.subrange(0, m as int) =~= origi);
    ast.items = kepti;
}

} // verus!
