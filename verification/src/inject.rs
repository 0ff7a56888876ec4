//! Preparing an expanded interface file for the proxy macros: the prelude
//! import expansion left is removed, and each inline module gets the
//! imports the proxy macros need.

use vstd::prelude::*;
use crate::ast::{Attribute, File, Item, ItemUse, UseTree, Visibility};
use crate::attrs::{has_attr, has_attribute};
use crate::generate::{kept_attrs, prelude_feature};
use crate::text::owned;

verus! {

/// A `use` item that carries the `prelude_import` attribute.
pub open spec fn is_prelude_use(it: Item) -> bool {
    it matches Item::Use(u) && has_attr(u.attrs@, "prelude_import"@)
}

pub open spec fn kept_non_prelude(items: Seq<Item>) -> Seq<Item>
    decreases items.len(),
{
    if items.len() == 0 {
        Seq::empty()
    } else if is_prelude_use(items.last()) {
        kept_non_prelude(items.drop_last())
    } else {
        kept_non_prelude(items.drop_last()).push(items.last())
    }
}

/// A plain, private `use` item without attributes, of the tree `t`.
pub open spec fn plain_use(it: Item, t: spec_fn(UseTree) -> bool) -> bool {
    &&& it matches Item::Use(u)
    &&& u.attrs@.len() == 0
    &&& u.vis is Inherited
    &&& !u.leading_colon
    &&& t(u.tree)
}

/// `use codegen_proc::generate_proxy as interface;`
pub open spec fn is_proxy_macro_import(t: UseTree) -> bool {
    &&& t matches UseTree::Path(a, rest)
    &&& a@ == "codegen_proc"@
    &&& *rest matches UseTree::Rename(b, c)
    &&& b@ == "generate_proxy"@
    &&& c@ == "interface"@
}

/// `use unwind::trampoline;`
pub open spec fn is_trampoline_import(t: UseTree) -> bool {
    &&& t matches UseTree::Path(a, rest)
    &&& a@ == "unwind"@
    &&& *rest matches UseTree::Name(b)
    &&& b@ == "trampoline"@
}

/// `use libsyscalls::syscalls::{sys_get_current_domain_id, sys_update_current_domain_id, sys_discard_cont};`
pub open spec fn is_syscalls_import(t: UseTree) -> bool {
    &&& t matches UseTree::Path(a, rest)
    &&& a@ == "libsyscalls"@
    &&& *rest matches UseTree::Path(b, group)
    &&& b@ == "syscalls"@
    &&& *group matches UseTree::Group(g)
    &&& g@.len() == 3
    &&& g@[0] matches UseTree::Name(n0) && n0@ == "sys_get_current_domain_id"@
    &&& g@[1] matches UseTree::Name(n1) && n1@ == "sys_update_current_domain_id"@
    &&& g@[2] matches UseTree::Name(n2) && n2@ == "sys_discard_cont"@
}

/// The three imports the proxy macros need, in order.
pub open spec fn are_injected_imports(items: Seq<Item>) -> bool {
    &&& items.len() == 3
    &&& plain_use(items[0], |t: UseTree| is_proxy_macro_import(t))
    &&& plain_use(items[1], |t: UseTree| is_trampoline_import(t))
    &&& plain_use(items[2], |t: UseTree| is_syscalls_import(t))
}

/// `new` is `old` with the imports injected into each inline module, nested
/// ones too; every other item is left as it is.
pub open spec fn item_injected(old: Item, new: Item) -> bool
    decreases old, 1int,
{
    match old {
        Item::Mod(m) => match m.content {
            Some(v) => {
                &&& new matches Item::Mod(m2)
                &&& m2.attrs == m.attrs && m2.vis == m.vis && m2.ident == m.ident
                &&& m2.content matches Some(v2)
                &&& v2@.len() == v@.len() + 3
                &&& are_injected_imports(v2@.subrange(0, 3))
                &&& items_injected(v@, v2@.subrange(3, v2@.len() as int))
            },
            None => new == old,
        },
        _ => new == old,
    }
}

pub open spec fn items_injected(old: Seq<Item>, new: Seq<Item>) -> bool
    decreases old, 0int,
{
    &&& old.len() == new.len()
    &&& old.len() > 0 ==> {
        &&& items_injected(old.drop_last(), new.drop_last())
        &&& item_injected(old[old.len() - 1], new[new.len() - 1])
    }
}

fn plain_import(tree: UseTree) -> (r: Item)
    ensures
        r matches Item::Use(u) && u.attrs@.len() == 0 && u.vis is Inherited && !u.leading_colon && u.tree == tree,
{
    Item::Use(ItemUse { attrs: Vec::new(), vis: Visibility::Inherited, leading_colon: false, tree })
}

fn path_tree(a: &str, rest: UseTree) -> (r: UseTree)
    ensures
        r matches UseTree::Path(x, y) && x@ == a@ && *y == rest,
{
    UseTree::Path(owned(a), Box::new(rest))
}

/// The three imports the proxy macros need.
fn injected_imports() -> (r: Vec<Item>)
    ensures
        are_injected_imports(r@),
{
    let mut r: Vec<Item> = Vec::new();
    let t0 = path_tree("codegen_proc", UseTree::Rename(owned("generate_proxy"), owned("interface")));
    r.push(plain_import(t0));
    let t1 = path_tree("unwind", UseTree::Name(owned("trampoline")));
    r.push(plain_import(t1));
    let mut g: Vec<UseTree> = Vec::new();
    g.push(UseTree::Name(owned("sys_get_current_domain_id")));
    g.push(UseTree::Name(owned("sys_update_current_domain_id")));
    g.push(UseTree::Name(owned("sys_discard_cont")));
    let t2 = path_tree("libsyscalls", path_tree("syscalls", UseTree::Group(g)));
    r.push(plain_import(t2));
    r
}

/// Injects the imports the proxy macros need into `item`, when it is an
/// inline module, and into the inline modules nested in it.
pub fn inject_import_recursive(item: &mut Item)
    ensures
        item_injected(*old(item), *final(item)),
    decreases *old(item), 1int,
{
    match item {
        Item::Mod(m) => match &mut m.content {
            Some(content) => {
                inject_into_items(content);
                let ghost done = content@;
                let mut imports = injected_imports();
                let ghost iv = imports@;
                imports.append(content);
                std::mem::swap(&mut imports, content);
                proof {
                    assert(content@.subrange(0, 3) =~= iv);
                    assert(content@.subrange(3, content@.len() as int) =~= done);
                }
            },
            None => {},
        },
        _ => {},
    }
}

fn inject_into_items(items: &mut Vec<Item>)
    ensures
        items_injected(old(items)@, final(items)@),
    decreases old(items)@, 0int,
{
    let ghost orig = items@;
    let mut i: usize = 0;
    assert(items_injected(orig.subrange(0, 0), items@.subrange(0, 0)));
    while i < items.len()
        invariant
            i <= items@.len(),
            items@.len() == orig.len(),
            orig == old(items)@,
            items_injected(orig.subrange(0, i as int), items@.subrange(0, i as int)),
            forall|j: int| i <= j < orig.len() ==> #[trigger] items@[j] == orig[j],
        decreases orig.len() - i,
    {
        let ghost before = items@;
        assert(decreases_to!(orig => orig[i as int]));
        inject_import_recursive(&mut items[i]);
        proof {
            let a = orig.subrange(0, i + 1);
            let b = items@.subrange(0, i + 1);
            assert(a.drop_last() =~= orig.subrange(0, i as int));
            assert(b.drop_last() =~= before.subrange(0, i as int));
            assert(before.subrange(0, i as int) =~= items@.subrange(0, i as int));
        }
        i += 1;
    }
    assert(orig.subrange(0, i as int) =~= orig);
    assert(items@.subrange(0, i as int) =~= items@);
}

/// Prepares an expanded interface file for the proxy macros: removes the
/// `prelude_import` feature and the prelude import, then injects the
/// imports into every inline module.
pub fn prepare_for_proxy_macros(ast: &mut File)
    ensures
        final(ast).attrs@ == kept_attrs(old(ast).attrs@),
        items_injected(kept_non_prelude(old(ast).items@), final(ast).items@),
{
    strip_prelude_imports(ast);
    inject_into_items(&mut ast.items);
}

fn prelude_use(it: &Item) -> (r: bool)
    ensures
        r == is_prelude_use(*it),
{
    match it {
        Item::Use(u) => has_attribute(&u.attrs, "prelude_import"),
        _ => false,
    }
}

/// Removes the `prelude_import` feature and the prelude import.
pub fn strip_prelude_imports(ast: &mut File)
    ensures
        final(ast).attrs@ == kept_attrs(old(ast).attrs@),
        final(ast).items@ == kept_non_prelude(old(ast).items@),
{
    let ghost orig = ast.attrs@;
    let ghost n = orig.len();
    let mut rest: Vec<Attribute> = Vec::new();
    std::mem::swap(&mut rest, &mut ast.attrs);
    let mut kept: Vec<Attribute> = Vec::new();
    assert(rest@.subrange(0, rest@.len() as int) =~= orig.subrange(0, n as int));
    assert(kept@ =~= kept_attrs(orig.subrange(0, 0)));
    while rest.len() > 0
        invariant
            rest@.len() <= n,
            n == orig.len(),
            rest@ == orig.subrange(n - rest@.len(), n as int),
            kept@ == kept_attrs(orig.subrange(0, n - rest@.len())),
        decreases rest@.len(),
    {
        let ghost k = n - rest@.len();
        let a = rest.remove(0);
        assert(a == orig[k]);
        let ghost cur = orig.subrange(0, k + 1);
        assert(cur.drop_last() =~= orig.subrange(0, k));
        assert(cur.last() == orig[k]);
        if !prelude_feature(&a) {
            kept.push(a);
        }
        assert(rest@ =~= orig.subrange(n - rest@.len(), n as int));
    }
    assert(orig.subrange(0, n as int) =~= orig);
    ast.attrs = kept;

    let ghost origi = ast.items@;
    let ghost m = origi.len();
    let mut resti: Vec<Item> = Vec::new();
    std::mem::swap(&mut resti, &mut ast.items);
    let mut kepti: Vec<Item> = Vec::new();
    assert(resti@.subrange(0, resti@.len() as int) =~= origi.subrange(0, m as int));
    assert(kepti@ =~= kept_non_prelude(origi.subrange(0, 0)));
    while resti.len() > 0
        invariant
            resti@.len() <= m,
            m == origi.len(),
            resti@ == origi.subrange(m - resti@.len(), m as int),
            kepti@ == kept_non_prelude(origi.subrange(0, m - resti@.len())),
        decreases resti@.len(),
    {
        let ghost k = m - resti@.len();
        let it = resti.remove(0);
        assert(it == origi[k]);
        let ghost cur = origi.subrange(0, k + 1);
        assert(cur.drop_last() =~= origi.subrange(0, k));
        assert(cur.last() == origi[k]);
        if !prelude_use(&it) {
            kepti.push(it);
        }
        assert(resti@ =~= origi.subrange(m - resti@.len(), m as int));
    }
    assert(origi.subrange(0, m as int) =~= origi);
    ast.items = kepti;
}

} // verus!
