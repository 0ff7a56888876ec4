//! The symbols of an IDL file: which names each inline module declares
//! (modules, type definitions, `use` imports), the builtin names every module
//! sees, and where `use` imports lead.

use vstd::prelude::*;
use crate::ast::{Item, ItemStruct, UseTree, Visibility};
use crate::text::{clone_strings, eq_lit, owned, strs};

verus! {

/// Why a file's symbols cannot be resolved. The compiler refuses the file.
pub enum ResolveError {
    /// A module declares one name twice.
    DuplicateSymbol,
    /// A `use` imports with `*`.
    GlobImport,
    /// An inline module is not public.
    PrivateModule,
    /// A name on a path is not declared where the path looks for it.
    SymbolNotFound,
    /// A path goes through or to a name that is not public.
    PrivateSymbol,
    /// A path continues after a name that is not a module.
    NotAModule,
    /// `use` imports lead round in a circle.
    UseCycle,
    /// A path that should name a type names a module.
    ExpectedType,
    /// Expanding a generic struct reaches the same struct again.
    RecursiveStruct,
    /// A type or generic argument of a form the compiler does not handle.
    Unsupported,
    /// A literal where a type belongs, or the other way round.
    KindMismatch,
    /// A generic struct used with a number of arguments that differs from its parameters.
    GenericArity,
    /// Generic arguments on a path segment other than the last.
    InnerGenericArguments,
    /// A path where a literal is needed (an array length, a const argument)
    /// that does not name a const parameter of the struct being expanded.
    NotALiteral,
}

pub open spec fn is_public(v: Visibility) -> bool {
    !(v is Inherited)
}

/// What a name in a module stands for.
pub enum Sym {
    /// A module, by its path below the crate root, and whether it is public.
    Module(Seq<Seq<char>>, bool),
    /// A struct, enum, type alias or union: its absolute path, whether it is
    /// public, the struct when it is one, and the path of its module.
    Def(Seq<Seq<char>>, bool, Option<ItemStruct>, Seq<Seq<char>>),
    /// A `use` import: whether it is public, whether its path starts with
    /// `::`, the imported path, and the path of the declaring module.
    Use(bool, bool, Seq<Seq<char>>, Seq<Seq<char>>),
    /// A builtin type such as `u8`.
    Builtin(Seq<char>),
}

pub open spec fn sym_public(s: Sym) -> bool {
    match s {
        Sym::Module(_, p) => p,
        Sym::Def(_, p, _, _) => p,
        Sym::Use(p, _, _, _) => p,
        Sym::Builtin(_) => false,
    }
}

/// The content of the first inline module named `name` among `items`.
pub open spec fn child_module(items: Seq<Item>, name: Seq<char>) -> Option<(Seq<Item>, bool)>
    decreases items.len(),
{
    if items.len() == 0 {
        None
    } else {
        match items[0] {
            Item::Mod(m) => if m.ident@ == name && m.content is Some {
                Some((m.content->0@, is_public(m.vis)))
            } else {
                child_module(items.drop_first(), name)
            },
            _ => child_module(items.drop_first(), name),
        }
    }
}

/// The items of the inline module at `mpath` below the root items.
pub open spec fn module_items(root: Seq<Item>, mpath: Seq<Seq<char>>) -> Option<Seq<Item>>
    decreases mpath.len(),
{
    if mpath.len() == 0 {
        Some(root)
    } else {
        match child_module(root, mpath[0]) {
            Some((sub, _)) => module_items(sub, mpath.drop_first()),
            None => None,
        }
    }
}

/// Whether the module at `mpath` is public; the crate root is.
pub open spec fn module_public(root: Seq<Item>, mpath: Seq<Seq<char>>) -> bool {
    if mpath.len() == 0 {
        true
    } else {
        match module_items(root, mpath.drop_last()) {
            Some(parent) => match child_module(parent, mpath.last()) {
                Some((_, p)) => p,
                None => false,
            },
            None => false,
        }
    }
}

/// The names a `use` tree imports, each with the path it imports, in order.
pub open spec fn use_leaves(t: UseTree, prefix: Seq<Seq<char>>) -> Seq<(Seq<char>, Seq<Seq<char>>)>
    decreases t,
{
    match t {
        UseTree::Path(id, sub) => use_leaves(*sub, prefix.push(id@)),
        UseTree::Name(id) => seq![(id@, prefix.push(id@))],
        UseTree::Rename(id, new) => seq![(new@, prefix.push(id@))],
        UseTree::Glob => Seq::empty(),
        UseTree::Group(ts) => use_leaves_seq(ts@, prefix),
    }
}

pub open spec fn use_leaves_seq(ts: Seq<UseTree>, prefix: Seq<Seq<char>>) -> Seq<(Seq<char>, Seq<Seq<char>>)>
    decreases ts,
{
    if ts.len() == 0 {
        Seq::empty()
    } else {
        use_leaves_seq(ts.drop_last(), prefix) + use_leaves(ts.last(), prefix)
    }
}

pub open spec fn use_has_glob(t: UseTree) -> bool
    decreases t,
{
    match t {
        UseTree::Path(_, sub) => use_has_glob(*sub),
        UseTree::Glob => true,
        UseTree::Group(ts) => exists|i: int| 0 <= i < ts@.len() && use_has_glob(#[trigger] ts@[i]),
        _ => false,
    }
}

/// The path imported under `name`, from the first leaf with that name.
pub open spec fn leaf_lookup(leaves: Seq<(Seq<char>, Seq<Seq<char>>)>, name: Seq<char>) -> Option<Seq<Seq<char>>>
    decreases leaves.len(),
{
    if leaves.len() == 0 {
        None
    } else if leaves[0].0 == name {
        Some(leaves[0].1)
    } else {
        leaf_lookup(leaves.drop_first(), name)
    }
}

pub open spec fn def_path(mpath: Seq<Seq<char>>, name: Seq<char>) -> Seq<Seq<char>> {
    seq!["crate"@] + mpath.push(name)
}

/// What `item`, in the module at `mpath`, declares under `name`.
pub open spec fn decl_of(item: Item, mpath: Seq<Seq<char>>, name: Seq<char>) -> Option<Sym> {
    match item {
        Item::Mod(m) => if m.content is Some && m.ident@ == name {
            Some(Sym::Module(mpath.push(name), is_public(m.vis)))
        } else {
            None
        },
        Item::Struct(s) => if s.ident@ == name {
            Some(Sym::Def(def_path(mpath, name), is_public(s.vis), Some(s), mpath))
        } else {
            None
        },
        Item::Enum(_, vis, id, _) => if id@ == name {
            Some(Sym::Def(def_path(mpath, name), is_public(vis), None, mpath))
        } else {
            None
        },
        Item::Type(_, vis, id, _, _) => if id@ == name {
            Some(Sym::Def(def_path(mpath, name), is_public(vis), None, mpath))
        } else {
            None
        },
        Item::Union(_, vis, id, _, _) => if id@ == name {
            Some(Sym::Def(def_path(mpath, name), is_public(vis), None, mpath))
        } else {
            None
        },
        Item::Use(u) => match leaf_lookup(use_leaves(u.tree, Seq::empty()), name) {
            Some(path) => Some(Sym::Use(is_public(u.vis), u.leading_colon, path, mpath)),
            None => None,
        },
        _ => None,
    }
}

/// The first declaration of `name` among `items`.
pub open spec fn lookup_in_items(items: Seq<Item>, mpath: Seq<Seq<char>>, name: Seq<char>) -> Option<Sym>
    decreases items.len(),
{
    if items.len() == 0 {
        None
    } else {
        match decl_of(items[0], mpath, name) {
            Some(s) => Some(s),
            None => lookup_in_items(items.drop_first(), mpath, name),
        }
    }
}

pub open spec fn is_builtin(name: Seq<char>) -> bool {
    ||| name == "bool"@
    ||| name == "u8"@
    ||| name == "u16"@
    ||| name == "u32"@
    ||| name == "u64"@
    ||| name == "i8"@
    ||| name == "i16"@
    ||| name == "i32"@
    ||| name == "i64"@
    ||| name == "usize"@
    ||| name == "Option"@
}

/// What `name` stands for in the module at `mpath`: a declaration of that
/// module first, then a builtin type, then `self`, `super` and `crate`.
pub open spec fn lookup(root: Seq<Item>, mpath: Seq<Seq<char>>, name: Seq<char>) -> Option<Sym> {
    match module_items(root, mpath) {
        None => None,
        Some(items) => match lookup_in_items(items, mpath, name) {
            Some(s) => Some(s),
            None => if is_builtin(name) {
                Some(Sym::Builtin(name))
            } else if name == "self"@ {
                Some(Sym::Module(mpath, module_public(root, mpath)))
            } else if name == "super"@ {
                if mpath.len() == 0 {
                    Some(Sym::Module(mpath, true))
                } else {
                    Some(Sym::Module(mpath.drop_last(), module_public(root, mpath.drop_last())))
                }
            } else if name == "crate"@ {
                Some(Sym::Module(Seq::empty(), true))
            } else {
                None
            },
        },
    }
}

// ---------------------------------------------------------------------------
// Executable lookups.

/// A symbol as the executable lookups hand it out.
pub enum Symbol<'a> {
    Module(Vec<String>, bool),
    Def(Vec<String>, bool, Option<&'a ItemStruct>, Vec<String>),
    Use(bool, bool, Vec<String>, Vec<String>),
    Builtin(String),
}

pub open spec fn view_symbol(s: Symbol) -> Sym {
    match s {
        Symbol::Module(mp, p) => Sym::Module(strs(mp@), p),
        Symbol::Def(path, p, st, mp) => Sym::Def(
            strs(path@),
            p,
            match st {
                Some(x) => Some(*x),
                None => None,
            },
            strs(mp@),
        ),
        Symbol::Use(p, lc, path, mp) => Sym::Use(p, lc, strs(path@), strs(mp@)),
        Symbol::Builtin(n) => Sym::Builtin(n@),
    }
}

fn vis_public(v: &Visibility) -> (r: bool)
    ensures
        r == is_public(*v),
{
    match v {
        Visibility::Inherited => false,
        _ => true,
    }
}

fn find_child_module<'a>(items: &'a Vec<Item>, name: &String) -> (r: Option<(&'a Vec<Item>, bool)>)
    ensures
        match r {
            Some((v, p)) => child_module(items@, name@) == Some((v@, p)),
            None => child_module(items@, name@) is None,
        },
{
    let mut i: usize = 0;
    assert(items@.subrange(0, items@.len() as int) == items@);
    while i < items.len()
        invariant
            i <= items@.len(),
            child_module(items@, name@) == child_module(items@.subrange(i as int, items@.len() as int), name@),
        decreases items@.len() - i,
    {
        assert(items@.subrange(i as int, items@.len() as int).drop_first() == items@.subrange(i + 1, items@.len() as int));
        match &items[i] {
            Item::Mod(m) => {
                if m.ident == *name {
                    match &m.content {
                        Some(content) => {
                            return Some((content, vis_public(&m.vis)));
                        },
                        None => {},
                    }
                }
            },
            _ => {},
        }
        i += 1;
    }
    None
}

/// The items of the inline module at `mpath`.
pub fn find_module_items<'a>(root: &'a Vec<Item>, mpath: &Vec<String>) -> (r: Option<&'a Vec<Item>>)
    ensures
        match r {
            Some(v) => module_items(root@, strs(mpath@)) == Some(v@),
            None => module_items(root@, strs(mpath@)) is None,
        },
{
    let mut cur: &Vec<Item> = root;
    let mut i: usize = 0;
    assert(strs(mpath@).subrange(0, mpath@.len() as int) == strs(mpath@));
    while i < mpath.len()
        invariant
            i <= mpath@.len(),
            module_items(root@, strs(mpath@)) == module_items(cur@, strs(mpath@).subrange(i as int, mpath@.len() as int)),
        decreases mpath@.len() - i,
    {
        let ghost rest = strs(mpath@).subrange(i as int, mpath@.len() as int);
        assert(rest[0] == mpath@[i as int]@);
        assert(rest.drop_first() == strs(mpath@).subrange(i + 1, mpath@.len() as int));
        match find_child_module(cur, &mpath[i]) {
            Some((sub, _)) => {
                cur = sub;
            },
            None => {
                return None;
            },
        }
        i += 1;
    }
    assert(strs(mpath@).subrange(i as int, mpath@.len() as int).len() == 0);
    Some(cur)
}

/// Whether the module at `mpath` is public.
pub fn find_module_public(root: &Vec<Item>, mpath: &Vec<String>) -> (r: bool)
    ensures
        r == module_public(root@, strs(mpath@)),
{
    if mpath.len() == 0 {
        return true;
    }
    let mut parent_path = clone_strings(mpath);
    assert(strs(parent_path@).len() == strs(mpath@).len());
    let last = parent_path.pop().unwrap();
    assert(strs(parent_path@) =~= strs(mpath@).drop_last());
    match find_module_items(root, &parent_path) {
        Some(parent) => match find_child_module(parent, &last) {
            Some((_, p)) => p,
            None => false,
        },
        None => false,
    }
}

/// Appends to `out` the names `t` imports, each with its path.
pub fn collect_use_leaves(t: &UseTree, prefix: &Vec<String>, out: &mut Vec<(String, Vec<String>)>)
    ensures
        leaves_view(final(out)@) == leaves_view(old(out)@) + use_leaves(*t, strs(prefix@)),
    decreases t,
{
    match t {
        UseTree::Path(id, sub) => {
            let mut p = clone_strings(prefix);
            p.push(id.clone());
            assert(strs(p@) =~= strs(prefix@).push(id@));
            collect_use_leaves(sub, &p, out);
        },
        UseTree::Name(id) => {
            let mut p = clone_strings(prefix);
            p.push(id.clone());
            assert(strs(p@) =~= strs(prefix@).push(id@));
            let ghost o = out@;
            out.push((id.clone(), p));
            assert(leaves_view(out@) =~= leaves_view(o) + use_leaves(*t, strs(prefix@)));
        },
        UseTree::Rename(id, new) => {
            let mut p = clone_strings(prefix);
            p.push(id.clone());
            assert(strs(p@) =~= strs(prefix@).push(id@));
            let ghost o = out@;
            out.push((new.clone(), p));
            assert(leaves_view(out@) =~= leaves_view(o) + use_leaves(*t, strs(prefix@)));
        },
        UseTree::Glob => {
            assert(leaves_view(out@) =~= leaves_view(out@) + use_leaves(*t, strs(prefix@)));
        },
        UseTree::Group(ts) => {
            let ghost o = out@;
            let mut i: usize = 0;
            while i < ts.len()
                invariant
                    i <= ts@.len(),
                    *t == UseTree::Group(*ts),
                    leaves_view(out@) == leaves_view(o) + use_leaves_seq(ts@.subrange(0, i as int), strs(prefix@)),
                decreases ts@.len() - i,
            {
                assert(ts@.subrange(0, i + 1).drop_last() == ts@.subrange(0, i as int));
                assert(decreases_to!(*t => t->Group_0));
                assert(decreases_to!(ts => ts@));
                collect_use_leaves(&ts[i], prefix, out);
                assert(leaves_view(out@) =~= leaves_view(o) + use_leaves_seq(ts@.subrange(0, i + 1), strs(prefix@)));
                i += 1;
            }
            assert(ts@.subrange(0, i as int) == ts@);
        },
    }
}

pub open spec fn leaves_view(v: Seq<(String, Vec<String>)>) -> Seq<(Seq<char>, Seq<Seq<char>>)> {
    Seq::new(v.len(), |i: int| (v[i].0@, strs(v[i].1@)))
}

/// Whether `t` imports with `*` anywhere.
pub fn has_glob(t: &UseTree) -> (r: bool)
    ensures
        r == use_has_glob(*t),
    decreases t,
{
    match t {
        UseTree::Path(_, sub) => has_glob(sub),
        UseTree::Glob => true,
        UseTree::Group(ts) => {
            let mut i: usize = 0;
            while i < ts.len()
                invariant
                    i <= ts@.len(),
                    *t == UseTree::Group(*ts),
                    forall|j: int| 0 <= j < i ==> !use_has_glob(#[trigger] ts@[j]),
                decreases ts@.len() - i,
            {
                assert(decreases_to!(*t => t->Group_0));
                assert(decreases_to!(ts => ts@));
                if has_glob(&ts[i]) {
                    assert(use_has_glob(ts@[i as int]));
                    return true;
                }
                i += 1;
            }
            false
        },
        _ => false,
    }
}

} // verus!

verus! {

// ---------------------------------------------------------------------------
// Executable lookup of a name in a module.

fn def_path_exec(mpath: &Vec<String>, name: &String) -> (r: Vec<String>)
    ensures
        strs(r@) == def_path(strs(mpath@), name@),
{
    let mut r: Vec<String> = Vec::new();
    r.push(owned("crate"));
    let mut i: usize = 0;
    while i < mpath.len()
        invariant
            i <= mpath@.len(),
            r@.len() == i + 1,
            r@[0]@ == "crate"@,
            forall|j: int| 0 <= j < i ==> #[trigger] r@[j + 1]@ == mpath@[j]@,
        decreases mpath@.len() - i,
    {
        r.push(mpath[i].clone());
        i += 1;
    }
    r.push(name.clone());
    let ghost d = def_path(strs(mpath@), name@);
    assert forall|j: int| 0 <= j < r@.len() implies #[trigger] strs(r@)[j] == d[j] by {
        if 0 < j < r@.len() - 1 {
            assert(r@[(j - 1) + 1]@ == mpath@[j - 1]@);
        }
    }
    assert(strs(r@) =~= d);
    r
}

/// What `item`, in the module at `mpath`, declares under `name`.
fn symbol_of_item<'a>(item: &'a Item, mpath: &Vec<String>, name: &String) -> (r: Option<Symbol<'a>>)
    ensures
        match r {
            Some(s) => decl_of(*item, strs(mpath@), name@) == Some(view_symbol(s)),
            None => decl_of(*item, strs(mpath@), name@) is None,
        },
{
    match item {
        Item::Mod(m) => {
            if m.content.is_some() && m.ident == *name {
                let mut p = clone_strings(mpath);
                p.push(name.clone());
                assert(strs(p@) =~= strs(mpath@).push(name@));
                Some(Symbol::Module(p, vis_public(&m.vis)))
            } else {
                None
            }
        },
        Item::Struct(s) => {
            if s.ident == *name {
                Some(Symbol::Def(def_path_exec(mpath, name), vis_public(&s.vis), Some(s), clone_strings(mpath)))
            } else {
                None
            }
        },
        Item::Enum(_, vis, id, _) => {
            if *id == *name {
                Some(Symbol::Def(def_path_exec(mpath, name), vis_public(vis), None, clone_strings(mpath)))
            } else {
                None
            }
        },
        Item::Type(_, vis, id, _, _) => {
            if *id == *name {
                Some(Symbol::Def(def_path_exec(mpath, name), vis_public(vis), None, clone_strings(mpath)))
            } else {
                None
            }
        },
        Item::Union(_, vis, id, _, _) => {
            if *id == *name {
                Some(Symbol::Def(def_path_exec(mpath, name), vis_public(vis), None, clone_strings(mpath)))
            } else {
                None
            }
        },
        Item::Use(u) => {
            let mut leaves: Vec<(String, Vec<String>)> = Vec::new();
            let empty: Vec<String> = Vec::new();
            assert(strs(empty@) =~= Seq::<Seq<char>>::empty());
            collect_use_leaves(&u.tree, &empty, &mut leaves);
            assert(leaves_view(leaves@) =~= use_leaves(u.tree, Seq::empty()));
            match find_leaf(&leaves, name) {
                Some(path) => Some(Symbol::Use(vis_public(&u.vis), u.leading_colon, path, clone_strings(mpath))),
                None => None,
            }
        },
        _ => None,
    }
}

fn find_leaf(leaves: &Vec<(String, Vec<String>)>, name: &String) -> (r: Option<Vec<String>>)
    ensures
        match r {
            Some(p) => leaf_lookup(leaves_view(leaves@), name@) == Some(strs(p@)),
            None => leaf_lookup(leaves_view(leaves@), name@) is None,
        },
{
    let ghost lv = leaves_view(leaves@);
    let mut i: usize = 0;
    assert(lv.subrange(0, lv.len() as int) == lv);
    while i < leaves.len()
        invariant
            i <= leaves@.len(),
            lv == leaves_view(leaves@),
            leaf_lookup(lv, name@) == leaf_lookup(lv.subrange(i as int, lv.len() as int), name@),
        decreases leaves@.len() - i,
    {
        assert(lv.subrange(i as int, lv.len() as int).drop_first() == lv.subrange(i + 1, lv.len() as int));
        if leaves[i].0 == *name {
            return Some(clone_strings(&leaves[i].1));
        }
        i += 1;
    }
    None
}

fn find_in_items<'a>(items: &'a Vec<Item>, mpath: &Vec<String>, name: &String) -> (r: Option<Symbol<'a>>)
    ensures
        match r {
            Some(s) => lookup_in_items(items@, strs(mpath@), name@) == Some(view_symbol(s)),
            None => lookup_in_items(items@, strs(mpath@), name@) is None,
        },
{
    let mut i: usize = 0;
    assert(items@.subrange(0, items@.len() as int) == items@);
    while i < items.len()
        invariant
            i <= items@.len(),
            lookup_in_items(items@, strs(mpath@), name@)
                == lookup_in_items(items@.subrange(i as int, items@.len() as int), strs(mpath@), name@),
        decreases items@.len() - i,
    {
        assert(items@.subrange(i as int, items@.len() as int).drop_first() == items@.subrange(i + 1, items@.len() as int));
        match symbol_of_item(&items[i], mpath, name) {
            Some(s) => {
                return Some(s);
            },
            None => {},
        }
        i += 1;
    }
    None
}

fn builtin(name: &String) -> (r: bool)
    ensures
        r == is_builtin(name@),
{
    eq_lit(name, "bool") || eq_lit(name, "u8") || eq_lit(name, "u16") || eq_lit(name, "u32")
        || eq_lit(name, "u64") || eq_lit(name, "i8") || eq_lit(name, "i16") || eq_lit(name, "i32")
        || eq_lit(name, "i64") || eq_lit(name, "usize") || eq_lit(name, "Option")
}

/// What `name` stands for in the module at `mpath` (see [`lookup`]).
pub fn find_symbol<'a>(root: &'a Vec<Item>, mpath: &Vec<String>, name: &String) -> (r: Option<Symbol<'a>>)
    ensures
        match r {
            Some(s) => lookup(root@, strs(mpath@), name@) == Some(view_symbol(s)),
            None => lookup(root@, strs(mpath@), name@) is None,
        },
{
    match find_module_items(root, mpath) {
        None => None,
        Some(items) => match find_in_items(items, mpath, name) {
            Some(s) => Some(s),
            None => {
                if builtin(name) {
                    let r = Symbol::Builtin(name.clone());
                    assert(view_symbol(r) == Sym::Builtin(name@));
                    Some(r)
                } else if eq_lit(name, "self") {
                    let r = Symbol::Module(clone_strings(mpath), find_module_public(root, mpath));
                    assert(view_symbol(r) == Sym::Module(strs(mpath@), module_public(root@, strs(mpath@))));
                    Some(r)
                } else if eq_lit(name, "super") {
                    if mpath.len() == 0 {
                        let e: Vec<String> = Vec::new();
                        assert(strs(e@) =~= strs(mpath@));
                        Some(Symbol::Module(e, true))
                    } else {
                        let mut parent = clone_strings(mpath);
                        assert(strs(parent@).len() == strs(mpath@).len());
                        parent.pop();
                        assert(strs(parent@) =~= strs(mpath@).drop_last());
                        let p = find_module_public(root, &parent);
                        Some(Symbol::Module(parent, p))
                    }
                } else if eq_lit(name, "crate") {
                    let e: Vec<String> = Vec::new();
                    assert(strs(e@) =~= Seq::<Seq<char>>::empty());
                    Some(Symbol::Module(e, true))
                } else {
                    None
                }
            },
        },
    }
}

} // verus!

verus! {

// ---------------------------------------------------------------------------
// Following names to what they denote.

/// What a name denotes once `use` imports are followed.
pub enum Target {
    /// A module, by its path below the crate root.
    Module(Seq<Seq<char>>),
    /// A type, by the path it is written with; for a struct of the file, the
    /// struct and the path of the module that defines it.
    Type(Seq<Seq<char>>, Option<(ItemStruct, Seq<Seq<char>>)>),
}

/// Whether a `use` path is relative to this crate (starts with `crate` or
/// `super`); any other `use` names something of another crate.
pub open spec fn relative_use(path: Seq<Seq<char>>) -> bool {
    path.len() > 0 && (path[0] == "crate"@ || path[0] == "super"@)
}

/// What the symbol `s` denotes. A relative `use` is followed through the
/// modules of the file; `fuel` bounds how many imports are followed in a row.
pub open spec fn target_of(root: Seq<Item>, s: Sym, fuel: nat) -> Result<Target, ResolveError>
    decreases fuel, 0int,
{
    match s {
        Sym::Module(mp, _) => Ok(Target::Module(mp)),
        Sym::Def(p, _, st, mp) => Ok(
            Target::Type(
                p,
                match st {
                    Some(x) => Some((x, mp)),
                    None => None,
                },
            ),
        ),
        Sym::Builtin(n) => Ok(Target::Type(seq![n], None)),
        Sym::Use(_, lc, path, mp) => if !relative_use(path) {
            Ok(Target::Type(path, None))
        } else if fuel == 0 {
            Err(ResolveError::UseCycle)
        } else {
            walk_use(root, if lc { Seq::empty() } else { mp }, path, 0, (fuel - 1) as nat)
        },
    }
}

/// Follows the segments `segs[i..]` of a `use` path from the module `cur`:
/// each segment must be declared and public, and each but the last must
/// denote a module.
pub open spec fn walk_use(root: Seq<Item>, cur: Seq<Seq<char>>, segs: Seq<Seq<char>>, i: int, fuel: nat) -> Result<Target, ResolveError>
    decreases fuel, segs.len() - i,
{
    if i < 0 || i >= segs.len() {
        Ok(Target::Module(cur))
    } else {
        match lookup(root, cur, segs[i]) {
            None => Err(ResolveError::SymbolNotFound),
            Some(s) => if !sym_public(s) {
                Err(ResolveError::PrivateSymbol)
            } else {
                match target_of(root, s, fuel) {
                    Err(e) => Err(e),
                    Ok(t) => if i + 1 == segs.len() {
                        Ok(t)
                    } else {
                        match t {
                            Target::Module(m) => walk_use(root, m, segs, i + 1, fuel),
                            Target::Type(_, _) => Err(ResolveError::NotAModule),
                        }
                    },
                }
            },
        }
    }
}

/// A target as the executable code hands it out.
pub enum Tgt<'a> {
    Module(Vec<String>),
    Type(Vec<String>, Option<(&'a ItemStruct, Vec<String>)>),
}

pub open spec fn view_tgt(t: Tgt) -> Target {
    match t {
        Tgt::Module(m) => Target::Module(strs(m@)),
        Tgt::Type(p, st) => Target::Type(
            strs(p@),
            match st {
                Some((s, mp)) => Some((*s, strs(mp@))),
                None => None,
            },
        ),
    }
}

pub open spec fn view_tgt_result(r: Result<Tgt, ResolveError>) -> Result<Target, ResolveError> {
    match r {
        Ok(t) => Ok(view_tgt(t)),
        Err(e) => Err(e),
    }
}

/// What the symbol `s` denotes (see [`target_of`]).
pub fn resolve_symbol<'a>(root: &'a Vec<Item>, s: Symbol<'a>, fuel: u64) -> (r: Result<Tgt<'a>, ResolveError>)
    ensures
        view_tgt_result(r) == target_of(root@, view_symbol(s), fuel as nat),
    decreases fuel, 0int,
{
    match s {
        Symbol::Module(mp, _) => Ok(Tgt::Module(mp)),
        Symbol::Def(p, _, st, mp) => match st {
            Some(x) => Ok(Tgt::Type(p, Some((x, mp)))),
            None => Ok(Tgt::Type(p, None)),
        },
        Symbol::Builtin(n) => {
            let ghost nv = n@;
            let mut p: Vec<String> = Vec::new();
            p.push(n);
            assert(strs(p@) =~= seq![nv]);
            Ok(Tgt::Type(p, None))
        },
        Symbol::Use(_, lc, path, mp) => {
            let relative = path.len() > 0 && (eq_lit(&path[0], "crate") || eq_lit(&path[0], "super"));
            assert(relative == relative_use(strs(path@)));
            if !relative {
                Ok(Tgt::Type(path, None))
            } else if fuel == 0 {
                Err(ResolveError::UseCycle)
            } else {
                let start = if lc {
                    let e: Vec<String> = Vec::new();
                    assert(strs(e@) =~= Seq::<Seq<char>>::empty());
                    e
                } else {
                    mp
                };
                walk_use_from(root, start, &path, 0, fuel - 1)
            }
        },
    }
}

fn walk_use_from<'a>(root: &'a Vec<Item>, cur: Vec<String>, segs: &Vec<String>, i: usize, fuel: u64) -> (r: Result<Tgt<'a>, ResolveError>)
    requires
        i < segs@.len(),
    ensures
        view_tgt_result(r) == walk_use(root@, strs(cur@), strs(segs@), i as int, fuel as nat),
    decreases fuel, segs@.len() - i,
{
    match find_symbol(root, &cur, &segs[i]) {
        None => Err(ResolveError::SymbolNotFound),
        Some(s) => {
            let public = match &s {
                Symbol::Module(_, p) => *p,
                Symbol::Def(_, p, _, _) => *p,
                Symbol::Use(p, _, _, _) => *p,
                Symbol::Builtin(_) => false,
            };
            assert(public == sym_public(view_symbol(s)));
            if !public {
                Err(ResolveError::PrivateSymbol)
            } else {
                match resolve_symbol(root, s, fuel) {
                    Err(e) => Err(e),
                    Ok(t) => {
                        if i == segs.len() - 1 {
                            Ok(t)
                        } else {
                            match t {
                                Tgt::Module(m) => walk_use_from(root, m, segs, i + 1, fuel),
                                Tgt::Type(_, _) => Err(ResolveError::NotAModule),
                            }
                        }
                    },
                }
            }
        },
    }
}

} // verus!

verus! {

// ---------------------------------------------------------------------------
// Checks on the symbols of a file.

pub open spec fn leaf_names(l: Seq<(Seq<char>, Seq<Seq<char>>)>) -> Seq<Seq<char>> {
    Seq::new(l.len(), |i: int| l[i].0)
}

/// The names `item` declares in its module, in order.
pub open spec fn declared_names(item: Item) -> Seq<Seq<char>> {
    match item {
        Item::Mod(m) => if m.content is Some {
            seq![m.ident@]
        } else {
            Seq::empty()
        },
        Item::Struct(s) => seq![s.ident@],
        Item::Enum(_, _, id, _) => seq![id@],
        Item::Type(_, _, id, _, _) => seq![id@],
        Item::Union(_, _, id, _, _) => seq![id@],
        Item::Use(u) => leaf_names(use_leaves(u.tree, Seq::empty())),
        _ => Seq::empty(),
    }
}

/// The names `items` declare, in order.
pub open spec fn names_of(items: Seq<Item>) -> Seq<Seq<char>>
    decreases items.len(),
{
    if items.len() == 0 {
        Seq::empty()
    } else {
        names_of(items.drop_last()) + declared_names(items.last())
    }
}

/// Whether a name of `new` occurs in `seen` or earlier in `new`.
pub open spec fn repeats(seen: Seq<Seq<char>>, new: Seq<Seq<char>>) -> bool {
    exists|i: int| 0 <= i < new.len() && #[trigger] (seen + new.subrange(0, i)).contains(new[i])
}

/// The first error in declaring the names of `items` and of the modules in
/// them, item by item: a `use` with `*`, or a name declared twice in one module.
pub open spec fn decl_error(items: Seq<Item>) -> Option<ResolveError>
    decreases items,
{
    if items.len() == 0 {
        None
    } else {
        let prev = decl_error(items.subrange(0, items.len() - 1));
        if prev is Some {
            prev
        } else {
            let it = items[items.len() - 1];
            if it matches Item::Use(u) && use_has_glob(u.tree) {
                Some(ResolveError::GlobImport)
            } else if repeats(names_of(items.subrange(0, items.len() - 1)), declared_names(it)) {
                Some(ResolveError::DuplicateSymbol)
            } else {
                match it {
                    Item::Mod(m) => match m.content {
                        Some(c) => decl_error(c@),
                        None => None,
                    },
                    _ => None,
                }
            }
        }
    }
}

/// The first of `leaves`, imported by one `use` in the module `mpath`, that
/// cannot be followed, with its error.
pub open spec fn leaf_error(root: Seq<Item>, leaves: Seq<(Seq<char>, Seq<Seq<char>>)>, public: bool, lc: bool, mpath: Seq<Seq<char>>, fuel: nat) -> Option<ResolveError>
    decreases leaves.len(),
{
    if leaves.len() == 0 {
        None
    } else {
        match leaf_error(root, leaves.drop_last(), public, lc, mpath, fuel) {
            Some(e) => Some(e),
            None => match target_of(root, Sym::Use(public, lc, leaves.last().1, mpath), fuel) {
                Err(e) => Some(e),
                Ok(_) => None,
            },
        }
    }
}

/// The first error in the modules and imports of `items`, the items of the
/// module `mpath`, item by item: a module that is not public, or an import
/// that cannot be followed.
pub open spec fn link_error(root: Seq<Item>, items: Seq<Item>, mpath: Seq<Seq<char>>, fuel: nat) -> Option<ResolveError>
    decreases items,
{
    if items.len() == 0 {
        None
    } else {
        let prev = link_error(root, items.subrange(0, items.len() - 1), mpath, fuel);
        if prev is Some {
            prev
        } else {
            match items[items.len() - 1] {
                Item::Mod(m) => match m.content {
                    Some(c) => if !is_public(m.vis) {
                        Some(ResolveError::PrivateModule)
                    } else {
                        link_error(root, c@, mpath.push(m.ident@), fuel)
                    },
                    None => None,
                },
                Item::Use(u) => leaf_error(root, use_leaves(u.tree, Seq::empty()), is_public(u.vis), u.leading_colon, mpath, fuel),
                _ => None,
            }
        }
    }
}

/// A bound on how long any chain of imports or of nested struct expansions
/// in the file can be: its items, nested ones included, and the names its
/// `use` items import.
pub open spec fn weight(items: Seq<Item>) -> nat
    decreases items,
{
    if items.len() == 0 {
        0
    } else {
        weight(items.subrange(0, items.len() - 1)) + match items[items.len() - 1] {
            Item::Mod(m) => match m.content {
                Some(c) => 1 + weight(c@),
                None => 1,
            },
            Item::Use(u) => 1 + use_leaves(u.tree, Seq::empty()).len(),
            _ => 1,
        }
    }
}

/// `n`, or `u64::MAX` where `n` is larger.
pub open spec fn saturate(n: nat) -> nat {
    if n > u64::MAX { u64::MAX as nat } else { n }
}

/// The fuel the resolver runs with on the file `root`.
pub open spec fn fuel_of(root: Seq<Item>) -> nat {
    saturate(weight(root))
}

} // verus!

verus! {

fn contains_str(v: &Vec<String>, s: &String) -> (r: bool)
    ensures
        r == strs(v@).contains(s@),
{
    let mut i: usize = 0;
    while i < v.len()
        invariant
            i <= v@.len(),
            forall|j: int| 0 <= j < i ==> strs(v@)[j] != s@,
        decreases v@.len() - i,
    {
        if v[i] == *s {
            assert(strs(v@)[i as int] == s@);
            return true;
        }
        i += 1;
    }
    false
}

fn has_repeat(seen: &Vec<String>, new: &Vec<String>) -> (r: bool)
    ensures
        r == repeats(strs(seen@), strs(new@)),
{
    let ghost sv = strs(seen@);
    let ghost nv = strs(new@);
    let mut acc = clone_strings(seen);
    let mut k: usize = 0;
    assert(sv + nv.subrange(0, 0) =~= sv);
    while k < new.len()
        invariant
            k <= new@.len(),
            sv == strs(seen@),
            nv == strs(new@),
            strs(acc@) == sv + nv.subrange(0, k as int),
            forall|j: int| 0 <= j < k ==> !(#[trigger] (sv + nv.subrange(0, j)).contains(nv[j])),
        decreases new@.len() - k,
    {
        if contains_str(&acc, &new[k]) {
            assert((sv + nv.subrange(0, k as int)).contains(nv[k as int]));
            return true;
        }
        let ghost before = strs(acc@);
        acc.push(new[k].clone());
        assert(strs(acc@) =~= before.push(nv[k as int]));
        assert(sv + nv.subrange(0, k + 1) =~= (sv + nv.subrange(0, k as int)).push(nv[k as int]));
        k += 1;
    }
    false
}

fn leaf_names_exec(leaves: &Vec<(String, Vec<String>)>) -> (r: Vec<String>)
    ensures
        strs(r@) == leaf_names(leaves_view(leaves@)),
{
    let mut r: Vec<String> = Vec::new();
    let mut i: usize = 0;
    while i < leaves.len()
        invariant
            i <= leaves@.len(),
            r@.len() == i,
            forall|j: int| 0 <= j < i ==> #[trigger] r@[j]@ == leaves@[j].0@,
        decreases leaves@.len() - i,
    {
        r.push(leaves[i].0.clone());
        i += 1;
    }
    assert(strs(r@) =~= leaf_names(leaves_view(leaves@)));
    r
}

fn one(s: &String) -> (r: Vec<String>)
    ensures
        strs(r@) == seq![s@],
{
    let mut r: Vec<String> = Vec::new();
    r.push(s.clone());
    assert(strs(r@) =~= seq![s@]);
    r
}

fn tree_leaves(t: &UseTree) -> (r: Vec<(String, Vec<String>)>)
    ensures
        leaves_view(r@) == use_leaves(*t, Seq::empty()),
{
    let mut leaves: Vec<(String, Vec<String>)> = Vec::new();
    let empty: Vec<String> = Vec::new();
    assert(strs(empty@) =~= Seq::<Seq<char>>::empty());
    assert(leaves_view(leaves@) =~= Seq::<(Seq<char>, Seq<Seq<char>>)>::empty());
    collect_use_leaves(t, &empty, &mut leaves);
    assert(leaves_view(leaves@) =~= use_leaves(*t, Seq::empty()));
    leaves
}

fn item_names(item: &Item) -> (r: Vec<String>)
    ensures
        strs(r@) == declared_names(*item),
{
    match item {
        Item::Mod(m) => if m.content.is_some() {
            one(&m.ident)
        } else {
            let e: Vec<String> = Vec::new();
            assert(strs(e@) =~= Seq::<Seq<char>>::empty());
            e
        },
        Item::Struct(s) => one(&s.ident),
        Item::Enum(_, _, id, _) => one(id),
        Item::Type(_, _, id, _, _) => one(id),
        Item::Union(_, _, id, _, _) => one(id),
        Item::Use(u) => leaf_names_exec(&tree_leaves(&u.tree)),
        _ => {
            let e: Vec<String> = Vec::new();
            assert(strs(e@) =~= Seq::<Seq<char>>::empty());
            e
        },
    }
}

/// The first error in declaring the names of `items` (see [`decl_error`]).
pub fn check_declarations(items: &Vec<Item>) -> (r: Option<ResolveError>)
    ensures
        r == decl_error(items@),
    decreases items,
{
    let mut seen: Vec<String> = Vec::new();
    let mut i: usize = 0;
    assert(strs(seen@) =~= names_of(items@.subrange(0, 0)));
    while i < items.len()
        invariant
            i <= items@.len(),
            decl_error(items@.subrange(0, i as int)) is None,
            strs(seen@) == names_of(items@.subrange(0, i as int)),
        decreases items@.len() - i,
    {
        let ghost pre = items@.subrange(0, i as int);
        let ghost cur = items@.subrange(0, i + 1);
        assert(cur.subrange(0, cur.len() - 1) =~= pre);
        assert(cur[cur.len() - 1] == items@[i as int]);
        assert(cur.drop_last() =~= pre);
        let item = &items[i];
        match item {
            Item::Use(u) => {
                if has_glob(&u.tree) {
                    assert(items@.subrange(0, items@.len() as int) =~= items@);
                    proof { lemma_decl_error_prefix(items@, i as int + 1); }
                    return Some(ResolveError::GlobImport);
                }
            },
            _ => {},
        }
        let names = item_names(item);
        if has_repeat(&seen, &names) {
            proof { lemma_decl_error_prefix(items@, i as int + 1); }
            return Some(ResolveError::DuplicateSymbol);
        }
        match item {
            Item::Mod(m) => match &m.content {
                Some(c) => {
                    assert(decreases_to!(items => items@));
                    let sub = check_declarations(c);
                    if sub.is_some() {
                        proof { lemma_decl_error_prefix(items@, i as int + 1); }
                        return sub;
                    }
                },
                None => {},
            },
            _ => {},
        }
        let mut k: usize = 0;
        let ghost before = strs(seen@);
        while k < names.len()
            invariant
                k <= names@.len(),
                strs(seen@) == before + strs(names@).subrange(0, k as int),
            decreases names@.len() - k,
        {
            let ghost b = strs(seen@);
            seen.push(names[k].clone());
            assert(strs(seen@) =~= b.push(strs(names@)[k as int]));
            assert(before + strs(names@).subrange(0, k + 1) =~= (before + strs(names@).subrange(0, k as int)).push(strs(names@)[k as int]));
            k += 1;
        }
        assert(strs(names@).subrange(0, names@.len() as int) =~= strs(names@));
        i += 1;
    }
    assert(items@.subrange(0, i as int) =~= items@);
    None
}

/// Once a prefix of `items` has an error, the whole has the same one.
proof fn lemma_decl_error_prefix(items: Seq<Item>, n: int)
    requires
        0 <= n <= items.len(),
        decl_error(items.subrange(0, n)) is Some,
    ensures
        decl_error(items) == decl_error(items.subrange(0, n)),
    decreases items.len(),
{
    if n < items.len() {
        let shorter = items.subrange(0, items.len() - 1);
        assert(shorter.subrange(0, n) =~= items.subrange(0, n));
        lemma_decl_error_prefix(shorter, n);
    } else {
        assert(items.subrange(0, n) =~= items);
    }
}

} // verus!

verus! {

fn check_leaves(root: &Vec<Item>, leaves: &Vec<(String, Vec<String>)>, public: bool, lc: bool, mpath: &Vec<String>, fuel: u64) -> (r: Option<ResolveError>)
    ensures
        r == leaf_error(root@, leaves_view(leaves@), public, lc, strs(mpath@), fuel as nat),
{
    let ghost lv = leaves_view(leaves@);
    let mut i: usize = 0;
    assert(lv.subrange(0, 0).len() == 0);
    while i < leaves.len()
        invariant
            i <= leaves@.len(),
            lv == leaves_view(leaves@),
            leaf_error(root@, lv.subrange(0, i as int), public, lc, strs(mpath@), fuel as nat) is None,
        decreases leaves@.len() - i,
    {
        let ghost cur = lv.subrange(0, i + 1);
        assert(cur.drop_last() =~= lv.subrange(0, i as int));
        let s = Symbol::Use(public, lc, clone_strings(&leaves[i].1), clone_strings(mpath));
        match resolve_symbol(root, s, fuel) {
            Err(e) => {
                proof { lemma_leaf_error_prefix(root@, lv, public, lc, strs(mpath@), fuel as nat, i + 1); }
                return Some(e);
            },
            Ok(_) => {},
        }
        i += 1;
    }
    assert(lv.subrange(0, i as int) =~= lv);
    None
}

proof fn lemma_leaf_error_prefix(root: Seq<Item>, leaves: Seq<(Seq<char>, Seq<Seq<char>>)>, public: bool, lc: bool, mpath: Seq<Seq<char>>, fuel: nat, n: int)
    requires
        0 <= n <= leaves.len(),
        leaf_error(root, leaves.subrange(0, n), public, lc, mpath, fuel) is Some,
    ensures
        leaf_error(root, leaves, public, lc, mpath, fuel) == leaf_error(root, leaves.subrange(0, n), public, lc, mpath, fuel),
    decreases leaves.len(),
{
    if n < leaves.len() {
        let shorter = leaves.drop_last();
        assert(shorter.subrange(0, n) =~= leaves.subrange(0, n));
        lemma_leaf_error_prefix(root, shorter, public, lc, mpath, fuel, n);
    } else {
        assert(leaves.subrange(0, n) =~= leaves);
    }
}

/// The first error in the modules and imports of `items`, the items of the
/// module `mpath` (see [`link_error`]).
pub fn check_links(root: &Vec<Item>, items: &Vec<Item>, mpath: &Vec<String>, fuel: u64) -> (r: Option<ResolveError>)
    ensures
        r == link_error(root@, items@, strs(mpath@), fuel as nat),
    decreases items,
{
    let mut i: usize = 0;
    assert(items@.subrange(0, 0).len() == 0);
    while i < items.len()
        invariant
            i <= items@.len(),
            link_error(root@, items@.subrange(0, i as int), strs(mpath@), fuel as nat) is None,
        decreases items@.len() - i,
    {
        let ghost cur = items@.subrange(0, i + 1);
        assert(cur.subrange(0, cur.len() - 1) =~= items@.subrange(0, i as int));
        assert(cur[cur.len() - 1] == items@[i as int]);
        let err = match &items[i] {
            Item::Mod(m) => match &m.content {
                Some(c) => {
                    if !vis_public(&m.vis) {
                        Some(ResolveError::PrivateModule)
                    } else {
                        let mut sub = clone_strings(mpath);
                        sub.push(m.ident.clone());
                        assert(strs(sub@) =~= strs(mpath@).push(m.ident@));
                        assert(decreases_to!(items => items@));
                        check_links(root, c, &sub, fuel)
                    }
                },
                None => None,
            },
            Item::Use(u) => check_leaves(root, &tree_leaves(&u.tree), vis_public(&u.vis), u.leading_colon, mpath, fuel),
            _ => None,
        };
        if err.is_some() {
            proof { lemma_link_error_prefix(root@, items@, strs(mpath@), fuel as nat, i + 1); }
            return err;
        }
        i += 1;
    }
    assert(items@.subrange(0, i as int) =~= items@);
    None
}

proof fn lemma_link_error_prefix(root: Seq<Item>, items: Seq<Item>, mpath: Seq<Seq<char>>, fuel: nat, n: int)
    requires
        0 <= n <= items.len(),
        link_error(root, items.subrange(0, n), mpath, fuel) is Some,
    ensures
        link_error(root, items, mpath, fuel) == link_error(root, items.subrange(0, n), mpath, fuel),
    decreases items.len(),
{
    if n < items.len() {
        let shorter = items.subrange(0, items.len() - 1);
        assert(shorter.subrange(0, n) =~= items.subrange(0, n));
        lemma_link_error_prefix(root, shorter, mpath, fuel, n);
    } else {
        assert(items.subrange(0, n) =~= items);
    }
}

fn add_saturating(a: u64, b: u64) -> (r: u64)
    ensures
        r == saturate((a + b) as nat),
{
    if a > u64::MAX - b {
        u64::MAX
    } else {
        a + b
    }
}

/// The fuel for `items` (see [`weight`]), saturated at `u64::MAX`.
pub fn weight_of(items: &Vec<Item>) -> (r: u64)
    ensures
        r == saturate(weight(items@)),
    decreases items,
{
    let mut acc: u64 = 0;
    let mut i: usize = 0;
    assert(items@.subrange(0, 0).len() == 0);
    while i < items.len()
        invariant
            i <= items@.len(),
            acc == saturate(weight(items@.subrange(0, i as int))),
        decreases items@.len() - i,
    {
        let ghost cur = items@.subrange(0, i + 1);
        assert(cur.subrange(0, cur.len() - 1) =~= items@.subrange(0, i as int));
        assert(cur[cur.len() - 1] == items@[i as int]);
        let ghost w: nat = match items@[i as int] {
            Item::Mod(m) => match m.content {
                Some(c) => 1 + weight(c@),
                None => 1,
            },
            Item::Use(u) => 1 + use_leaves(u.tree, Seq::empty()).len(),
            _ => 1,
        };
        let wi: u64 = match &items[i] {
            Item::Mod(m) => match &m.content {
                Some(c) => {
                    assert(decreases_to!(items => items@));
                    let inner = weight_of(c);
                    add_saturating(1, inner)
                },
                None => 1,
            },
            Item::Use(u) => {
                let n = tree_leaves(&u.tree).len();
                if n as u64 as usize == n { add_saturating(1, n as u64) } else { u64::MAX }
            },
            _ => 1,
        };
        assert(wi == saturate(w));
        acc = add_saturating(acc, wi);
        i += 1;
    }
    assert(items@.subrange(0, i as int) =~= items@);
    acc
}

} // verus!
