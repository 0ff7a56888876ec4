//! The pruning pass over an IDL file: one diagnostic for each bare function
//! type, naming the scopes (traits, structs, functions, constants, fields)
//! that enclose it.

use vstd::prelude::*;
use crate::ast::{Field, File, ForeignItem, ImplItem, Item, Signature, TraitItem};
use crate::ir::{
    attrs_types, bounds_types, push_attrs_types, push_bounds_types, push_params_types, push_type, view_refs,
};
use crate::red_idl::{bare_fn_message, PruningVisitor};
use crate::reject::{
    bare_fn_text, fields_roots, generics_roots, push_sig_roots, sig_roots, type_messages, types_msgs,
};
use crate::text::{eq_lit, owned, strs};
use crate::ty::{SType, Type, view_bounds};

verus! {

/// How many of the diagnostics `ms` are about bare function types.
pub open spec fn bare_count(ms: Seq<Seq<char>>) -> nat
    decreases ms.len(),
{
    if ms.len() == 0 {
        0
    } else {
        bare_count(ms.drop_last()) + if ms.last() == bare_fn_text() { 1nat } else { 0nat }
    }
}

/// The diagnostics for types `ts` met in the scopes `ctx`: one per bare
/// function type in them.
pub open spec fn scoped_msgs(ts: Seq<SType>, ctx: Seq<Seq<char>>) -> Seq<Seq<char>> {
    Seq::new(bare_count(types_msgs(ts)), |i: int| bare_fn_message(ctx))
}

pub open spec fn sig_pmsgs(sig: Signature, ctx: Seq<Seq<char>>) -> Seq<Seq<char>> {
    scoped_msgs(sig_roots(sig), ctx.push("fn "@ + sig.ident@))
}

pub open spec fn field_label(f: Field) -> Seq<char> {
    match f.ident {
        Some(id) => "field "@ + id@,
        None => "<unnamed field>"@,
    }
}

pub open spec fn fields_pmsgs(fs: Seq<Field>, ctx: Seq<Seq<char>>) -> Seq<Seq<char>>
    decreases fs.len(),
{
    if fs.len() == 0 {
        Seq::empty()
    } else {
        fields_pmsgs(fs.drop_last(), ctx) + scoped_msgs(seq![fs.last().ty@], ctx.push(field_label(fs.last())))
    }
}

pub open spec fn trait_items_pmsgs(its: Seq<TraitItem>, ctx: Seq<Seq<char>>) -> Seq<Seq<char>>
    decreases its.len(),
{
    if its.len() == 0 {
        Seq::empty()
    } else {
        trait_items_pmsgs(its.drop_last(), ctx) + match its.last() {
            TraitItem::Const(_, t) => scoped_msgs(seq![t@], ctx),
            TraitItem::Method(m) => scoped_msgs(attrs_types(m.attrs@), ctx) + sig_pmsgs(m.sig, ctx),
            TraitItem::Type(_, g) => scoped_msgs(generics_roots(g), ctx),
            _ => Seq::empty(),
        }
    }
}

pub open spec fn impl_items_pmsgs(its: Seq<ImplItem>, ctx: Seq<Seq<char>>) -> Seq<Seq<char>>
    decreases its.len(),
{
    if its.len() == 0 {
        Seq::empty()
    } else {
        impl_items_pmsgs(its.drop_last(), ctx) + match its.last() {
            ImplItem::Method(sig) => sig_pmsgs(sig, ctx),
            ImplItem::Type(_, g) => scoped_msgs(generics_roots(g), ctx),
            _ => Seq::empty(),
        }
    }
}

pub open spec fn foreign_items_pmsgs(its: Seq<ForeignItem>, ctx: Seq<Seq<char>>) -> Seq<Seq<char>>
    decreases its.len(),
{
    if its.len() == 0 {
        Seq::empty()
    } else {
        foreign_items_pmsgs(its.drop_last(), ctx) + match its.last() {
            ForeignItem::Fn(sig) => sig_pmsgs(sig, ctx),
            _ => Seq::empty(),
        }
    }
}

/// The diagnostics for an item met in the scopes `ctx`: structs, traits,
/// functions and constants open a scope of their own, and so do fields.
pub open spec fn item_pmsgs(it: Item, ctx: Seq<Seq<char>>) -> Seq<Seq<char>>
    decreases it, 1int,
{
    match it {
        Item::Struct(s) => {
            let c = ctx.push("struct "@ + s.ident@);
            scoped_msgs(attrs_types(s.attrs@) + generics_roots(s.generics), c) + fields_pmsgs(s.fields@, c)
        },
        Item::Trait(t) => {
            let c = ctx.push("trait "@ + t.ident@);
            scoped_msgs(attrs_types(t.attrs@) + generics_roots(t.generics) + bounds_types(view_bounds(t.supertraits@)), c)
                + trait_items_pmsgs(t.items@, c)
        },
        Item::Fn(attrs, _, sig) => scoped_msgs(attrs_types(attrs@), ctx) + sig_pmsgs(sig, ctx),
        Item::Const(attrs, _, name, t) => scoped_msgs(attrs_types(attrs@) + seq![t@], ctx.push("const "@ + name@)),
        Item::Static(_, _, t) => scoped_msgs(seq![t@], ctx),
        Item::Type(attrs, _, _, g, t) => scoped_msgs(attrs_types(attrs@) + generics_roots(g) + seq![t@], ctx),
        Item::Enum(attrs, _, _, g) => scoped_msgs(attrs_types(attrs@) + generics_roots(g), ctx),
        Item::Union(attrs, _, _, g, fields) => scoped_msgs(attrs_types(attrs@) + generics_roots(g), ctx)
            + fields_pmsgs(fields@, ctx),
        Item::TraitAlias(_, _, g) => scoped_msgs(generics_roots(g), ctx),
        Item::Impl(g, its) => scoped_msgs(generics_roots(g), ctx) + impl_items_pmsgs(its@, ctx),
        Item::ForeignMod(its) => foreign_items_pmsgs(its@, ctx),
        Item::Mod(m) => scoped_msgs(attrs_types(m.attrs@), ctx) + match m.content {
            Some(v) => items_pmsgs(v@, ctx),
            None => Seq::empty(),
        },
        Item::Use(u) => scoped_msgs(attrs_types(u.attrs@), ctx),
        Item::ExternCrate(attrs, _) => scoped_msgs(attrs_types(attrs@), ctx),
        _ => Seq::empty(),
    }
}

pub open spec fn items_pmsgs(items: Seq<Item>, ctx: Seq<Seq<char>>) -> Seq<Seq<char>>
    decreases items, 0int,
{
    if items.len() == 0 {
        Seq::empty()
    } else {
        items_pmsgs(items.drop_last(), ctx) + item_pmsgs(items[items.len() - 1], ctx)
    }
}

/// The diagnostics for a file walked in the scopes `ctx`.
pub open spec fn file_pmsgs(f: File, ctx: Seq<Seq<char>>) -> Seq<Seq<char>> {
    scoped_msgs(attrs_types(f.attrs@), ctx) + items_pmsgs(f.items@, ctx)
}

impl PruningVisitor {
    /// Appends the diagnostics for the types `ts`, met in the current scopes.
    fn scoped_messages(&self, ts: &Vec<&Type>, out: &mut Vec<String>)
        ensures
            strs(final(out)@) == strs(old(out)@) + scoped_msgs(view_refs(ts@), strs(self.context@)),
    {
        let ghost tv = view_refs(ts@);
        let mut all: Vec<String> = Vec::new();
        let mut i: usize = 0;
        assert(strs(all@) =~= types_msgs(tv.subrange(0, 0)));
        while i < ts.len()
            invariant
                i <= ts@.len(),
                tv == view_refs(ts@),
                strs(all@) == types_msgs(tv.subrange(0, i as int)),
            decreases ts@.len() - i,
        {
            let ghost cur = tv.subrange(0, i + 1);
            assert(cur.subrange(0, cur.len() - 1) =~= tv.subrange(0, i as int));
            assert(cur[cur.len() - 1] == ts@[i as int]@);
            type_messages(&mut all, ts[i]);
            i += 1;
        }
        assert(tv.subrange(0, i as int) =~= tv);
        let ghost av = strs(all@);
        let mut n: usize = 0;
        let mut k: usize = 0;
        assert(av.subrange(0, 0) =~= Seq::<Seq<char>>::empty());
        while k < all.len()
            invariant
                k <= all@.len(),
                av == strs(all@),
                n <= k,
                n == bare_count(av.subrange(0, k as int)),
            decreases all@.len() - k,
        {
            let ghost cur = av.subrange(0, k + 1);
            assert(cur.drop_last() =~= av.subrange(0, k as int));
            assert(cur.last() == all@[k as int]@);
            if eq_lit(&all[k], "IDL does not allow bare function types") {
                n = n + 1;
            }
            k += 1;
        }
        assert(av.subrange(0, k as int) =~= av);
        let ghost start = strs(out@);
        let ghost msg = bare_fn_message(strs(self.context@));
        let mut line = owned("\u{1b}[31merror:\u{1b}[0m Bare function types are not permitted (");
        let c = self.get_context();
        line.append(c.as_str());
        line.append(")");
        assert(line@ == msg);
        let mut j: usize = 0;
        assert(strs(out@) =~= start + Seq::new(0, |x: int| msg));
        while j < n
            invariant
                j <= n,
                line@ == msg,
                strs(out@) == start + Seq::new(j as nat, |x: int| msg),
            decreases n - j,
        {
            let ghost before = strs(out@);
            let copy = line.clone();
            assert(copy@ == msg);
            out.push(copy);
            assert(strs(out@) =~= before.push(msg));
            assert(start + Seq::new((j + 1) as nat, |x: int| msg) =~= (start + Seq::new(j as nat, |x: int| msg)).push(msg));
            j += 1;
        }
    }

    fn enter(&mut self, label: String)
        ensures
            strs(final(self).context@) == strs(old(self).context@).push(label@),
    {
        let ghost before = strs(self.context@);
        self.context.push(label);
        assert(strs(self.context@) =~= before.push(label@));
    }

    fn leave(&mut self)
        requires
            old(self).context@.len() > 0,
        ensures
            strs(final(self).context@) == strs(old(self).context@).drop_last(),
    {
        let ghost before = strs(self.context@);
        self.context.pop();
        assert(strs(self.context@) =~= before.drop_last());
    }

    fn signature_messages(&mut self, sig: &Signature, out: &mut Vec<String>)
        ensures
            strs(final(self).context@) == strs(old(self).context@),
            strs(final(out)@) == strs(old(out)@) + sig_pmsgs(*sig, strs(old(self).context@)),
    {
        let mut label = owned("fn ");
        label.append(sig.ident.as_str());
        self.enter(label);
        let mut roots: Vec<&Type> = Vec::new();
        assert(view_refs(roots@) =~= Seq::<SType>::empty());
        push_sig_roots(&mut roots, sig);
        self.scoped_messages(&roots, out);
        self.leave();
    }

    fn fields_messages(&mut self, fs: &Vec<Field>, out: &mut Vec<String>)
        ensures
            strs(final(self).context@) == strs(old(self).context@),
            strs(final(out)@) == strs(old(out)@) + fields_pmsgs(fs@, strs(old(self).context@)),
    {
        let ghost ctx = strs(self.context@);
        let ghost start = strs(out@);
        let mut i: usize = 0;
        assert(strs(out@) =~= start + fields_pmsgs(fs@.subrange(0, 0), ctx));
        while i < fs.len()
            invariant
                i <= fs@.len(),
                strs(self.context@) == ctx,
                strs(out@) == start + fields_pmsgs(fs@.subrange(0, i as int), ctx),
            decreases fs@.len() - i,
        {
            let ghost cur = fs@.subrange(0, i + 1);
            assert(cur.drop_last() =~= fs@.subrange(0, i as int));
            assert(cur.last() == fs@[i as int]);
            let label = match &fs[i].ident {
                Some(id) => {
                    let mut l = owned("field ");
                    l.append(id.as_str());
                    l
                },
                None => owned("<unnamed field>"),
            };
            self.enter(label);
            let mut roots: Vec<&Type> = Vec::new();
            push_type(&mut roots, &fs[i].ty);
            assert(view_refs(roots@) =~= seq![fs@[i as int].ty@]);
            self.scoped_messages(&roots, out);
            self.leave();
            assert(strs(self.context@) =~= ctx);
            assert(strs(out@) =~= start + fields_pmsgs(cur, ctx));
            i += 1;
        }
        assert(fs@.subrange(0, i as int) =~= fs@);
    }

    fn trait_items_messages(&mut self, its: &Vec<TraitItem>, out: &mut Vec<String>)
        ensures
            strs(final(self).context@) == strs(old(self).context@),
            strs(final(out)@) == strs(old(out)@) + trait_items_pmsgs(its@, strs(old(self).context@)),
    {
        let ghost ctx = strs(self.context@);
        let ghost start = strs(out@);
        let mut i: usize = 0;
        assert(strs(out@) =~= start + trait_items_pmsgs(its@.subrange(0, 0), ctx));
        while i < its.len()
            invariant
                i <= its@.len(),
                strs(self.context@) == ctx,
                strs(out@) == start + trait_items_pmsgs(its@.subrange(0, i as int), ctx),
            decreases its@.len() - i,
        {
            let ghost cur = its@.subrange(0, i + 1);
            assert(cur.drop_last() =~= its@.subrange(0, i as int));
            assert(cur.last() == its@[i as int]);
            match &its[i] {
                TraitItem::Const(_, t) => {
                    let mut roots: Vec<&Type> = Vec::new();
                    push_type(&mut roots, t);
                    assert(view_refs(roots@) =~= seq![t@]);
                    self.scoped_messages(&roots, out);
                },
                TraitItem::Method(m) => {
                    let mut roots: Vec<&Type> = Vec::new();
                    assert(view_refs(roots@) =~= Seq::<SType>::empty());
                    push_attrs_types(&mut roots, &m.attrs);
                    self.scoped_messages(&roots, out);
                    self.signature_messages(&m.sig, out);
                },
                TraitItem::Type(_, g) => {
                    let mut roots: Vec<&Type> = Vec::new();
                    assert(view_refs(roots@) =~= Seq::<SType>::empty());
                    push_params_types(&mut roots, &g.params, true);
                    self.scoped_messages(&roots, out);
                },
                _ => {},
            }
            assert(strs(out@) =~= start + trait_items_pmsgs(cur, ctx));
            i += 1;
        }
        assert(its@.subrange(0, i as int) =~= its@);
    }

    fn impl_items_messages(&mut self, its: &Vec<ImplItem>, out: &mut Vec<String>)
        ensures
            strs(final(self).context@) == strs(old(self).context@),
            strs(final(out)@) == strs(old(out)@) + impl_items_pmsgs(its@, strs(old(self).context@)),
    {
        let ghost ctx = strs(self.context@);
        let ghost start = strs(out@);
        let mut i: usize = 0;
        assert(strs(out@) =~= start + impl_items_pmsgs(its@.subrange(0, 0), ctx));
        while i < its.len()
            invariant
                i <= its@.len(),
                strs(self.context@) == ctx,
                strs(out@) == start + impl_items_pmsgs(its@.subrange(0, i as int), ctx),
            decreases its@.len() - i,
        {
            let ghost cur = its@.subrange(0, i + 1);
            assert(cur.drop_last() =~= its@.subrange(0, i as int));
            assert(cur.last() == its@[i as int]);
            match &its[i] {
                ImplItem::Method(sig) => self.signature_messages(sig, out),
                ImplItem::Type(_, g) => {
                    let mut roots: Vec<&Type> = Vec::new();
                    assert(view_refs(roots@) =~= Seq::<SType>::empty());
                    push_params_types(&mut roots, &g.params, true);
                    self.scoped_messages(&roots, out);
                },
                _ => {},
            }
            assert(strs(out@) =~= start + impl_items_pmsgs(cur, ctx));
            i += 1;
        }
        assert(its@.subrange(0, i as int) =~= its@);
    }

    fn foreign_items_messages(&mut self, its: &Vec<ForeignItem>, out: &mut Vec<String>)
        ensures
            strs(final(self).context@) == strs(old(self).context@),
            strs(final(out)@) == strs(old(out)@) + foreign_items_pmsgs(its@, strs(old(self).context@)),
    {
        let ghost ctx = strs(self.context@);
        let ghost start = strs(out@);
        let mut i: usize = 0;
        assert(strs(out@) =~= start + foreign_items_pmsgs(its@.subrange(0, 0), ctx));
        while i < its.len()
            invariant
                i <= its@.len(),
                strs(self.context@) == ctx,
                strs(out@) == start + foreign_items_pmsgs(its@.subrange(0, i as int), ctx),
            decreases its@.len() - i,
        {
            let ghost cur = its@.subrange(0, i + 1);
            assert(cur.drop_last() =~= its@.subrange(0, i as int));
            assert(cur.last() == its@[i as int]);
            match &its[i] {
                ForeignItem::Fn(sig) => self.signature_messages(sig, out),
                _ => {},
            }
            assert(strs(out@) =~= start + foreign_items_pmsgs(cur, ctx));
            i += 1;
        }
        assert(its@.subrange(0, i as int) =~= its@);
    }
}

impl PruningVisitor {
    fn item_messages(&mut self, it: &Item, out: &mut Vec<String>)
        ensures
            strs(final(self).context@) == strs(old(self).context@),
            strs(final(out)@) == strs(old(out)@) + item_pmsgs(*it, strs(old(self).context@)),
        decreases *it, 1int,
    {
        let ghost ctx = strs(self.context@);
        let ghost start = strs(out@);
        match it {
            Item::Struct(st) => {
                let mut label = owned("struct ");
                label.append(st.ident.as_str());
                self.enter(label);
                let mut roots: Vec<&Type> = Vec::new();
                assert(view_refs(roots@) =~= Seq::<SType>::empty());
                push_attrs_types(&mut roots, &st.attrs);
                push_params_types(&mut roots, &st.generics.params, true);
                self.scoped_messages(&roots, out);
                self.fields_messages(&st.fields, out);
                self.leave();
            },
            Item::Trait(t) => {
                let mut label = owned("trait ");
                label.append(t.ident.as_str());
                self.enter(label);
                let mut roots: Vec<&Type> = Vec::new();
                assert(view_refs(roots@) =~= Seq::<SType>::empty());
                push_attrs_types(&mut roots, &t.attrs);
                push_params_types(&mut roots, &t.generics.params, true);
                push_bounds_types(&mut roots, &t.supertraits);
                self.scoped_messages(&roots, out);
                self.trait_items_messages(&t.items, out);
                self.leave();
            },
            Item::Fn(attrs, _, sig) => {
                let mut roots: Vec<&Type> = Vec::new();
                assert(view_refs(roots@) =~= Seq::<SType>::empty());
                push_attrs_types(&mut roots, attrs);
                self.scoped_messages(&roots, out);
                self.signature_messages(sig, out);
            },
            Item::Const(attrs, _, name, t) => {
                let mut label = owned("const ");
                label.append(name.as_str());
                self.enter(label);
                let mut roots: Vec<&Type> = Vec::new();
                assert(view_refs(roots@) =~= Seq::<SType>::empty());
                push_attrs_types(&mut roots, attrs);
                push_type(&mut roots, t);
                self.scoped_messages(&roots, out);
                self.leave();
            },
            Item::Static(_, _, t) => {
                let mut roots: Vec<&Type> = Vec::new();
                push_type(&mut roots, t);
                assert(view_refs(roots@) =~= seq![t@]);
                self.scoped_messages(&roots, out);
            },
            Item::Type(attrs, _, _, g, t) => {
                let mut roots: Vec<&Type> = Vec::new();
                assert(view_refs(roots@) =~= Seq::<SType>::empty());
                push_attrs_types(&mut roots, attrs);
                push_params_types(&mut roots, &g.params, true);
                push_type(&mut roots, t);
                self.scoped_messages(&roots, out);
            },
            Item::Enum(attrs, _, _, g) => {
                let mut roots: Vec<&Type> = Vec::new();
                assert(view_refs(roots@) =~= Seq::<SType>::empty());
                push_attrs_types(&mut roots, attrs);
                push_params_types(&mut roots, &g.params, true);
                self.scoped_messages(&roots, out);
            },
            Item::Union(attrs, _, _, g, fields) => {
                let mut roots: Vec<&Type> = Vec::new();
                assert(view_refs(roots@) =~= Seq::<SType>::empty());
                push_attrs_types(&mut roots, attrs);
                push_params_types(&mut roots, &g.params, true);
                self.scoped_messages(&roots, out);
                self.fields_messages(fields, out);
            },
            Item::TraitAlias(_, _, g) => {
                let mut roots: Vec<&Type> = Vec::new();
                assert(view_refs(roots@) =~= Seq::<SType>::empty());
                push_params_types(&mut roots, &g.params, true);
                self.scoped_messages(&roots, out);
            },
            Item::Impl(g, its) => {
                let mut roots: Vec<&Type> = Vec::new();
                assert(view_refs(roots@) =~= Seq::<SType>::empty());
                push_params_types(&mut roots, &g.params, true);
                self.scoped_messages(&roots, out);
                self.impl_items_messages(its, out);
            },
            Item::ForeignMod(its) => self.foreign_items_messages(its, out),
            Item::Mod(m) => {
                let mut roots: Vec<&Type> = Vec::new();
                assert(view_refs(roots@) =~= Seq::<SType>::empty());
                push_attrs_types(&mut roots, &m.attrs);
                self.scoped_messages(&roots, out);
                match &m.content {
                    Some(v) => self.items_messages(v, out),
                    None => {},
                }
            },
            Item::Use(u) => {
                let mut roots: Vec<&Type> = Vec::new();
                assert(view_refs(roots@) =~= Seq::<SType>::empty());
                push_attrs_types(&mut roots, &u.attrs);
                self.scoped_messages(&roots, out);
            },
            Item::ExternCrate(attrs, _) => {
                let mut roots: Vec<&Type> = Vec::new();
                assert(view_refs(roots@) =~= Seq::<SType>::empty());
                push_attrs_types(&mut roots, attrs);
                self.scoped_messages(&roots, out);
            },
            _ => {},
        }
        assert(strs(self.context@) =~= ctx);
        assert(strs(out@) =~= start + item_pmsgs(*it, ctx));
    }

    fn items_messages(&mut self, items: &Vec<Item>, out: &mut Vec<String>)
        ensures
            strs(final(self).context@) == strs(old(self).context@),
            strs(final(out)@) == strs(old(out)@) + items_pmsgs(items@, strs(old(self).context@)),
        decreases items@, 0int,
    {
        let ghost ctx = strs(self.context@);
        let ghost start = strs(out@);
        let mut i: usize = 0;
        assert(strs(out@) =~= start + items_pmsgs(items@.subrange(0, 0), ctx));
        while i < items.len()
            invariant
                i <= items@.len(),
                strs(self.context@) == ctx,
                strs(out@) == start + items_pmsgs(items@.subrange(0, i as int), ctx),
            decreases items@.len() - i,
        {
            let ghost cur = items@.subrange(0, i + 1);
            assert(cur.drop_last() =~= items@.subrange(0, i as int));
            assert(cur[cur.len() - 1] == items@[i as int]);
            assert(decreases_to!(items@ => items@[i as int]));
            self.item_messages(&items[i], out);
            assert(strs(out@) =~= start + items_pmsgs(cur, ctx));
            i += 1;
        }
        assert(items@.subrange(0, i as int) =~= items@);
    }

    /// Walks `file` (see [`file_pmsgs`]) and returns the diagnostics, one for
    /// each bare function type, naming the scopes that enclose it; the scopes
    /// the walk opens are closed again.
    pub fn visit_file(&mut self, file: &File) -> (r: Vec<String>)
        ensures
            strs(final(self).context@) == strs(old(self).context@),
            strs(r@) == file_pmsgs(*file, strs(old(self).context@)),
    {
        let mut out: Vec<String> = Vec::new();
        let mut roots: Vec<&Type> = Vec::new();
        assert(view_refs(roots@) =~= Seq::<SType>::empty());
        push_attrs_types(&mut roots, &file.attrs);
        assert(strs(out@) =~= Seq::<Seq<char>>::empty());
        self.scoped_messages(&roots, &mut out);
        self.items_messages(&file.items, &mut out);
        assert(strs(out@) =~= file_pmsgs(*file, strs(old(self).context@)));
        out
    }
}

} // verus!
