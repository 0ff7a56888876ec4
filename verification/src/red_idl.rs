//! The checks of the `red_idl` front end: types an IDL may not use, the
//! diagnostics of the pruning pass with their enclosing scopes, the
//! top-level types and method signatures of a file, and the type name table.

use vstd::prelude::*;
use vstd::string::StringExecFns;
use crate::ast::{Field, File, FnArg, Item, ItemStruct, ItemTrait, Signature, TraitItem};
use crate::text::{decimal, join, join_strings, owned, strs, write_decimal};
use crate::ty::{
    view_bounds, view_generic_arguments, view_segments, view_types, GenericArgument, Path,
    PathArguments, ReturnType, SGenericArgument, SPath, SPathArguments, SReturnType, SType,
    STypeParamBound, Type, TypeParamBound,
};

verus! {

// ---------------------------------------------------------------------------
// Passes over an AST.

/// A pass over the items of a file.
pub trait ASTPass {}

/// The pass that does nothing.
pub struct NullPass {}

impl ASTPass for NullPass {}

/// The lines walking a struct logs.
pub fn walk_item_struct<T: ASTPass>(_item_struct: &ItemStruct, _pass: &T) -> (r: Vec<String>)
    ensures
        strs(r@) == seq!["Walked ItemStruct"@],
{
    let mut r: Vec<String> = Vec::new();
    r.push(owned("Walked ItemStruct"));
    assert(strs(r@) =~= seq!["Walked ItemStruct"@]);
    r
}

/// The lines walking a trait logs.
pub fn walk_item_trait<T: ASTPass>(_item_trait: &ItemTrait, _pass: &T) -> (r: Vec<String>)
    ensures
        strs(r@) == seq!["Walked ItemTrait"@],
{
    let mut r: Vec<String> = Vec::new();
    r.push(owned("Walked ItemTrait"));
    assert(strs(r@) =~= seq!["Walked ItemTrait"@]);
    r
}

pub open spec fn walk_item_log(item: Item) -> Seq<Seq<char>> {
    match item {
        Item::Trait(_) => seq!["Walked Item"@, "Walked ItemTrait"@],
        Item::Struct(_) => seq!["Walked Item"@, "Walked ItemStruct"@],
        _ => seq!["Walked Item"@],
    }
}

/// The lines walking an item logs.
pub fn walk_item<T: ASTPass>(item: &Item, pass: &T) -> (r: Vec<String>)
    ensures
        strs(r@) == walk_item_log(*item),
{
    let mut r: Vec<String> = Vec::new();
    r.push(owned("Walked Item"));
    let ghost head = strs(r@);
    let mut more = match item {
        Item::Trait(t) => walk_item_trait(t, pass),
        Item::Struct(s) => walk_item_struct(s, pass),
        _ => Vec::new(),
    };
    let ghost mv = strs(more@);
    r.append(&mut more);
    assert(strs(r@) =~= head + mv);
    assert(strs(r@) =~= walk_item_log(*item));
    r
}

pub open spec fn walk_items_log(items: Seq<Item>) -> Seq<Seq<char>>
    decreases items.len(),
{
    if items.len() == 0 {
        Seq::empty()
    } else {
        walk_items_log(items.drop_last()) + walk_item_log(items.last())
    }
}

/// The lines walking a file logs: the file, then each of its items.
pub fn walk_file<T: ASTPass>(file: &File, pass: &T) -> (r: Vec<String>)
    ensures
        strs(r@) == seq!["Walked File"@] + walk_items_log(file.items@),
{
    let mut r: Vec<String> = Vec::new();
    r.push(owned("Walked File"));
    let mut i: usize = 0;
    assert(strs(r@) =~= seq!["Walked File"@] + walk_items_log(file.items@.subrange(0, 0)));
    while i < file.items.len()
        invariant
            i <= file.items@.len(),
            strs(r@) == seq!["Walked File"@] + walk_items_log(file.items@.subrange(0, i as int)),
        decreases file.items@.len() - i,
    {
        let ghost cur = file.items@.subrange(0, i + 1);
        assert(cur.drop_last() =~= file.items@.subrange(0, i as int));
        assert(cur.last() == file.items@[i as int]);
        let ghost before = strs(r@);
        let mut more = walk_item(&file.items[i], pass);
        let ghost mv = strs(more@);
        r.append(&mut more);
        assert(strs(r@) =~= before + mv);
        i += 1;
    }
    assert(file.items@.subrange(0, i as int) =~= file.items@);
    r
}

// ---------------------------------------------------------------------------
// Types an IDL may not use: bare functions, pointers and references.

pub open spec fn type_legal(t: SType) -> bool
    decreases t,
{
    match t {
        SType::BareFn(_) => false,
        SType::Ptr(_, _) => false,
        SType::Reference(_, _) => false,
        SType::Array(e, _) => type_legal(*e),
        SType::Group(e) => type_legal(*e),
        SType::Paren(e) => type_legal(*e),
        SType::Slice(e) => type_legal(*e),
        SType::Path(p) => path_legal(p),
        SType::TraitObject(bs) => bounds_legal(bs),
        SType::Tuple(ts) => types_legal(ts),
        _ => true,
    }
}

pub open spec fn types_legal(ts: Seq<SType>) -> bool
    decreases ts,
{
    if ts.len() == 0 {
        true
    } else {
        types_legal(ts.subrange(0, ts.len() - 1)) && type_legal(ts[ts.len() - 1])
    }
}

pub open spec fn bounds_legal(bs: Seq<STypeParamBound>) -> bool
    decreases bs,
{
    if bs.len() == 0 {
        true
    } else {
        bounds_legal(bs.subrange(0, bs.len() - 1)) && match bs[bs.len() - 1] {
            STypeParamBound::Trait(p) => path_legal(p),
            STypeParamBound::Lifetime(_) => true,
        }
    }
}

pub open spec fn path_legal(p: SPath) -> bool
    decreases p,
{
    segments_legal(p.segments)
}

pub open spec fn segments_legal(s: Seq<crate::ty::SPathSegment>) -> bool
    decreases s,
{
    if s.len() == 0 {
        true
    } else {
        segments_legal(s.subrange(0, s.len() - 1)) && arguments_legal(s[s.len() - 1].arguments)
    }
}

pub open spec fn arguments_legal(a: SPathArguments) -> bool
    decreases a,
{
    match a {
        SPathArguments::Empty => true,
        SPathArguments::AngleBracketed(args) => gargs_legal(args),
        SPathArguments::Parenthesized(ins, out) => types_legal(ins) && match out {
            SReturnType::Default => true,
            SReturnType::Type(t) => type_legal(*t),
        },
    }
}

pub open spec fn gargs_legal(args: Seq<SGenericArgument>) -> bool
    decreases args,
{
    if args.len() == 0 {
        true
    } else {
        gargs_legal(args.subrange(0, args.len() - 1)) && match args[args.len() - 1] {
            SGenericArgument::Type(t) => type_legal(t),
            SGenericArgument::Binding(_, t) => type_legal(t),
            _ => true,
        }
    }
}

/// Whether no part of `ty` is a bare function, a pointer or a reference.
pub fn _reject_types(ty: &Type) -> (r: bool)
    ensures
        r == type_legal(ty@),
    decreases ty, 1int,
{
    match ty {
        Type::BareFn(_) => false,
        Type::Ptr(_, _) => false,
        Type::Reference(_, _) => false,
        Type::Array(e, _) => _reject_types(e),
        Type::Group(e) => _reject_types(e),
        Type::Paren(e) => _reject_types(e),
        Type::Slice(e) => _reject_types(e),
        Type::Path(p) => path_is_legal(p),
        Type::TraitObject(bs) => bounds_are_legal(bs),
        Type::Tuple(ts) => types_are_legal(ts),
        _ => true,
    }
}

fn types_are_legal(ts: &Vec<Type>) -> (r: bool)
    ensures
        r == types_legal(view_types(ts@)),
    decreases ts, 0int,
{
    let ghost tv = view_types(ts@);
    let mut i: usize = 0;
    while i < ts.len()
        invariant
            i <= ts@.len(),
            tv == view_types(ts@),
            types_legal(tv.subrange(0, i as int)),
        decreases ts@.len() - i,
    {
        let ghost cur = tv.subrange(0, i + 1);
        assert(cur.subrange(0, cur.len() - 1) =~= tv.subrange(0, i as int));
        assert(cur[cur.len() - 1] == ts@[i as int]@);
        assert(decreases_to!(ts => ts@));
        if !_reject_types(&ts[i]) {
            proof { lemma_types_legal_prefix(tv, i + 1); }
            return false;
        }
        i += 1;
    }
    assert(tv.subrange(0, i as int) =~= tv);
    true
}

proof fn lemma_types_legal_prefix(ts: Seq<SType>, n: int)
    requires
        0 <= n <= ts.len(),
        !types_legal(ts.subrange(0, n)),
    ensures
        !types_legal(ts),
    decreases ts.len(),
{
    if n < ts.len() {
        let s = ts.subrange(0, ts.len() - 1);
        assert(s.subrange(0, n) =~= ts.subrange(0, n));
        lemma_types_legal_prefix(s, n);
    } else {
        assert(ts.subrange(0, n) =~= ts);
    }
}

fn bounds_are_legal(bs: &Vec<TypeParamBound>) -> (r: bool)
    ensures
        r == bounds_legal(view_bounds(bs@)),
    decreases bs, 0int,
{
    let ghost bv = view_bounds(bs@);
    let mut i: usize = 0;
    while i < bs.len()
        invariant
            i <= bs@.len(),
            bv == view_bounds(bs@),
            bounds_legal(bv.subrange(0, i as int)),
        decreases bs@.len() - i,
    {
        let ghost cur = bv.subrange(0, i + 1);
        assert(cur.subrange(0, cur.len() - 1) =~= bv.subrange(0, i as int));
        assert(cur[cur.len() - 1] == bs@[i as int]@);
        assert(decreases_to!(bs => bs@));
        let ok = match &bs[i] {
            TypeParamBound::Trait(p) => path_is_legal(p),
            TypeParamBound::Lifetime(_) => true,
        };
        if !ok {
            proof { lemma_bounds_legal_prefix(bv, i + 1); }
            return false;
        }
        i += 1;
    }
    assert(bv.subrange(0, i as int) =~= bv);
    true
}

proof fn lemma_bounds_legal_prefix(bs: Seq<STypeParamBound>, n: int)
    requires
        0 <= n <= bs.len(),
        !bounds_legal(bs.subrange(0, n)),
    ensures
        !bounds_legal(bs),
    decreases bs.len(),
{
    if n < bs.len() {
        let s = bs.subrange(0, bs.len() - 1);
        assert(s.subrange(0, n) =~= bs.subrange(0, n));
        lemma_bounds_legal_prefix(s, n);
    } else {
        assert(bs.subrange(0, n) =~= bs);
    }
}

fn path_is_legal(p: &Path) -> (r: bool)
    ensures
        r == path_legal(p@),
    decreases p, 0int,
{
    let ghost sv = view_segments(p.segments@);
    let mut i: usize = 0;
    while i < p.segments.len()
        invariant
            i <= p.segments@.len(),
            sv == view_segments(p.segments@),
            segments_legal(sv.subrange(0, i as int)),
        decreases p.segments@.len() - i,
    {
        let ghost cur = sv.subrange(0, i + 1);
        assert(cur.subrange(0, cur.len() - 1) =~= sv.subrange(0, i as int));
        assert(cur[cur.len() - 1] == p.segments@[i as int]@);
        assert(decreases_to!(p => p.segments));
        assert(decreases_to!(p.segments => p.segments@));
        assert(decreases_to!(p.segments@ => p.segments@[i as int]));
        if !arguments_are_legal(&p.segments[i].arguments) {
            proof { lemma_segments_legal_prefix(sv, i + 1); }
            return false;
        }
        i += 1;
    }
    assert(sv.subrange(0, i as int) =~= sv);
    true
}

proof fn lemma_segments_legal_prefix(s: Seq<crate::ty::SPathSegment>, n: int)
    requires
        0 <= n <= s.len(),
        !segments_legal(s.subrange(0, n)),
    ensures
        !segments_legal(s),
    decreases s.len(),
{
    if n < s.len() {
        let t = s.subrange(0, s.len() - 1);
        assert(t.subrange(0, n) =~= s.subrange(0, n));
        lemma_segments_legal_prefix(t, n);
    } else {
        assert(s.subrange(0, n) =~= s);
    }
}

fn arguments_are_legal(a: &PathArguments) -> (r: bool)
    ensures
        r == arguments_legal(a@),
    decreases a, 0int,
{
    match a {
        PathArguments::Empty => true,
        PathArguments::AngleBracketed(args) => gargs_are_legal(args),
        PathArguments::Parenthesized(ins, out) => {
            if !types_are_legal(ins) {
                return false;
            }
            match out {
                ReturnType::Default => true,
                ReturnType::Type(t) => _reject_types(t),
            }
        },
    }
}

fn gargs_are_legal(args: &Vec<GenericArgument>) -> (r: bool)
    ensures
        r == gargs_legal(view_generic_arguments(args@)),
    decreases args, 0int,
{
    let ghost av = view_generic_arguments(args@);
    let mut i: usize = 0;
    while i < args.len()
        invariant
            i <= args@.len(),
            av == view_generic_arguments(args@),
            gargs_legal(av.subrange(0, i as int)),
        decreases args@.len() - i,
    {
        let ghost cur = av.subrange(0, i + 1);
        assert(cur.subrange(0, cur.len() - 1) =~= av.subrange(0, i as int));
        assert(cur[cur.len() - 1] == args@[i as int]@);
        assert(decreases_to!(args => args@));
        let ok = match &args[i] {
            GenericArgument::Type(t) => _reject_types(t),
            GenericArgument::Binding(_, t) => _reject_types(t),
            _ => true,
        };
        if !ok {
            proof { lemma_gargs_legal_prefix(av, i + 1); }
            return false;
        }
        i += 1;
    }
    assert(av.subrange(0, i as int) =~= av);
    true
}

proof fn lemma_gargs_legal_prefix(args: Seq<SGenericArgument>, n: int)
    requires
        0 <= n <= args.len(),
        !gargs_legal(args.subrange(0, n)),
    ensures
        !gargs_legal(args),
    decreases args.len(),
{
    if n < args.len() {
        let t = args.subrange(0, args.len() - 1);
        assert(t.subrange(0, n) =~= args.subrange(0, n));
        lemma_gargs_legal_prefix(t, n);
    } else {
        assert(args.subrange(0, n) =~= args);
    }
}

/// The pass that marks a type illegal when part of it is a bare function,
/// a pointer or a reference.
pub struct RejectPass {
    pub is_legal: bool,
}

impl RejectPass {
    /// Visits `ty`: the pass stays legal only if `ty` is.
    pub fn visit_type(&mut self, ty: &Type)
        ensures
            final(self).is_legal == (old(self).is_legal && type_legal(ty@)),
    {
        if !_reject_types(ty) {
            self.is_legal = false;
        }
    }
}

// ---------------------------------------------------------------------------
// The pruning pass: diagnostics with the scopes that enclose them.

/// The scopes enclosing a point of the walk, innermost last, as text.
pub open spec fn context_str(context: Seq<Seq<char>>) -> Seq<char> {
    if context.len() == 0 {
        "<global scope>"@
    } else {
        join(context, ", "@)
    }
}

pub open spec fn bare_fn_message(context: Seq<Seq<char>>) -> Seq<char> {
    "\u{1b}[31merror:\u{1b}[0m Bare function types are not permitted ("@ + context_str(context) + ")"@
}

/// Collects the scopes that enclose each point of a walk over an IDL file.
pub struct PruningVisitor {
    pub context: Vec<String>,
}

impl PruningVisitor {
    pub fn new() -> (r: Self)
        ensures
            r.context@.len() == 0,
    {
        PruningVisitor { context: Vec::new() }
    }

    /// The enclosing scopes, outermost first, joined by `, `; or
    /// `<global scope>` outside any.
    pub fn get_context(&self) -> (r: String)
        ensures
            r@ == context_str(strs(self.context@)),
    {
        if self.context.len() == 0 {
            owned("<global scope>")
        } else {
            join_strings(&self.context, ", ")
        }
    }
}

// ---------------------------------------------------------------------------
// Top-level types and method signatures.

/// The traits and structs defined at the top level of a file.
pub struct TypeDefinitions<'ast> {
    pub traits: Vec<&'ast ItemTrait>,
    pub structs: Vec<&'ast ItemStruct>,
}

/// The diagnostics that collecting the types of `items`, nested in a
/// module when `nested`, reports: a trait inside a module, and every
/// type alias.
pub open spec fn type_messages(items: Seq<Item>, nested: bool) -> Seq<Seq<char>>
    decreases items,
{
    if items.len() == 0 {
        Seq::empty()
    } else {
        type_messages(items.subrange(0, items.len() - 1), nested) + match items[items.len() - 1] {
            Item::Trait(_) => if nested {
                seq!["IDL requires all types to be defined at global scope"@]
            } else {
                Seq::empty()
            },
            Item::Type(_, _, _, _, _) => seq!["Typedefs are currently unsupported"@],
            Item::Mod(m) => match m.content {
                Some(c) => type_messages(c@, true),
                None => Seq::empty(),
            },
            _ => Seq::empty(),
        }
    }
}

pub open spec fn top_traits(items: Seq<Item>) -> Seq<ItemTrait>
    decreases items.len(),
{
    if items.len() == 0 {
        Seq::empty()
    } else {
        match items.last() {
            Item::Trait(t) => top_traits(items.drop_last()).push(t),
            _ => top_traits(items.drop_last()),
        }
    }
}

pub open spec fn top_structs(items: Seq<Item>) -> Seq<ItemStruct>
    decreases items.len(),
{
    if items.len() == 0 {
        Seq::empty()
    } else {
        match items.last() {
            Item::Struct(s) => top_structs(items.drop_last()).push(s),
            _ => top_structs(items.drop_last()),
        }
    }
}

fn type_messages_of(items: &Vec<Item>, nested: bool, out: &mut Vec<String>)
    ensures
        strs(final(out)@) == strs(old(out)@) + type_messages(items@, nested),
    decreases items,
{
    let ghost o = strs(out@);
    let mut i: usize = 0;
    assert(o + type_messages(items@.subrange(0, 0), nested) =~= o);
    while i < items.len()
        invariant
            i <= items@.len(),
            strs(out@) == o + type_messages(items@.subrange(0, i as int), nested),
        decreases items@.len() - i,
    {
        let ghost cur = items@.subrange(0, i + 1);
        assert(cur.subrange(0, cur.len() - 1) =~= items@.subrange(0, i as int));
        assert(cur[cur.len() - 1] == items@[i as int]);
        let ghost before = strs(out@);
        match &items[i] {
            Item::Trait(_) => {
                if nested {
                    out.push(owned("IDL requires all types to be defined at global scope"));
                    assert(strs(out@) =~= before + seq!["IDL requires all types to be defined at global scope"@]);
                } else {
                    assert(strs(out@) =~= before + Seq::<Seq<char>>::empty());
                }
            },
            Item::Type(_, _, _, _, _) => {
                out.push(owned("Typedefs are currently unsupported"));
                assert(strs(out@) =~= before + seq!["Typedefs are currently unsupported"@]);
            },
            Item::Mod(m) => match &m.content {
                Some(c) => {
                    assert(decreases_to!(items => items@));
                    type_messages_of(c, true, out);
                },
                None => {},
            },
            _ => {},
        }
        assert(strs(out@) =~= o + type_messages(cur, nested));
        i += 1;
    }
    assert(items@.subrange(0, i as int) =~= items@);
}

/// The traits and structs defined at the top level of `ast`, in order,
/// and the diagnostics about the types of the file.
pub fn collect_types<'ast>(ast: &'ast File) -> (r: (TypeDefinitions<'ast>, Vec<String>))
    ensures
        r.0.traits@.len() == top_traits(ast.items@).len(),
        forall|i: int| 0 <= i < r.0.traits@.len() ==> *r.0.traits@[i] == top_traits(ast.items@)[i],
        r.0.structs@.len() == top_structs(ast.items@).len(),
        forall|i: int| 0 <= i < r.0.structs@.len() ==> *r.0.structs@[i] == top_structs(ast.items@)[i],
        strs(r.1@) == type_messages(ast.items@, false),
{
    let mut traits: Vec<&'ast ItemTrait> = Vec::new();
    let mut structs: Vec<&'ast ItemStruct> = Vec::new();
    let mut i: usize = 0;
    while i < ast.items.len()
        invariant
            i <= ast.items@.len(),
            traits@.len() == top_traits(ast.items@.subrange(0, i as int)).len(),
            forall|j: int| 0 <= j < traits@.len() ==> *traits@[j] == top_traits(ast.items@.subrange(0, i as int))[j],
            structs@.len() == top_structs(ast.items@.subrange(0, i as int)).len(),
            forall|j: int| 0 <= j < structs@.len() ==> *structs@[j] == top_structs(ast.items@.subrange(0, i as int))[j],
        decreases ast.items@.len() - i,
    {
        let ghost cur = ast.items@.subrange(0, i + 1);
        assert(cur.drop_last() =~= ast.items@.subrange(0, i as int));
        assert(cur.last() == ast.items@[i as int]);
        match &ast.items[i] {
            Item::Trait(t) => traits.push(t),
            Item::Struct(s) => structs.push(s),
            _ => {},
        }
        i += 1;
    }
    assert(ast.items@.subrange(0, i as int) =~= ast.items@);
    let mut messages: Vec<String> = Vec::new();
    assert(strs(messages@) =~= Seq::<Seq<char>>::empty());
    type_messages_of(&ast.items, false, &mut messages);
    assert(strs(messages@) =~= type_messages(ast.items@, false));
    (TypeDefinitions { traits, structs }, messages)
}

/// The signatures of the methods of traits, and for each trait with
/// methods, the range of its signatures.
pub struct TraitSignatures<'ast> {
    pub signatures: Vec<&'ast Signature>,
    pub ranges: Vec<(usize, usize)>,
}

pub open spec fn trait_sigs(items: Seq<TraitItem>) -> Seq<Signature>
    decreases items.len(),
{
    if items.len() == 0 {
        Seq::empty()
    } else {
        match items.last() {
            TraitItem::Method(m) => trait_sigs(items.drop_last()).push(m.sig),
            _ => trait_sigs(items.drop_last()),
        }
    }
}

pub open spec fn all_sigs(traits: Seq<ItemTrait>) -> Seq<Signature>
    decreases traits.len(),
{
    if traits.len() == 0 {
        Seq::empty()
    } else {
        all_sigs(traits.drop_last()) + trait_sigs(traits.last().items@)
    }
}

/// The ranges of the traits with methods among `traits`, into `all_sigs`.
pub open spec fn sig_ranges(traits: Seq<ItemTrait>) -> Seq<(usize, usize)>
    decreases traits.len(),
{
    if traits.len() == 0 {
        Seq::empty()
    } else {
        let start = all_sigs(traits.drop_last()).len();
        let end = all_sigs(traits).len();
        if start == end {
            sig_ranges(traits.drop_last())
        } else {
            sig_ranges(traits.drop_last()).push((start as usize, end as usize))
        }
    }
}

/// What collecting the signatures of a trait with `n` methods reports.
pub open spec fn count_message(n: nat) -> Seq<char> {
    if n == 0 {
        "No methods recorded"@
    } else {
        decimal(n) + " methods recorded"@
    }
}

/// What collecting the signatures of `traits` reports, one line per trait:
/// how many methods were recorded for it.
pub fn signature_messages(traits: &Vec<&ItemTrait>) -> (r: Vec<String>)
    ensures
        strs(r@) == Seq::new(traits@.len(), |i: int| count_message(trait_sigs(traits@[i].items@).len())),
{
    let mut out: Vec<String> = Vec::new();
    let mut t: usize = 0;
    while t < traits.len()
        invariant
            t <= traits@.len(),
            out@.len() == t,
            forall|j: int| 0 <= j < t ==> #[trigger] out@[j]@ == count_message(trait_sigs(traits@[j].items@).len()),
        decreases traits@.len() - t,
    {
        let items = &traits[t].items;
        let mut count: usize = 0;
        let mut k: usize = 0;
        while k < items.len()
            invariant
                k <= items@.len(),
                count <= k,
                count == trait_sigs(items@.subrange(0, k as int)).len(),
            decreases items@.len() - k,
        {
            let ghost cur = items@.subrange(0, k + 1);
            assert(cur.drop_last() =~= items@.subrange(0, k as int));
            assert(cur.last() == items@[k as int]);
            if let TraitItem::Method(_) = &items[k] {
                count = count + 1;
            }
            k += 1;
        }
        assert(items@.subrange(0, k as int) =~= items@);
        let line = if count == 0 {
            owned("No methods recorded")
        } else {
            let mut l = String::new();
            write_decimal(&mut l, count as u64);
            l.append(" methods recorded");
            l
        };
        out.push(line);
        t += 1;
    }
    let ghost want = Seq::new(traits@.len(), |i: int| count_message(trait_sigs(traits@[i].items@).len()));
    assert(strs(out@) =~= want);
    out
}

/// The signatures of the methods of `traits`, in order, and the range of
/// each trait's signatures among them, for the traits that have methods.
pub fn collect_method_signatures<'ast>(traits: &Vec<&'ast ItemTrait>) -> (r: TraitSignatures<'ast>)
    requires
        all_sigs(Seq::new(traits@.len(), |i: int| *traits@[i])).len() <= usize::MAX,
    ensures
        r.signatures@.len() == all_sigs(Seq::new(traits@.len(), |i: int| *traits@[i])).len(),
        forall|i: int| 0 <= i < r.signatures@.len() ==> *r.signatures@[i] == all_sigs(Seq::new(traits@.len(), |i: int| *traits@[i]))[i],
        r.ranges@ == sig_ranges(Seq::new(traits@.len(), |i: int| *traits@[i])),
{
    let ghost tv = Seq::new(traits@.len(), |i: int| *traits@[i]);
    let mut sigs: Vec<&'ast Signature> = Vec::new();
    let mut ranges: Vec<(usize, usize)> = Vec::new();
    let mut i: usize = 0;
    assert(tv.subrange(0, 0).len() == 0);
    while i < traits.len()
        invariant
            i <= traits@.len(),
            tv == Seq::new(traits@.len(), |i: int| *traits@[i]),
            all_sigs(tv).len() <= usize::MAX,
            sigs@.len() == all_sigs(tv.subrange(0, i as int)).len(),
            forall|j: int| 0 <= j < sigs@.len() ==> *sigs@[j] == all_sigs(tv.subrange(0, i as int))[j],
            ranges@ == sig_ranges(tv.subrange(0, i as int)),
        decreases traits@.len() - i,
    {
        let ghost cur = tv.subrange(0, i + 1);
        assert(cur.drop_last() =~= tv.subrange(0, i as int));
        assert(cur.last() == *traits@[i as int]);
        proof { lemma_all_sigs_prefix_len(tv, i + 1); }
        let tr: &'ast ItemTrait = traits[i];
        let start = sigs.len();
        let mut k: usize = 0;
        let ghost base = all_sigs(tv.subrange(0, i as int));
        assert(tr.items@.subrange(0, 0).len() == 0);
        while k < tr.items.len()
            invariant
                k <= tr.items@.len(),
                sigs@.len() == base.len() + trait_sigs(tr.items@.subrange(0, k as int)).len(),
                base.len() + trait_sigs(tr.items@).len() <= usize::MAX,
                forall|j: int| 0 <= j < base.len() ==> *sigs@[j] == base[j],
                forall|j: int| base.len() <= j < sigs@.len() ==> *sigs@[j] == trait_sigs(tr.items@.subrange(0, k as int))[j - base.len()],
            decreases tr.items@.len() - k,
        {
            let ghost c2 = tr.items@.subrange(0, k + 1);
            assert(c2.drop_last() =~= tr.items@.subrange(0, k as int));
            assert(c2.last() == tr.items@[k as int]);
            proof { lemma_trait_sigs_prefix_len(tr.items@, k + 1); }
            match &tr.items[k] {
                TraitItem::Method(m) => sigs.push(&m.sig),
                _ => {},
            }
            k += 1;
        }
        assert(tr.items@.subrange(0, k as int) =~= tr.items@);
        let end = sigs.len();
        if start != end {
            ranges.push((start, end));
        }
        assert(all_sigs(cur) =~= base + trait_sigs(tr.items@));
        i += 1;
    }
    assert(tv.subrange(0, i as int) =~= tv);
    TraitSignatures { signatures: sigs, ranges }
}

proof fn lemma_trait_sigs_prefix_len(items: Seq<TraitItem>, n: int)
    requires
        0 <= n <= items.len(),
    ensures
        trait_sigs(items.subrange(0, n)).len() <= trait_sigs(items).len(),
    decreases items.len(),
{
    if n < items.len() {
        let s = items.drop_last();
        assert(s.subrange(0, n) =~= items.subrange(0, n));
        lemma_trait_sigs_prefix_len(s, n);
    } else {
        assert(items.subrange(0, n) =~= items);
    }
}

proof fn lemma_all_sigs_prefix_len(traits: Seq<ItemTrait>, n: int)
    requires
        0 <= n <= traits.len(),
    ensures
        all_sigs(traits.subrange(0, n)).len() <= all_sigs(traits).len(),
    decreases traits.len(),
{
    if n < traits.len() {
        let s = traits.drop_last();
        assert(s.subrange(0, n) =~= traits.subrange(0, n));
        lemma_all_sigs_prefix_len(s, n);
    } else {
        assert(traits.subrange(0, n) =~= traits);
    }
}

// ---------------------------------------------------------------------------
// The table of type names.

/// Type names, each once, numbered in the order they were first inserted.
pub struct TypeHeap {
    pub names: Vec<String>,
}

/// Whether no name occurs twice.
pub open spec fn distinct_names(names: Seq<Seq<char>>) -> bool {
    forall|i: int, j: int| 0 <= i < j < names.len() ==> names[i] != names[j]
}

impl TypeHeap {
    pub open spec fn wf(&self) -> bool {
        distinct_names(strs(self.names@))
    }

    pub fn new() -> (r: Self)
        ensures
            r.wf(),
            r.names@.len() == 0,
    {
        TypeHeap { names: Vec::new() }
    }

    /// The number of `name`: the one it already has, or the next one.
    pub fn insert(&mut self, name: String) -> (id: usize)
        requires
            old(self).wf(),
        ensures
            final(self).wf(),
            strs(old(self).names@).contains(name@) ==> strs(final(self).names@) == strs(old(self).names@),
            !strs(old(self).names@).contains(name@) ==> strs(final(self).names@) == strs(old(self).names@).push(name@),
            id < final(self).names@.len(),
            final(self).names@[id as int]@ == name@,
    {
        let mut i: usize = 0;
        while i < self.names.len()
            invariant
                i <= self.names@.len(),
                self.names@ == old(self).names@,
                old(self).wf(),
                forall|j: int| 0 <= j < i ==> strs(self.names@)[j] != name@,
            decreases self.names@.len() - i,
        {
            if self.names[i] == name {
                assert(strs(self.names@)[i as int] == name@);
                return i;
            }
            i += 1;
        }
        let ghost before = strs(self.names@);
        self.names.push(name);
        assert(strs(self.names@) =~= before.push(name@));
        self.names.len() - 1
    }

    /// The lines dumping the table prints, one per name.
    pub fn dump(&self) -> (r: Vec<String>)
        ensures
            strs(r@) == Seq::new(self.names@.len(), |i: int| "Type "@ + self.names@[i]@),
    {
        let mut r: Vec<String> = Vec::new();
        let mut i: usize = 0;
        while i < self.names.len()
            invariant
                i <= self.names@.len(),
                r@.len() == i,
                forall|j: int| 0 <= j < i ==> #[trigger] r@[j]@ == "Type "@ + self.names@[j]@,
            decreases self.names@.len() - i,
        {
            let mut line = owned("Type ");
            line.append(self.names[i].as_str());
            r.push(line);
            i += 1;
        }
        assert(strs(r@) =~= Seq::new(self.names@.len(), |i: int| "Type "@ + self.names@[i]@));
        r
    }
}

} // verus!

verus! {

/// Two numbers of the type table never stand for the same name.
pub proof fn law_type_heap_numbers_are_unique(h: TypeHeap, i: int, j: int)
    requires
        h.wf(),
        0 <= i < h.names@.len(),
        0 <= j < h.names@.len(),
        h.names@[i]@ == h.names@[j]@,
    ensures
        i == j,
{
    if i < j {
        assert(strs(h.names@)[i] == strs(h.names@)[j]);
    } else if j < i {
        assert(strs(h.names@)[j] == strs(h.names@)[i]);
    }
}

} // verus!

verus! {

use crate::path_refactoring::{refactor_type, refactor_bound, refactor_path, refactor_arguments, refactor_generic_argument};

/// Rewriting the first segment of paths (as the domain create generation
/// does from `crate` to `interface`) never changes whether a type is one an
/// IDL may use.
pub proof fn law_refactoring_keeps_legality(src: Seq<char>, dest: Seq<char>, t: SType)
    ensures
        type_legal(refactor_type(src, dest, t)) == type_legal(t),
    decreases t, 0nat,
{
    match t {
        SType::Array(e, len) => {
            law_refactoring_keeps_legality(src, dest, *e);
            assert(refactor_type(src, dest, t) == SType::Array(Box::new(refactor_type(src, dest, *e)), len));
        },
        SType::Path(p) => lemma_path_legal(src, dest, p),
        SType::TraitObject(bs) => {
            let rb = refactor_type(src, dest, t)->TraitObject_0;
            assert(rb =~= Seq::new(bs.len(), |i: int| if 0 <= i < bs.len() { refactor_bound(src, dest, bs[i]) } else { STypeParamBound::Lifetime(Seq::empty()) }));
            lemma_bounds_legal(src, dest, bs, bs.len() as int);
            assert(rb.subrange(0, bs.len() as int) =~= rb);
            assert(bs.subrange(0, bs.len() as int) =~= bs);
        },
        SType::Tuple(ts) => {
            let rt = refactor_type(src, dest, t)->Tuple_0;
            assert(rt =~= Seq::new(ts.len(), |i: int| if 0 <= i < ts.len() { refactor_type(src, dest, ts[i]) } else { SType::Infer }));
            lemma_types_legal(src, dest, ts, ts.len() as int);
            assert(rt.subrange(0, ts.len() as int) =~= rt);
            assert(ts.subrange(0, ts.len() as int) =~= ts);
        },
        _ => {},
    }
}

proof fn lemma_types_legal(src: Seq<char>, dest: Seq<char>, ts: Seq<SType>, n: int)
    requires
        0 <= n <= ts.len(),
    ensures
        types_legal(Seq::new(ts.len(), |i: int| if 0 <= i < ts.len() { refactor_type(src, dest, ts[i]) } else { SType::Infer }).subrange(0, n))
            == types_legal(ts.subrange(0, n)),
    decreases ts, n,
{
    let m = Seq::new(ts.len(), |i: int| if 0 <= i < ts.len() { refactor_type(src, dest, ts[i]) } else { SType::Infer });
    if n > 0 {
        lemma_types_legal(src, dest, ts, n - 1);
        law_refactoring_keeps_legality(src, dest, ts[n - 1]);
        assert(m.subrange(0, n).subrange(0, n - 1) =~= m.subrange(0, n - 1));
        assert(ts.subrange(0, n).subrange(0, n - 1) =~= ts.subrange(0, n - 1));
    }
}

proof fn lemma_bounds_legal(src: Seq<char>, dest: Seq<char>, bs: Seq<STypeParamBound>, n: int)
    requires
        0 <= n <= bs.len(),
    ensures
        bounds_legal(Seq::new(bs.len(), |i: int| if 0 <= i < bs.len() { refactor_bound(src, dest, bs[i]) } else { STypeParamBound::Lifetime(Seq::empty()) }).subrange(0, n))
            == bounds_legal(bs.subrange(0, n)),
    decreases bs, n,
{
    let m = Seq::new(bs.len(), |i: int| if 0 <= i < bs.len() { refactor_bound(src, dest, bs[i]) } else { STypeParamBound::Lifetime(Seq::empty()) });
    if n > 0 {
        lemma_bounds_legal(src, dest, bs, n - 1);
        match bs[n - 1] {
            STypeParamBound::Trait(p) => lemma_path_legal(src, dest, p),
            STypeParamBound::Lifetime(_) => {},
        }
        assert(m.subrange(0, n).subrange(0, n - 1) =~= m.subrange(0, n - 1));
        assert(bs.subrange(0, n).subrange(0, n - 1) =~= bs.subrange(0, n - 1));
    }
}

proof fn lemma_path_legal(src: Seq<char>, dest: Seq<char>, p: SPath)
    ensures
        path_legal(refactor_path(src, dest, p)) == path_legal(p),
    decreases p, 0nat,
{
    let rs = refactor_path(src, dest, p).segments;
    lemma_segments_legal(src, dest, p, p.segments.len() as int);
    assert(rs.subrange(0, p.segments.len() as int) =~= rs);
    assert(p.segments.subrange(0, p.segments.len() as int) =~= p.segments);
}

proof fn lemma_segments_legal(src: Seq<char>, dest: Seq<char>, p: SPath, n: int)
    requires
        0 <= n <= p.segments.len(),
    ensures
        segments_legal(refactor_path(src, dest, p).segments.subrange(0, n)) == segments_legal(p.segments.subrange(0, n)),
    decreases p.segments, n,
{
    let rs = refactor_path(src, dest, p).segments;
    if n > 0 {
        lemma_segments_legal(src, dest, p, n - 1);
        lemma_arguments_legal(src, dest, p.segments[n - 1].arguments);
        assert(rs.subrange(0, n).subrange(0, n - 1) =~= rs.subrange(0, n - 1));
        assert(p.segments.subrange(0, n).subrange(0, n - 1) =~= p.segments.subrange(0, n - 1));
    }
}

proof fn lemma_arguments_legal(src: Seq<char>, dest: Seq<char>, a: SPathArguments)
    ensures
        arguments_legal(refactor_arguments(src, dest, a)) == arguments_legal(a),
    decreases a, 0nat,
{
    match a {
        SPathArguments::AngleBracketed(args) => {
            let ra = refactor_arguments(src, dest, a)->AngleBracketed_0;
            assert(ra =~= Seq::new(args.len(), |i: int| if 0 <= i < args.len() { refactor_generic_argument(src, dest, args[i]) } else { args[i] }));
            lemma_gargs_legal(src, dest, args, args.len() as int);
            assert(ra.subrange(0, args.len() as int) =~= ra);
            assert(args.subrange(0, args.len() as int) =~= args);
        },
        _ => {},
    }
}

proof fn lemma_gargs_legal(src: Seq<char>, dest: Seq<char>, args: Seq<SGenericArgument>, n: int)
    requires
        0 <= n <= args.len(),
    ensures
        gargs_legal(Seq::new(args.len(), |i: int| if 0 <= i < args.len() { refactor_generic_argument(src, dest, args[i]) } else { args[i] }).subrange(0, n))
            == gargs_legal(args.subrange(0, n)),
    decreases args, n,
{
    let m = Seq::new(args.len(), |i: int| if 0 <= i < args.len() { refactor_generic_argument(src, dest, args[i]) } else { args[i] });
    if n > 0 {
        lemma_gargs_legal(src, dest, args, n - 1);
        match args[n - 1] {
            SGenericArgument::Type(t) => law_refactoring_keeps_legality(src, dest, t),
            _ => {},
        }
        assert(m.subrange(0, n).subrange(0, n - 1) =~= m.subrange(0, n - 1));
        assert(args.subrange(0, n).subrange(0, n - 1) =~= args.subrange(0, n - 1));
    }
}

} // verus!
