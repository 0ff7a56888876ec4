//! What the procedural macros generate: the proxy of a trait that carries
//! the path of its module, its trampolines as invocations of
//! `generate_trampoline!`, the import of the trait from the user crate, and
//! the impls and assertions of the marker traits of exchangeable types.

use vstd::prelude::*;
use vstd::string::{StrSliceExecFns, StringExecFns};
use crate::ast::{Attribute, ItemTrait, Meta, Signature};
use crate::attrs::{meta_path, path_ident, path_is};
use crate::domain_create::{method_sigs, selfless};
use crate::print::{
    fn_args_str, fn_args_to_string, generic_arguments_str, path_str, return_type_str, type_str, view_sig,
    write_generic_arguments, write_path, write_return_type, write_type, SSignature,
};
use crate::proxy::lowercase;
use crate::text::{join, join_strings, owned, strs};
use crate::ty::{Lit, Path, PathArguments, SLit, SPath, SPathArguments, Type};

verus! {

/// Why the macros cannot generate a proxy or an import.
pub enum MacroError {
    /// No `module_path = "..."` attribute.
    ModulePathNotFound,
    /// The first `module_path` attribute's value is not a string.
    ModulePathNotString,
}

/// The module path a `module_path = "..."` attribute gives: the first
/// attribute of that form decides.
pub open spec fn module_path_of(attrs: Seq<Attribute>) -> Result<Seq<char>, MacroError>
    decreases attrs.len(),
{
    if attrs.len() == 0 {
        Err(MacroError::ModulePathNotFound)
    } else {
        match attrs[0].meta {
            Some(Meta::NameValue(p, l)) => if path_ident(p@) == Some("module_path"@) {
                match l {
                    Lit::Str(v) => Ok(v@),
                    _ => Err(MacroError::ModulePathNotString),
                }
            } else {
                module_path_of(attrs.drop_first())
            },
            _ => module_path_of(attrs.drop_first()),
        }
    }
}

/// The module path a `module_path` attribute gives (see [`module_path_of`]).
pub fn find_module_path(attrs: &Vec<Attribute>) -> (r: Result<String, MacroError>)
    ensures
        match r {
            Ok(v) => module_path_of(attrs@) == Ok::<Seq<char>, MacroError>(v@),
            Err(e) => module_path_of(attrs@) == Err::<Seq<char>, MacroError>(e),
        },
{
    let mut i: usize = 0;
    assert(attrs@.subrange(0, attrs@.len() as int) =~= attrs@);
    while i < attrs.len()
        invariant
            i <= attrs@.len(),
            module_path_of(attrs@) == module_path_of(attrs@.subrange(i as int, attrs@.len() as int)),
        decreases attrs@.len() - i,
    {
        assert(attrs@.subrange(i as int, attrs@.len() as int).drop_first() =~= attrs@.subrange(i + 1, attrs@.len() as int));
        match &attrs[i].meta {
            Some(Meta::NameValue(p, l)) => {
                if path_is(p, "module_path") {
                    return match l {
                        Lit::Str(v) => Ok(v.clone()),
                        _ => Err(MacroError::ModulePathNotString),
                    };
                }
            },
            _ => {},
        }
        i += 1;
    }
    Err(MacroError::ModulePathNotFound)
}

/// The parts of `s[i..]` between occurrences of `::`, scanning from the
/// left, after the parts `parts` and with `cur` the part begun so far.
pub open spec fn split_from(s: Seq<char>, i: int, cur: Seq<char>, parts: Seq<Seq<char>>) -> Seq<Seq<char>>
    decreases s.len() - i,
{
    if i < 0 || i >= s.len() {
        parts.push(cur)
    } else if i + 1 < s.len() && s[i] == ':' && s[i + 1] == ':' {
        split_from(s, i + 2, Seq::empty(), parts.push(cur))
    } else {
        split_from(s, i + 1, cur.push(s[i]), parts)
    }
}

/// The parts of `s` between the occurrences of `::`, as `str::split` gives them.
pub open spec fn split_colons(s: Seq<char>) -> Seq<Seq<char>> {
    split_from(s, 0, Seq::empty(), Seq::empty())
}

proof fn lemma_split_nonempty(s: Seq<char>, i: int, cur: Seq<char>, parts: Seq<Seq<char>>)
    ensures
        split_from(s, i, cur, parts).len() >= 1,
    decreases s.len() - i,
{
    if 0 <= i < s.len() {
        if i + 1 < s.len() && s[i] == ':' && s[i + 1] == ':' {
            lemma_split_nonempty(s, i + 2, Seq::empty(), parts.push(cur));
        } else {
            lemma_split_nonempty(s, i + 1, cur.push(s[i]), parts);
        }
    }
}

/// The path that imports the trait `ident` from the user crate, whose
/// module path (from `module_path!()`) is `mod_path`: `usr`, the module
/// path without its crate, then the trait.
pub open spec fn import_path_segs(mod_path: Seq<char>, ident: Seq<char>) -> Seq<Seq<char>> {
    seq!["usr"@] + split_colons(mod_path).drop_first() + seq![ident]
}

/// The parts of `s` between the occurrences of `::` (see [`split_colons`]).
pub fn split_on_colons(s: &String) -> (r: Vec<String>)
    ensures
        strs(r@) == split_colons(s@),
{
    let n = s.as_str().unicode_len();
    let mut parts: Vec<String> = Vec::new();
    let mut cur = String::new();
    let mut i: usize = 0;
    assert(strs(parts@) =~= Seq::<Seq<char>>::empty());
    while i < n
        invariant
            i <= n,
            n == s@.len(),
            split_from(s@, i as int, cur@, strs(parts@)) == split_colons(s@),
        decreases n - i,
    {
        let c = s.as_str().get_char(i);
        if c == ':' && i + 1 < n && s.as_str().get_char(i + 1) == ':' {
            let ghost before = strs(parts@);
            let ghost cv = cur@;
            parts.push(cur);
            assert(strs(parts@) =~= before.push(cv));
            cur = String::new();
            i = i + 2;
        } else {
            crate::text::push_char_pub(&mut cur, c);
            i = i + 1;
        }
    }
    let ghost before = strs(parts@);
    let ghost cv = cur@;
    parts.push(cur);
    assert(strs(parts@) =~= before.push(cv));
    parts
}

/// The segments of the import of trait `ident` (see [`import_path_segs`]).
pub fn generate_import_path_segs(mod_path: &String, ident: &String) -> (r: Vec<String>)
    ensures
        strs(r@) == import_path_segs(mod_path@, ident@),
{
    let parts = split_on_colons(mod_path);
    let mut r: Vec<String> = Vec::new();
    r.push(owned("usr"));
    let mut i: usize = 1;
    assert(parts@.len() >= 1) by {
        assert(strs(parts@).len() == split_colons(mod_path@).len());
        lemma_split_nonempty(mod_path@, 0, Seq::empty(), Seq::empty());
    }
    while i < parts.len()
        invariant
            1 <= i <= parts@.len(),
            r@.len() == i,
            r@[0]@ == "usr"@,
            forall|j: int| 1 <= j < i ==> #[trigger] r@[j]@ == parts@[j]@,
        decreases parts@.len() - i,
    {
        r.push(parts[i].clone());
        i += 1;
    }
    r.push(ident.clone());
    assert(strs(r@) =~= seq!["usr"@] + strs(parts@).drop_first() + seq![ident@]);
    r
}

pub open spec fn macro_proxy_impl_one_str(t: Seq<char>, s: SSignature) -> Seq<char> {
    let m = s.ident;
    let args = fn_args_str(s.inputs);
    let rtn = return_type_str(s.output);
    let cleaned = fn_args_str(selfless(s.inputs));
    "fn "@
            + m
            + "("@
            + args
            + ")"@
            + rtn
            + " { let caller_domain = unsafe { sys_update_current_domain_id(self.domain_id) }; #[cfg(not(feature = \"trampoline\"))] let r = self.domain."@
            + m
            + "("@
            + cleaned
            + "); #[cfg(feature = \"trampoline\")] let r = unsafe { "@
            + t
            + "_"@
            + m
            + "_tramp(&self.domain, "@
            + cleaned
            + ") }; unsafe { sys_update_current_domain_id(caller_domain) }; r }"@
}

pub open spec fn macro_trampoline_str(t: Seq<char>, s: SSignature) -> Seq<char> {
    let m = s.ident;
    let low = lowercase(t);
    let cleaned = fn_args_str(selfless(s.inputs));
    let rtn = return_type_str(s.output);
    "::codegen_lib::generate_trampoline!(generated_proxy_domain_"@
            + low
            + ": &alloc::boxed::Box<dyn "@
            + t
            + ">, "@
            + m
            + "("@
            + cleaned
            + ")"@
            + rtn
            + ");"@
}

/// What the `redidl_generate_proxy` macro generates for a trait named `t`
/// with method signatures `sigs`, whose module path is `mod_path`.
pub open spec fn macro_proxy_str(t: Seq<char>, mod_path: Seq<char>, sigs: Seq<SSignature>) -> Seq<char> {
    let import = join(import_path_segs(mod_path, t), "::"@);
    let p = t + "Proxy"@;
    let impls = join(Seq::new(sigs.len(), |i: int| macro_proxy_impl_one_str(t, sigs[i])), " "@);
    let tramps = join(Seq::new(sigs.len(), |i: int| macro_trampoline_str(t, sigs[i])), " "@);
    "use ::"@
            + import
            + "; pub struct "@
            + p
            + " { domain: ::alloc::boxed::Box<dyn "@
            + t
            + ">, domain_id: u64, } unsafe impl Sync for "@
            + p
            + " {} unsafe impl Send for "@
            + p
            + " {} impl "@
            + p
            + " { pub fn new(domain_id: u64, domain: ::alloc::boxed::Box<dyn "@
            + t
            + ">) -> Self { Self { domain, domain_id, } } } impl "@
            + t
            + " for "@
            + p
            + " { "@
            + impls
            + " } "@
            + tramps
}

/// What the `redidl_generate_proxy` macro generates for the trait `tr`.
pub open spec fn macro_proxy(tr: ItemTrait) -> Result<Seq<char>, MacroError> {
    match module_path_of(tr.attrs@) {
        Err(e) => Err(e),
        Ok(mp) => Ok(macro_proxy_str(tr.ident@, mp, method_sigs(tr.items@))),
    }
}

fn macro_impl_one(t: &String, s: &Signature) -> (r: String)
    ensures
        r@ == macro_proxy_impl_one_str(t@, view_sig(*s)),
{
    let m = s.ident.clone();
    let args = fn_args_to_string(&s.inputs);
    let mut rtn = String::new();
    write_return_type(&mut rtn, &s.output);
    let cleaned = crate::domain_create::selfless_args_text(&s.inputs);
    let mut out = String::new();
    out.append("fn ");
    out.append(m.as_str());
    out.append("(");
    out.append(args.as_str());
    out.append(")");
    out.append(rtn.as_str());
    out.append(" { let caller_domain = unsafe { sys_update_current_domain_id(self.domain_id) }; #[cfg(not(feature = \"trampoline\"))] let r = self.domain.");
    out.append(m.as_str());
    out.append("(");
    out.append(cleaned.as_str());
    out.append("); #[cfg(feature = \"trampoline\")] let r = unsafe { ");
    out.append(t.as_str());
    out.append("_");
    out.append(m.as_str());
    out.append("_tramp(&self.domain, ");
    out.append(cleaned.as_str());
    out.append(") }; unsafe { sys_update_current_domain_id(caller_domain) }; r }");
    out
}

fn macro_trampoline(t: &String, low: &String, s: &Signature) -> (r: String)
    requires
        low@ == lowercase(t@),
    ensures
        r@ == macro_trampoline_str(t@, view_sig(*s)),
{
    let m = s.ident.clone();
    let cleaned = crate::domain_create::selfless_args_text(&s.inputs);
    let mut rtn = String::new();
    write_return_type(&mut rtn, &s.output);
    let mut out = String::new();
    out.append("::codegen_lib::generate_trampoline!(generated_proxy_domain_");
    out.append(low.as_str());
    out.append(": &alloc::boxed::Box<dyn ");
    out.append(t.as_str());
    out.append(">, ");
    out.append(m.as_str());
    out.append("(");
    out.append(cleaned.as_str());
    out.append(")");
    out.append(rtn.as_str());
    out.append(");");
    out
}

/// What the `redidl_generate_proxy` macro generates for the trait `input`
/// (see [`macro_proxy`]). A trait without a `module_path` attribute whose
/// value is a string gets a `MacroError` in place of the text.
pub fn redidl_generate_proxy_text(input: &ItemTrait) -> (r: Result<String, MacroError>)
    ensures
        match macro_proxy(*input) {
            Ok(text) => r matches Ok(s) && s@ == text,
            Err(e) => r == Err::<String, MacroError>(e),
        },
{
    let mp = match find_module_path(&input.attrs) {
        Err(e) => {
            return Err(e);
        },
        Ok(v) => v,
    };
    let sigs = crate::domain_create::method_signatures_of(&input.items);
    let ghost sv = Seq::new(sigs@.len(), |i: int| view_sig(sigs@[i]));
    let t = &input.ident;
    let segs = generate_import_path_segs(&mp, t);
    let import = join_strings(&segs, "::");
    let mut p = t.clone();
    p.append("Proxy");
    let low = crate::proxy::to_lowercase_pub(t);
    let mut ones: Vec<String> = Vec::new();
    let mut tramp_parts: Vec<String> = Vec::new();
    let mut i: usize = 0;
    while i < sigs.len()
        invariant
            i <= sigs@.len(),
            low@ == lowercase(t@),
            ones@.len() == i,
            tramp_parts@.len() == i,
            forall|j: int| 0 <= j < i ==> #[trigger] ones@[j]@ == macro_proxy_impl_one_str(t@, view_sig(sigs@[j])),
            forall|j: int| 0 <= j < i ==> #[trigger] tramp_parts@[j]@ == macro_trampoline_str(t@, view_sig(sigs@[j])),
        decreases sigs@.len() - i,
    {
        ones.push(macro_impl_one(t, &sigs[i]));
        tramp_parts.push(macro_trampoline(t, &low, &sigs[i]));
        i += 1;
    }
    assert(strs(ones@) =~= Seq::new(sv.len(), |i: int| macro_proxy_impl_one_str(t@, sv[i])));
    assert(strs(tramp_parts@) =~= Seq::new(sv.len(), |i: int| macro_trampoline_str(t@, sv[i])));
    let impls = join_strings(&ones, " ");
    let tramps = join_strings(&tramp_parts, " ");
    let mut out = String::new();
    out.append("use ::");
    out.append(import.as_str());
    out.append("; pub struct ");
    out.append(p.as_str());
    out.append(" { domain: ::alloc::boxed::Box<dyn ");
    out.append(t.as_str());
    out.append(">, domain_id: u64, } unsafe impl Sync for ");
    out.append(p.as_str());
    out.append(" {} unsafe impl Send for ");
    out.append(p.as_str());
    out.append(" {} impl ");
    out.append(p.as_str());
    out.append(" { pub fn new(domain_id: u64, domain: ::alloc::boxed::Box<dyn ");
    out.append(t.as_str());
    out.append(">) -> Self { Self { domain, domain_id, } } } impl ");
    out.append(t.as_str());
    out.append(" for ");
    out.append(p.as_str());
    out.append(" { ");
    out.append(impls.as_str());
    out.append(" } ");
    out.append(tramps.as_str());
    Ok(out)
}

/// What the `redidl_generate_import` macro generates for a struct named
/// `ident` with attributes `attrs`: the import of the trait of that name.
pub open spec fn macro_import(attrs: Seq<Attribute>, ident: Seq<char>) -> Result<Seq<char>, MacroError> {
    match module_path_of(attrs) {
        Err(e) => Err(e),
        Ok(mp) => Ok("use ::"@ + join(import_path_segs(mp, ident), "::"@) + ";"@),
    }
}

/// What the `redidl_generate_import` macro generates (see [`macro_import`]).
pub fn redidl_generate_import_text(attrs: &Vec<Attribute>, ident: &String) -> (r: Result<String, MacroError>)
    ensures
        match macro_import(attrs@, ident@) {
            Ok(text) => r matches Ok(s) && s@ == text,
            Err(e) => r == Err::<String, MacroError>(e),
        },
{
    let mp = match find_module_path(attrs) {
        Err(e) => {
            return Err(e);
        },
        Ok(v) => v,
    };
    let segs = generate_import_path_segs(&mp, ident);
    let mut out = owned("use ::");
    let j = join_strings(&segs, "::");
    out.append(j.as_str());
    out.append(";");
    Ok(out)
}

} // verus!

verus! {

/// The errors `#[proxy]` reports about the members of a trait: one for each
/// member that is not a method (an associated type, a const, a macro).
pub open spec fn proxy_member_errors(items: Seq<crate::ast::TraitItem>) -> Seq<Seq<char>>
    decreases items.len(),
{
    if items.len() == 0 {
        Seq::empty()
    } else {
        proxy_member_errors(items.drop_last()) + match items.last() {
            crate::ast::TraitItem::Type(_, _) => seq!["traits marked #[proxy] may only contain methods"@],
            crate::ast::TraitItem::Const(_, _) => seq!["traits marked #[proxy] may only contain methods"@],
            crate::ast::TraitItem::Macro(_) => seq!["traits marked #[proxy] may only contain methods"@],
            _ => Seq::empty(),
        }
    }
}

/// The errors `#[proxy]` reports about the trait `tr` (see
/// [`proxy_member_errors`]).
pub fn ensure_proxy(tr: &ItemTrait) -> (r: Vec<String>)
    ensures
        strs(r@) == proxy_member_errors(tr.items@),
{
    let mut r: Vec<String> = Vec::new();
    let mut i: usize = 0;
    assert(strs(r@) =~= proxy_member_errors(tr.items@.subrange(0, 0)));
    while i < tr.items.len()
        invariant
            i <= tr.items@.len(),
            strs(r@) == proxy_member_errors(tr.items@.subrange(0, i as int)),
        decreases tr.items@.len() - i,
    {
        let ghost cur = tr.items@.subrange(0, i + 1);
        assert(cur.drop_last() =~= tr.items@.subrange(0, i as int));
        assert(cur.last() == tr.items@[i as int]);
        let ghost before = strs(r@);
        let bad = match &tr.items[i] {
            crate::ast::TraitItem::Type(_, _) => true,
            crate::ast::TraitItem::Const(_, _) => true,
            crate::ast::TraitItem::Macro(_) => true,
            _ => false,
        };
        if bad {
            r.push(owned("traits marked #[proxy] may only contain methods"));
            assert(strs(r@) =~= before + seq!["traits marked #[proxy] may only contain methods"@]);
        } else {
            assert(strs(r@) =~= before + Seq::<Seq<char>>::empty());
        }
        i += 1;
    }
    assert(tr.items@.subrange(0, i as int) =~= tr.items@);
    r
}

/// The impl `#[proxy]` adds after the trait `ident`: the trait object is a
/// proxy.
pub fn proxy_marker_impl(ident: &String) -> (r: String)
    ensures
        r@ == "impl idl_types::Proxy for dyn "@ + ident@ + " {}"@,
{
    let mut out = owned("impl idl_types::Proxy for dyn ");
    out.append(ident.as_str());
    out.append(" {}");
    out
}

/// The attributes `redidl_resolve_module_and_generate_proxy` adds to a
/// trait, as source text: a marker, and the module path the compiler
/// fills in.
pub fn resolve_module_attributes() -> (r: Vec<String>)
    ensures
        strs(r@) == seq!["#[redidl_codegen_generate_proxy_placeholder_]"@, "#[module_path = module_path!()]"@],
{
    let mut r: Vec<String> = Vec::new();
    r.push(owned("#[redidl_codegen_generate_proxy_placeholder_]"));
    r.push(owned("#[module_path = module_path!()]"));
    assert(strs(r@) =~= seq!["#[redidl_codegen_generate_proxy_placeholder_]"@, "#[module_path = module_path!()]"@]);
    r
}

// ---------------------------------------------------------------------------
// The marker macros of exchangeable types.

/// The impl of `marker` that a `declare_*` macro writes for the path `p`:
/// generic over the angle-bracketed arguments of the path's first segment,
/// when it has such.
pub open spec fn marker_impl_str(p: SPath, marker: Seq<char>) -> Seq<char> {
    "impl"@ + match p.segments[0].arguments {
        SPathArguments::AngleBracketed(args) => "<"@ + generic_arguments_str(args) + ">"@,
        _ => Seq::empty(),
    } + " "@ + marker + " for "@ + path_str(p) + " {}"@
}

/// The impl of `marker` for the path `p` (see [`marker_impl_str`]).
pub fn marker_impl(p: &Path, marker: &str) -> (r: String)
    requires
        p@.segments.len() > 0,
    ensures
        r@ == marker_impl_str(p@, marker@),
{
    let mut out = owned("impl");
    assert(p@.segments[0] == p.segments@[0]@);
    match &p.segments[0].arguments {
        PathArguments::AngleBracketed(args) => {
            out.append("<");
            write_generic_arguments(&mut out, args);
            out.append(">");
        },
        _ => {},
    }
    out.append(" ");
    out.append(marker);
    out.append(" for ");
    write_path(&mut out, p);
    out.append(" {}");
    out
}

/// What `declare_safe_copy!` writes: the type is safe to copy and may be
/// held in shared memory.
pub fn declare_safe_copy_text(p: &Path) -> (r: String)
    requires
        p@.segments.len() > 0,
    ensures
        r@ == marker_impl_str(p@, "red_idl::SafeCopy"@) + " "@ + marker_impl_str(p@, "red_idl::RRefable"@),
{
    let mut out = marker_impl(p, "red_idl::SafeCopy");
    let second = marker_impl(p, "red_idl::RRefable");
    out.append(" ");
    out.append(second.as_str());
    out
}

/// What `declare_functional!` writes.
pub fn declare_functional_text(p: &Path) -> (r: String)
    requires
        p@.segments.len() > 0,
    ensures
        r@ == marker_impl_str(p@, "red_idl::Functional"@),
{
    marker_impl(p, "red_idl::Functional")
}

/// What `declare_rrefable!` writes.
pub fn declare_rrefable_text(p: &Path) -> (r: String)
    requires
        p@.segments.len() > 0,
    ensures
        r@ == marker_impl_str(p@, "red_idl::RRefable"@),
{
    marker_impl(p, "red_idl::RRefable")
}

/// What the `require_*!` macros write: a compile-time assertion that the
/// type `t` implements `bound`.
pub fn require_impl_text(t: &Type, bound: &str) -> (r: String)
    ensures
        r@ == "red_idl::assert_impl_all!("@ + type_str(t@) + ": "@ + bound@ + ");"@,
{
    let mut out = owned("red_idl::assert_impl_all!(");
    write_type(&mut out, t);
    out.append(": ");
    out.append(bound);
    out.append(");");
    out
}

/// What `assign_id!(id, ty)` writes: the type identifier of `ty` is `id`.
pub fn assign_id_impl(id: &String, t: &Type) -> (r: String)
    ensures
        r@ == "impl crate::sys::TypeIdentifiable for "@ + type_str(t@) + " { fn get_id() -> u64 { "@ + id@ + " } }"@,
{
    let mut out = owned("impl crate::sys::TypeIdentifiable for ");
    write_type(&mut out, t);
    out.append(" { fn get_id() -> u64 { ");
    out.append(id.as_str());
    out.append(" } }");
    out
}

} // verus!
