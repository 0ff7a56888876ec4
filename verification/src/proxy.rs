//! Proxies: for each trait marked `interface`, a proxy struct that moves the
//! calling thread into the callee's domain around each call, and the
//! trampolines that let a panicking callee return an error; and the `Proxy`
//! struct that hands out the domain creates.

use vstd::prelude::*;
use vstd::string::StringExecFns;
use crate::ast::{Attribute, FnArg, ItemTrait, Signature, TraitItem};
use crate::attrs::{has_attr, has_attribute, remove_attribute, without_attr};
use crate::domain_create::{doc_attribute, is_doc_attr, method_sigs, selfless, DomainCreateRecord};
use crate::print::{
    fn_args_str, fn_args_to_string, path_str, return_type_str, sig_str, sig_to_string, view_fn_arg,
    view_fn_args, view_sig, write_path, write_return_type, SFnArg, SSignature,
};
use crate::text::{join, join_strings, owned, strs};
use crate::ty::{SPath, SPathSegment, SReturnType, SType, STypeParamBound, ReturnType, Type, TypeParamBound};
use crate::utils::{boxed_type, get_type_inside_of_box, is_box_type, is_boxed};

verus! {

/// What std's `str::to_lowercase` gives for `s`.
pub uninterp spec fn lowercase(s: Seq<char>) -> Seq<char>;

/// Trusted: calls std's `str::to_lowercase`, whose result depends on `s`
/// alone; what it does to each character (Unicode's lowercase mapping) is
/// left to the name [`lowercase`].
#[verifier::external_body]
fn to_lowercase(s: &String) -> (r: String)
    ensures
        r@ == lowercase(s@),
{
    s.to_lowercase()
}

pub open spec fn proxy_struct_str(t: Seq<char>, p: Seq<char>) -> Seq<char> {
    "#[cfg(feature = \"proxy\")] pub struct "@
            + p
            + " { domain: ::alloc::boxed::Box<dyn "@
            + t
            + ">, domain_id: u64, } #[cfg(feature = \"proxy\")] unsafe impl Sync for "@
            + p
            + " {} #[cfg(feature = \"proxy\")] unsafe impl Send for "@
            + p
            + " {} #[cfg(feature = \"proxy\")] impl "@
            + p
            + " { pub fn new(domain_id: u64, domain: ::alloc::boxed::Box<dyn "@
            + t
            + ">) -> Self { Self { domain, domain_id, } } }"@
}

/// The proxy's implementation of one method: switch to the callee's domain,
/// call (through the trampoline when it is on), switch back.
pub open spec fn proxy_impl_one_str(t: Seq<char>, s: SSignature) -> Seq<char> {
    let m = s.ident;
    let args = fn_args_str(s.inputs);
    let rtn = return_type_str(s.output);
    let cleaned = fn_args_str(selfless(s.inputs));
    "fn "@
            + m
            + "("@
            + args
            + ")"@
            + rtn
            + " { let caller_domain = unsafe { ::libsyscalls::syscalls::sys_update_current_domain_id(self.domain_id) };"@
            + " #[cfg(not(feature = \"trampoline\"))] let r = self.domain."@
            + m
            + "("@
            + cleaned
            + "); #[cfg(feature = \"trampoline\")] let r = unsafe { "@
            + t
            + "_"@
            + m
            + "_tramp(&self.domain, "@
            + cleaned
            + ") }; #[cfg(feature = \"trampoline\")] unsafe { ::libsyscalls::syscalls::sys_discard_cont(); }"@
            + " unsafe { ::libsyscalls::syscalls::sys_update_current_domain_id(caller_domain) }; r }"@
}

/// Every proxy method saves the caller's domain id as it switches to the
/// callee's domain, and its last act, after the callee returned, is to
/// switch back to the saved id.
pub proof fn law_proxy_method_restores_caller_domain(t: Seq<char>, s: SSignature)
    ensures
        exists|pre: Seq<char>, mid: Seq<char>|
            proxy_impl_one_str(t, s) == pre
                + " { let caller_domain = unsafe { ::libsyscalls::syscalls::sys_update_current_domain_id(self.domain_id) };"@
                + mid + " unsafe { ::libsyscalls::syscalls::sys_update_current_domain_id(caller_domain) }; r }"@,
{
    let m = s.ident;
    let args = fn_args_str(s.inputs);
    let rtn = return_type_str(s.output);
    let cleaned = fn_args_str(selfless(s.inputs));
    let pre = "fn "@ + m + "("@ + args + ")"@ + rtn;
    let mid = " #[cfg(not(feature = \"trampoline\"))] let r = self.domain."@ + m + "("@ + cleaned
        + "); #[cfg(feature = \"trampoline\")] let r = unsafe { "@ + t + "_"@ + m + "_tramp(&self.domain, "@ + cleaned
        + ") }; #[cfg(feature = \"trampoline\")] unsafe { ::libsyscalls::syscalls::sys_discard_cont(); }"@;
    assert(proxy_impl_one_str(t, s) =~= pre
        + " { let caller_domain = unsafe { ::libsyscalls::syscalls::sys_update_current_domain_id(self.domain_id) };"@
        + mid + " unsafe { ::libsyscalls::syscalls::sys_update_current_domain_id(caller_domain) }; r }"@);
}

/// The trampoline items for one method.
pub open spec fn trampoline_str(t: Seq<char>, s: SSignature) -> Seq<char> {
    let m = s.ident;
    let dv = "redidl_generated_domain_"@ + lowercase(t);
    let args = fn_args_str(selfless(s.inputs));
    let rtn = return_type_str(s.output);
    "#[cfg(feature = \"trampoline\")] #[cfg(feature = \"proxy\")] #[no_mangle] extern fn "@
            + t
            + "_"@
            + m
            + "("@
            + dv
            + ": &alloc::boxed::Box<dyn "@
            + t
            + ">, "@
            + args
            + ")"@
            + rtn
            + " { "@
            + dv
            + "."@
            + m
            + "("@
            + args
            + ") } #[cfg(feature = \"trampoline\")] #[cfg(feature = \"proxy\")] #[no_mangle] extern fn "@
            + t
            + "_"@
            + m
            + "_err("@
            + dv
            + ": &alloc::boxed::Box<dyn "@
            + t
            + ">, "@
            + args
            + ")"@
            + rtn
            + " { #[cfg(feature = \"proxy-log-error\")] ::console::println!(\"proxy: {} aborted\", stringify!("@
            + m
            + ")); Err(unsafe { crate::rpc::RpcError::panic() }) } #[cfg(feature = \"trampoline\")] #[cfg(feature = \"proxy\")] #[no_mangle] extern \"C\" fn "@
            + t
            + "_"@
            + m
            + "_addr() -> u64 { "@
            + t
            + "_"@
            + m
            + "_err as u64 } #[cfg(feature = \"proxy\")] #[cfg(feature = \"trampoline\")] extern { fn "@
            + t
            + "_"@
            + m
            + "_tramp("@
            + dv
            + ": &alloc::boxed::Box<dyn "@
            + t
            + ">, "@
            + args
            + ")"@
            + rtn
            + "; } #[cfg(feature = \"proxy\")] #[cfg(feature = \"trampoline\")] ::unwind::trampoline!("@
            + t
            + "_"@
            + m
            + ");"@
}

/// Everything generated for an interface trait `t` with methods `sigs`.
pub open spec fn interface_proxy_str(t: Seq<char>, sigs: Seq<SSignature>) -> Seq<char> {
    let p = t + "Proxy"@;
    let st = proxy_struct_str(t, p);
    let impls = join(Seq::new(sigs.len(), |i: int| proxy_impl_one_str(t, sigs[i])), " "@);
    let tramps = join(Seq::new(sigs.len(), |i: int| trampoline_str(t, sigs[i])), " "@);
    "#[doc = \"----------"@
            + t
            + " Proxy generation begins-------------\"] "@
            + st
            + " #[cfg(feature = \"proxy\")] impl "@
            + t
            + " for "@
            + p
            + " { "@
            + impls
            + " } #[doc = \"----------"@
            + t
            + " Trampoline generation begins-------------\"] "@
            + tramps
}

/// What is generated for the trait `tr`: nothing unless it is marked
/// `interface`.
pub open spec fn interface_proxy(tr: ItemTrait) -> Option<Seq<char>> {
    if has_attr(tr.attrs@, "interface"@) {
        Some(interface_proxy_str(tr.ident@, method_sigs(tr.items@)))
    } else {
        None
    }
}

/// Generates the proxy of the trait `input` when it is marked `interface`
/// (see [`interface_proxy`]): the trait then loses the attribute and gets a
/// doc comment that marks it.
pub fn generate_interface_proxy(input: &mut ItemTrait) -> (r: Option<String>)
    ensures
        match interface_proxy(*old(input)) {
            None => r is None && *final(input) == *old(input),
            Some(text) => {
                &&& r matches Some(s) && s@ == text
                &&& final(input).attrs@.len() == without_attr(old(input).attrs@, "interface"@).len() + 1
                &&& final(input).attrs@.drop_last() == without_attr(old(input).attrs@, "interface"@)
                &&& is_doc_attr(final(input).attrs@.last(), "redIDL Auto Generated: interface trait. Generations are below"@)
                &&& final(input).items == old(input).items
                &&& final(input).ident == old(input).ident
                &&& final(input).vis == old(input).vis
                &&& final(input).generics == old(input).generics
                &&& final(input).supertraits == old(input).supertraits
            },
        },
{
    if !has_attribute(&input.attrs, "interface") {
        return None;
    }
    let sigs = crate::domain_create::method_signatures_of(&input.items);
    let text = interface_proxy_text(&input.ident, &sigs);
    remove_attribute(&mut input.attrs, "interface");
    input.attrs.push(doc_attribute("redIDL Auto Generated: interface trait. Generations are below"));
    Some(text)
}

fn proxy_impl_one(t: &String, s: &Signature) -> (r: String)
    ensures
        r@ == proxy_impl_one_str(t@, view_sig(*s)),
{
    let m = s.ident.clone();
    let args = fn_args_to_string(&s.inputs);
    let mut rtn = String::new();
    write_return_type(&mut rtn, &s.output);
    let cleaned = crate::domain_create::selfless_args_text(&s.inputs);
    let mut out = String::new();
    out.append("fn ");
    out.append(m.as_str());
    out.append("(");
    out.append(args.as_str());
    out.append(")");
    out.append(rtn.as_str());
    out.append(" { let caller_domain = unsafe { ::libsyscalls::syscalls::sys_update_current_domain_id(self.domain_id) };");
    out.append(" #[cfg(not(feature = \"trampoline\"))] let r = self.domain.");
    out.append(m.as_str());
    out.append("(");
    out.append(cleaned.as_str());
    out.append("); #[cfg(feature = \"trampoline\")] let r = unsafe { ");
    out.append(t.as_str());
    out.append("_");
    out.append(m.as_str());
    out.append("_tramp(&self.domain, ");
    out.append(cleaned.as_str());
    out.append(") }; #[cfg(feature = \"trampoline\")] unsafe { ::libsyscalls::syscalls::sys_discard_cont(); }");
    out.append(" unsafe { ::libsyscalls::syscalls::sys_update_current_domain_id(caller_domain) }; r }");
    out
}

fn trampoline(t: &String, dv: &String, s: &Signature) -> (r: String)
    requires
        dv@ == "redidl_generated_domain_"@ + lowercase(t@),
    ensures
        r@ == trampoline_str(t@, view_sig(*s)),
{
    let m = s.ident.clone();
    let args = crate::domain_create::selfless_args_text(&s.inputs);
    let mut rtn = String::new();
    write_return_type(&mut rtn, &s.output);
    let mut out = String::new();
    out.append("#[cfg(feature = \"trampoline\")] #[cfg(feature = \"proxy\")] #[no_mangle] extern fn ");
    out.append(t.as_str());
    out.append("_");
    out.append(m.as_str());
    out.append("(");
    out.append(dv.as_str());
    out.append(": &alloc::boxed::Box<dyn ");
    out.append(t.as_str());
    out.append(">, ");
    out.append(args.as_str());
    out.append(")");
    out.append(rtn.as_str());
    out.append(" { ");
    out.append(dv.as_str());
    out.append(".");
    out.append(m.as_str());
    out.append("(");
    out.append(args.as_str());
    out.append(") } #[cfg(feature = \"trampoline\")] #[cfg(feature = \"proxy\")] #[no_mangle] extern fn ");
    out.append(t.as_str());
    out.append("_");
    out.append(m.as_str());
    out.append("_err(");
    out.append(dv.as_str());
    out.append(": &alloc::boxed::Box<dyn ");
    out.append(t.as_str());
    out.append(">, ");
    out.append(args.as_str());
    out.append(")");
    out.append(rtn.as_str());
    out.append(" { #[cfg(feature = \"proxy-log-error\")] ::console::println!(\"proxy: {} aborted\", stringify!(");
    out.append(m.as_str());
    out.append(")); Err(unsafe { crate::rpc::RpcError::panic() }) } #[cfg(feature = \"trampoline\")] #[cfg(feature = \"proxy\")] #[no_mangle] extern \"C\" fn ");
    out.append(t.as_str());
    out.append("_");
    out.append(m.as_str());
    out.append("_addr() -> u64 { ");
    out.append(t.as_str());
    out.append("_");
    out.append(m.as_str());
    out.append("_err as u64 } #[cfg(feature = \"proxy\")] #[cfg(feature = \"trampoline\")] extern { fn ");
    out.append(t.as_str());
    out.append("_");
    out.append(m.as_str());
    out.append("_tramp(");
    out.append(dv.as_str());
    out.append(": &alloc::boxed::Box<dyn ");
    out.append(t.as_str());
    out.append(">, ");
    out.append(args.as_str());
    out.append(")");
    out.append(rtn.as_str());
    out.append("; } #[cfg(feature = \"proxy\")] #[cfg(feature = \"trampoline\")] ::unwind::trampoline!(");
    out.append(t.as_str());
    out.append("_");
    out.append(m.as_str());
    out.append(");");
    out
}

/// `s` in lower case (see [`lowercase`]).
pub fn to_lowercase_pub(s: &String) -> (r: String)
    ensures
        r@ == lowercase(s@),
{
    to_lowercase(s)
}

/// Everything generated for an interface trait (see [`interface_proxy_str`]).
pub fn interface_proxy_text(t: &String, sigs: &Vec<Signature>) -> (r: String)
    ensures
        r@ == interface_proxy_str(t@, Seq::new(sigs@.len(), |i: int| view_sig(sigs@[i]))),
{
    let ghost sv = Seq::new(sigs@.len(), |i: int| view_sig(sigs@[i]));
    let mut p = t.clone();
    p.append("Proxy");
    let mut st = String::new();
    {
        let mut out = String::new();
        out.append("#[cfg(feature = \"proxy\")] pub struct ");
        out.append(p.as_str());
        out.append(" { domain: ::alloc::boxed::Box<dyn ");
        out.append(t.as_str());
        out.append(">, domain_id: u64, } #[cfg(feature = \"proxy\")] unsafe impl Sync for ");
        out.append(p.as_str());
        out.append(" {} #[cfg(feature = \"proxy\")] unsafe impl Send for ");
        out.append(p.as_str());
        out.append(" {} #[cfg(feature = \"proxy\")] impl ");
        out.append(p.as_str());
        out.append(" { pub fn new(domain_id: u64, domain: ::alloc::boxed::Box<dyn ");
        out.append(t.as_str());
        out.append(">) -> Self { Self { domain, domain_id, } } }");
        st = out;
    }
    let mut dv = owned("redidl_generated_domain_");
    let low = to_lowercase(t);
    dv.append(low.as_str());
    let mut one_parts: Vec<String> = Vec::new();
    let mut tramp_parts: Vec<String> = Vec::new();
    let mut i: usize = 0;
    while i < sigs.len()
        invariant
            i <= sigs@.len(),
            dv@ == "redidl_generated_domain_"@ + lowercase(t@),
            one_parts@.len() == i,
            tramp_parts@.len() == i,
            forall|j: int| 0 <= j < i ==> #[trigger] one_parts@[j]@ == proxy_impl_one_str(t@, view_sig(sigs@[j])),
            forall|j: int| 0 <= j < i ==> #[trigger] tramp_parts@[j]@ == trampoline_str(t@, view_sig(sigs@[j])),
        decreases sigs@.len() - i,
    {
        one_parts.push(proxy_impl_one(t, &sigs[i]));
        tramp_parts.push(trampoline(t, &dv, &sigs[i]));
        i += 1;
    }
    assert(strs(one_parts@) =~= Seq::new(sv.len(), |i: int| proxy_impl_one_str(t@, sv[i])));
    assert(strs(tramp_parts@) =~= Seq::new(sv.len(), |i: int| trampoline_str(t@, sv[i])));
    let impls = join_strings(&one_parts, " ");
    let tramps = join_strings(&tramp_parts, " ");
    let mut out = String::new();
    out.append("#[doc = \"----------");
    out.append(t.as_str());
    out.append(" Proxy generation begins-------------\"] ");
    out.append(st.as_str());
    out.append(" #[cfg(feature = \"proxy\")] impl ");
    out.append(t.as_str());
    out.append(" for ");
    out.append(p.as_str());
    out.append(" { ");
    out.append(impls.as_str());
    out.append(" } #[doc = \"----------");
    out.append(t.as_str());
    out.append(" Trampoline generation begins-------------\"] ");
    out.append(tramps.as_str());
    out
}

// ---------------------------------------------------------------------------
// The `Proxy` struct of the domain creates.

/// Why the `Proxy` struct cannot be generated.
pub enum ProxyError {
    /// A method of a domain create does not return `(Box<dyn Domain>, T)`
    /// with `T` either `()` or `Box<dyn Trait>` for a single trait.
    InvalidReturnType,
}

/// The path `p` with `Proxy` appended to its last identifier.
pub open spec fn proxied_path(p: SPath) -> SPath {
    SPath {
        segments: p.segments.update(
            p.segments.len() - 1,
            SPathSegment { ident: p.segments.last().ident + "Proxy"@, ..p.segments.last() },
        ),
        ..p
    }
}

/// The trait of a trait object `dyn T` with a single bound, a trait with a
/// non-empty path.
pub open spec fn single_trait_path(t: SType) -> Option<SPath> {
    match t {
        SType::TraitObject(bounds) => if bounds.len() != 1 {
            None
        } else {
            match bounds[0] {
                STypeParamBound::Trait(p) => if p.segments.len() == 0 {
                    None
                } else {
                    Some(p)
                },
                STypeParamBound::Lifetime(_) => None,
            }
        },
        _ => None,
    }
}

/// The trait whose proxy wraps what an entry point returns, when it returns
/// `Box<dyn T>` (or `dyn T`).
pub open spec fn returned_trait(t: SType) -> Option<SPath> {
    if is_boxed(t) {
        single_trait_path(boxed_type(t))
    } else {
        single_trait_path(t)
    }
}

/// The statement that returns the new domain and, wrapped in the proxy of
/// its trait, what its entry point returned. The second element of the
/// returned pair is `()` or `Box<dyn T>` for a single trait `T`.
pub open spec fn proxy_return_stmt(output: SReturnType) -> Option<Seq<char>> {
    match output {
        SReturnType::Type(t) => match *t {
            SType::Tuple(elems) => if elems.len() != 2 {
                None
            } else {
                match elems[1] {
                    SType::Tuple(tu) => if tu.len() == 0 {
                        Some("return (domain_, rtn_);"@)
                    } else {
                        None
                    },
                    other => match returned_trait(other) {
                        Some(p) => Some(
                            "return (domain_, ::alloc::boxed::Box::new("@ + path_str(proxied_path(p))
                                + "::new(domain_id_, rtn_)));"@,
                        ),
                        None => None,
                    },
                }
            },
            _ => None,
        },
        SReturnType::Default => None,
    }
}

/// The `Proxy` struct's implementation of one method of the domain create
/// held in the field `name`.
pub open spec fn dc_method_str(name: Seq<char>, s: SSignature) -> Option<Seq<char>> {
    match proxy_return_stmt(s.output) {
        None => None,
        Some(ret) => {
            let sig = sig_str(s);
            let m = s.ident;
            let args = fn_args_str(selfless(s.inputs));
            Some(
                sig
                        + " { let (domain_, rtn_) = self."@
                        + name
                        + "."@
                        + m
                        + "("@
                        + args
                        + "); let domain_id_ = domain.get_domain_id(); "@
                        + ret
                        + " }"@
            )
        },
    }
}

pub open spec fn dc_methods(name: Seq<char>, sigs: Seq<SSignature>) -> Option<Seq<Seq<char>>>
    decreases sigs.len(),
{
    if sigs.len() == 0 {
        Some(Seq::empty())
    } else {
        match dc_methods(name, sigs.drop_last()) {
            None => None,
            Some(prev) => match dc_method_str(name, sigs.last()) {
                None => None,
                Some(m) => Some(prev.push(m)),
            },
        }
    }
}

/// The field of the `Proxy` struct for a domain create.
pub open spec fn dc_field_str(name: Seq<char>, path: Seq<char>) -> Seq<char> {
    name + ": ::alloc::sync::Arc<dyn "@ + path + ">"@
}

pub open spec fn dc_as_fn_str(name: Seq<char>, path: Seq<char>) -> Seq<char> {
    "fn as_"@ + name + "(&self) -> Arc<dyn "@ + path + "> { ::alloc::sync::Arc::new(self.clone()) }"@
}

/// The impls of the domain creates' traits for `Proxy`, in order.
pub open spec fn dc_impls(dcs: Seq<(Seq<char>, Seq<char>, Seq<SSignature>)>) -> Option<Seq<Seq<char>>>
    decreases dcs.len(),
{
    if dcs.len() == 0 {
        Some(Seq::empty())
    } else {
        match dc_impls(dcs.drop_last()) {
            None => None,
            Some(prev) => match dc_methods(dcs.last().0, dcs.last().2) {
                None => None,
                Some(ms) => Some(prev.push("impl "@ + dcs.last().1 + " for Proxy { "@ + join(ms, " "@) + " }"@)),
            },
        }
    }
}

/// The items generated for the domain creates `dcs` (field name, trait
/// path, method signatures): the `Proxy` struct, its `Send` and `Sync`
/// impls, its constructor, its impl of `proxy::Proxy`, and its impls of the
/// domain creates' traits.
pub open spec fn proxy_items(dcs: Seq<(Seq<char>, Seq<char>, Seq<SSignature>)>) -> Option<Seq<Seq<char>>> {
    let fields = join(Seq::new(dcs.len(), |i: int| dc_field_str(dcs[i].0, dcs[i].1)), ", "@);
    let as_fns = join(Seq::new(dcs.len(), |i: int| dc_as_fn_str(dcs[i].0, dcs[i].1)), " "@);
    match dc_impls(dcs) {
        None => None,
        Some(impls) => Some(
            seq![
                "#[derive(Clone)] pub struct Proxy { "@ + fields + " }"@,
                "unsafe impl Send for Proxy {}"@,
                "unsafe impl Sync for Proxy {}"@,
                "impl Proxy { pub fn new("@ + fields + ") -> Self { Self { "@ + fields + " } } }"@,
                "impl proxy::Proxy for Proxy { "@ + as_fns + " }"@,
            ] + impls,
        ),
    }
}

/// The field name of a domain create: the segments of its trait's path
/// after the first, joined by `_`.
pub open spec fn dc_name(segments: Seq<Seq<char>>) -> Seq<char> {
    if segments.len() == 0 {
        Seq::empty()
    } else {
        join(segments.drop_first(), "_"@)
    }
}

fn dc_name_of(segments: &Vec<String>) -> (r: String)
    ensures
        r@ == dc_name(strs(segments@)),
{
    if segments.len() == 0 {
        return String::new();
    }
    let mut rest: Vec<String> = Vec::new();
    let mut j: usize = 1;
    while j < segments.len()
        invariant
            1 <= j <= segments@.len(),
            rest@.len() == j - 1,
            forall|q: int| 0 <= q < rest@.len() ==> #[trigger] rest@[q]@ == segments@[q + 1]@,
        decreases segments@.len() - j,
    {
        rest.push(segments[j].clone());
        j += 1;
    }
    assert(strs(rest@) =~= strs(segments@).drop_first());
    join_strings(&rest, "_")
}

/// The domain creates, by field name, trait path and method signatures.
pub struct ProxyBuilder {
    pub domain_creates: Vec<(String, String, Vec<Signature>)>,
}

pub open spec fn view_dcs(v: Seq<(String, String, Vec<Signature>)>) -> Seq<(Seq<char>, Seq<char>, Seq<SSignature>)> {
    Seq::new(v.len(), |i: int| (v[i].0@, v[i].1@, Seq::new(v[i].2@.len(), |k: int| view_sig(v[i].2@[k]))))
}

impl ProxyBuilder {
    /// A builder for the domain creates `records`, each named after the
    /// path of its trait (see [`dc_name`]).
    pub fn new(records: Vec<DomainCreateRecord>) -> (r: Self)
        ensures
            view_dcs(r.domain_creates@) == Seq::new(
                records@.len(),
                |i: int| (
                    dc_name(strs(records@[i].segments@)),
                    records@[i].path@,
                    Seq::new(records@[i].sigs@.len(), |k: int| view_sig(records@[i].sigs@[k])),
                ),
            ),
    {
        let ghost want = Seq::new(
            records@.len(),
            |i: int| (
                dc_name(strs(records@[i].segments@)),
                records@[i].path@,
                Seq::new(records@[i].sigs@.len(), |k: int| view_sig(records@[i].sigs@[k])),
            ),
        );
        let ghost orig = records@;
        let mut records = records;
        let mut out: Vec<(String, String, Vec<Signature>)> = Vec::new();
        let ghost n = orig.len();
        assert(records@ =~= orig.subrange(0, n as int));
        while records.len() > 0
            invariant
                records@.len() <= n,
                n == orig.len(),
                records@ == orig.subrange(n - records@.len(), n as int),
                out@.len() == n - records@.len(),
                want == Seq::new(
                    orig.len(),
                    |i: int| (
                        dc_name(strs(orig[i].segments@)),
                        orig[i].path@,
                        Seq::new(orig[i].sigs@.len(), |k: int| view_sig(orig[i].sigs@[k])),
                    ),
                ),
                forall|j: int| 0 <= j < out@.len() ==> #[trigger] view_dcs(out@)[j] == want[j],
            decreases records@.len(),
        {
            let ghost k = n - records@.len();
            let rec = records.remove(0);
            assert(rec == orig[k]);
            let name = dc_name_of(&rec.segments);
            let ghost before = view_dcs(out@);
            out.push((name, rec.path, rec.sigs));
            assert(view_dcs(out@) =~= before.push(view_dcs(out@).last()));
            assert(records@ =~= orig.subrange(n - records@.len(), n as int));
        }
        assert(view_dcs(out@) =~= want);
        ProxyBuilder { domain_creates: out }
    }
}

} // verus!

verus! {

fn proxied_path_of(p: &crate::ty::Path) -> (r: crate::ty::Path)
    requires
        p.segments@.len() > 0,
    ensures
        r@ == proxied_path(p@),
{
    let mut q = crate::copy::copy_path(p);
    assert(crate::ty::view_segments(q.segments@).len() == crate::ty::view_segments(p.segments@).len());
    let n = q.segments.len();
    let last = &q.segments[n - 1];
    let mut id = last.ident.clone();
    id.append("Proxy");
    let seg = crate::ty::PathSegment { ident: id, arguments: crate::copy::copy_arguments(&last.arguments) };
    let ghost before = q.segments@;
    let mut segs = q.segments;
    segs.set(n - 1, seg);
    let r = crate::ty::Path { leading_colon: q.leading_colon, segments: segs };
    assert(crate::ty::view_segments(r.segments@) =~= crate::ty::view_segments(before).update(
        n - 1,
        SPathSegment { ident: crate::ty::view_segments(before).last().ident + "Proxy"@, ..crate::ty::view_segments(before).last() },
    ));
    r
}

fn trait_object_path(t: &Type) -> (r: Option<&crate::ty::Path>)
    ensures
        match r {
            Some(p) => single_trait_path(t@) == Some(p@),
            None => single_trait_path(t@) is None,
        },
{
    match t {
        Type::TraitObject(bounds) => {
            assert(t@ == SType::TraitObject(crate::ty::view_bounds(bounds@)));
            if bounds.len() != 1 {
                return None;
            }
            assert(crate::ty::view_bounds(bounds@)[0] == bounds@[0]@);
            match &bounds[0] {
                TypeParamBound::Trait(p) => {
                    if p.segments.len() == 0 {
                        None
                    } else {
                        Some(p)
                    }
                },
                TypeParamBound::Lifetime(_) => None,
            }
        },
        _ => None,
    }
}

fn proxy_return(output: &ReturnType) -> (r: Option<String>)
    ensures
        match r {
            Some(s) => proxy_return_stmt(output@) == Some(s@),
            None => proxy_return_stmt(output@) is None,
        },
{
    match output {
        ReturnType::Default => None,
        ReturnType::Type(t) => match &**t {
            Type::Tuple(elems) => {
                if elems.len() != 2 {
                    return None;
                }
                assert(crate::ty::view_types(elems@)[1] == elems@[1]@);
                match &elems[1] {
                    Type::Tuple(tu) => {
                        if tu.len() == 0 {
                            Some(owned("return (domain_, rtn_);"))
                        } else {
                            None
                        }
                    },
                    other => {
                        let inner: &Type = if is_box_type(other) {
                            get_type_inside_of_box(other)
                        } else {
                            other
                        };
                        match trait_object_path(inner) {
                            Some(p) => {
                                let q = proxied_path_of(p);
                                let mut out = owned("return (domain_, ::alloc::boxed::Box::new(");
                                write_path(&mut out, &q);
                                out.append("::new(domain_id_, rtn_)));");
                                Some(out)
                            },
                            None => None,
                        }
                    },
                }
            },
            _ => None,
        },
    }
}

fn dc_method(name: &String, s: &Signature) -> (r: Option<String>)
    ensures
        match r {
            Some(x) => dc_method_str(name@, view_sig(*s)) == Some(x@),
            None => dc_method_str(name@, view_sig(*s)) is None,
        },
{
    let ret = match proxy_return(&s.output) {
        None => {
            return None;
        },
        Some(x) => x,
    };
    let sig = sig_to_string(s);
    let m = s.ident.clone();
    let args = crate::domain_create::selfless_args_text(&s.inputs);
    let mut out = String::new();
    out.append(sig.as_str());
    out.append(" { let (domain_, rtn_) = self.");
    out.append(name.as_str());
    out.append(".");
    out.append(m.as_str());
    out.append("(");
    out.append(args.as_str());
    out.append("); let domain_id_ = domain.get_domain_id(); ");
    out.append(ret.as_str());
    out.append(" }");
    Some(out)
}

fn dc_methods_of(name: &String, sigs: &Vec<Signature>) -> (r: Option<Vec<String>>)
    ensures
        match r {
            Some(v) => dc_methods(name@, Seq::new(sigs@.len(), |k: int| view_sig(sigs@[k]))) == Some(strs(v@)),
            None => dc_methods(name@, Seq::new(sigs@.len(), |k: int| view_sig(sigs@[k]))) is None,
        },
{
    let ghost sv = Seq::new(sigs@.len(), |k: int| view_sig(sigs@[k]));
    let mut out: Vec<String> = Vec::new();
    let mut i: usize = 0;
    assert(strs(out@) =~= Seq::<Seq<char>>::empty());
    assert(sv.subrange(0, 0).len() == 0);
    while i < sigs.len()
        invariant
            i <= sigs@.len(),
            sv == Seq::new(sigs@.len(), |k: int| view_sig(sigs@[k])),
            dc_methods(name@, sv.subrange(0, i as int)) == Some(strs(out@)),
        decreases sigs@.len() - i,
    {
        let ghost cur = sv.subrange(0, i + 1);
        assert(cur.drop_last() =~= sv.subrange(0, i as int));
        assert(cur.last() == view_sig(sigs@[i as int]));
        match dc_method(name, &sigs[i]) {
            None => {
                proof { lemma_dc_methods_prefix(name@, sv, i + 1); }
                return None;
            },
            Some(m) => {
                let ghost before = strs(out@);
                out.push(m);
                assert(strs(out@) =~= before.push(out@.last()@));
            },
        }
        i += 1;
    }
    assert(sv.subrange(0, i as int) =~= sv);
    Some(out)
}

proof fn lemma_dc_methods_prefix(name: Seq<char>, sigs: Seq<SSignature>, n: int)
    requires
        0 <= n <= sigs.len(),
        dc_methods(name, sigs.subrange(0, n)) is None,
    ensures
        dc_methods(name, sigs) is None,
    decreases sigs.len(),
{
    if n < sigs.len() {
        let s = sigs.drop_last();
        assert(s.subrange(0, n) =~= sigs.subrange(0, n));
        lemma_dc_methods_prefix(name, s, n);
    } else {
        assert(sigs.subrange(0, n) =~= sigs);
    }
}

proof fn lemma_dc_impls_step(dcs: Seq<(Seq<char>, Seq<char>, Seq<SSignature>)>, i: int)
    requires
        0 <= i < dcs.len(),
    ensures
        dc_impls(dcs.subrange(0, i + 1)) == match dc_impls(dcs.subrange(0, i)) {
            None => None,
            Some(prev) => match dc_methods(dcs[i].0, dcs[i].2) {
                None => None,
                Some(ms) => Some(prev.push("impl "@ + dcs[i].1 + " for Proxy { "@ + join(ms, " "@) + " }"@)),
            },
        },
{
    let cur = dcs.subrange(0, i + 1);
    assert(cur.drop_last() =~= dcs.subrange(0, i));
    assert(cur.last() == dcs[i]);
}

proof fn lemma_dc_impls_prefix(dcs: Seq<(Seq<char>, Seq<char>, Seq<SSignature>)>, n: int)
    requires
        0 <= n <= dcs.len(),
        dc_impls(dcs.subrange(0, n)) is None,
    ensures
        dc_impls(dcs) is None,
    decreases dcs.len(),
{
    if n < dcs.len() {
        let s = dcs.drop_last();
        assert(s.subrange(0, n) =~= dcs.subrange(0, n));
        lemma_dc_impls_prefix(s, n);
    } else {
        assert(dcs.subrange(0, n) =~= dcs);
    }
}

fn field_and_as_fn(name: &String, path: &String) -> (r: (String, String))
    ensures
        r.0@ == dc_field_str(name@, path@),
        r.1@ == dc_as_fn_str(name@, path@),
{
    let mut f = name.clone();
    f.append(": ::alloc::sync::Arc<dyn ");
    f.append(path.as_str());
    f.append(">");
    let mut a = owned("fn as_");
    a.append(name.as_str());
    a.append("(&self) -> Arc<dyn ");
    a.append(path.as_str());
    a.append("> { ::alloc::sync::Arc::new(self.clone()) }");
    (f, a)
}

fn dc_impl(name: &String, path: &String, sigs: &Vec<Signature>) -> (r: Option<String>)
    ensures
        match dc_methods(name@, Seq::new(sigs@.len(), |k: int| view_sig(sigs@[k]))) {
            Some(ms) => r matches Some(x) && x@ == "impl "@ + path@ + " for Proxy { "@ + join(ms, " "@) + " }"@,
            None => r is None,
        },
{
    match dc_methods_of(name, sigs) {
        None => None,
        Some(ms) => {
            let mut x = owned("impl ");
            x.append(path.as_str());
            x.append(" for Proxy { ");
            let body = join_strings(&ms, " ");
            x.append(body.as_str());
            x.append(" }");
            Some(x)
        },
    }
}

fn fields_and_as_fns(dcs: &Vec<(String, String, Vec<Signature>)>) -> (r: (Vec<String>, Vec<String>))
    ensures
        strs(r.0@) == Seq::new(view_dcs(dcs@).len(), |i: int| dc_field_str(view_dcs(dcs@)[i].0, view_dcs(dcs@)[i].1)),
        strs(r.1@) == Seq::new(view_dcs(dcs@).len(), |i: int| dc_as_fn_str(view_dcs(dcs@)[i].0, view_dcs(dcs@)[i].1)),
{
    let mut fields: Vec<String> = Vec::new();
    let mut as_fns: Vec<String> = Vec::new();
    let mut i: usize = 0;
    while i < dcs.len()
        invariant
            i <= dcs@.len(),
            fields@.len() == i,
            as_fns@.len() == i,
            forall|j: int| 0 <= j < i ==> #[trigger] fields@[j]@ == dc_field_str(dcs@[j].0@, dcs@[j].1@),
            forall|j: int| 0 <= j < i ==> #[trigger] as_fns@[j]@ == dc_as_fn_str(dcs@[j].0@, dcs@[j].1@),
        decreases dcs@.len() - i,
    {
        let (f, a) = field_and_as_fn(&dcs[i].0, &dcs[i].1);
        fields.push(f);
        as_fns.push(a);
        i += 1;
    }
    let ghost dv = view_dcs(dcs@);
    assert(strs(fields@) =~= Seq::new(dv.len(), |i: int| dc_field_str(dv[i].0, dv[i].1)));
    assert(strs(as_fns@) =~= Seq::new(dv.len(), |i: int| dc_as_fn_str(dv[i].0, dv[i].1)));
    (fields, as_fns)
}

fn impls_of(dcs: &Vec<(String, String, Vec<Signature>)>) -> (r: Option<Vec<String>>)
    ensures
        match dc_impls(view_dcs(dcs@)) {
            Some(v) => r matches Some(x) && strs(x@) == v,
            None => r is None,
        },
{
    let ghost dv = view_dcs(dcs@);
    let mut impls: Vec<String> = Vec::new();
    let mut i: usize = 0;
    assert(strs(impls@) =~= Seq::<Seq<char>>::empty());
    assert(dv.subrange(0, 0).len() == 0);
    while i < dcs.len()
        invariant
            i <= dcs@.len(),
            dv == view_dcs(dcs@),
            dc_impls(dv.subrange(0, i as int)) == Some(strs(impls@)),
        decreases dcs@.len() - i,
    {
        assert(dv[i as int] == (dcs@[i as int].0@, dcs@[i as int].1@, Seq::new(dcs@[i as int].2@.len(), |k: int| view_sig(dcs@[i as int].2@[k]))));
        proof { lemma_dc_impls_step(dv, i as int); }
        match dc_impl(&dcs[i].0, &dcs[i].1, &dcs[i].2) {
            None => {
                proof { lemma_dc_impls_prefix(dv, i + 1); }
                return None;
            },
            Some(x) => {
                let ghost before = strs(impls@);
                impls.push(x);
                assert(strs(impls@) =~= before.push(impls@.last()@));
            },
        }
        i += 1;
    }
    assert(dv.subrange(0, i as int) =~= dv);
    Some(impls)
}

spec fn s1_v(fields: Seq<char>) -> Seq<char> {
    "#[derive(Clone)] pub struct Proxy { "@ + fields + " }"@
}

spec fn s4_v(fields: Seq<char>) -> Seq<char> {
    "impl Proxy { pub fn new("@ + fields + ") -> Self { Self { "@ + fields + " } } }"@
}

spec fn s5_v(as_fns: Seq<char>) -> Seq<char> {
    "impl proxy::Proxy for Proxy { "@ + as_fns + " }"@
}

impl ProxyBuilder {
    /// The items generated for the domain creates (see [`proxy_items`]).
    #[verifier::rlimit(80)]
    pub fn generate_proxy(self) -> (r: Result<Vec<String>, ProxyError>)
        ensures
            match proxy_items(view_dcs(self.domain_creates@)) {
                Some(items) => r matches Ok(v) && strs(v@) == items,
                None => r is Err,
            },
    {
        let (fields, as_fns) = fields_and_as_fns(&self.domain_creates);
        let mut impls = match impls_of(&self.domain_creates) {
            None => {
                return Err(ProxyError::InvalidReturnType);
            },
            Some(v) => v,
        };
        let fields_text = join_strings(&fields, ", ");
        let as_fns_text = join_strings(&as_fns, " ");
        let mut out: Vec<String> = Vec::new();
        let mut s1 = owned("#[derive(Clone)] pub struct Proxy { ");
        s1.append(fields_text.as_str());
        s1.append(" }");
        out.push(s1);
        out.push(owned("unsafe impl Send for Proxy {}"));
        out.push(owned("unsafe impl Sync for Proxy {}"));
        let mut s4 = owned("impl Proxy { pub fn new(");
        s4.append(fields_text.as_str());
        s4.append(") -> Self { Self { ");
        s4.append(fields_text.as_str());
        s4.append(" } } }");
        out.push(s4);
        let mut s5 = owned("impl proxy::Proxy for Proxy { ");
        s5.append(as_fns_text.as_str());
        s5.append(" }");
        out.push(s5);
        let ghost head = strs(out@);
        let ghost iv = strs(impls@);
        assert(head =~= seq![s1_v(fields_text@), "unsafe impl Send for Proxy {}"@, "unsafe impl Sync for Proxy {}"@, s4_v(fields_text@), s5_v(as_fns_text@)]);
        out.append(&mut impls);
        assert(strs(out@) =~= head + iv);
        Ok(out)
    }
}

} // verus!
