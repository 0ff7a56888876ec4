//! Domain creation: for each trait marked `domain_create`, the kernel-side
//! functions that load a domain and jump to its entry point, and the impl
//! that exposes them to users.

use vstd::prelude::*;
use crate::ast::{Attribute, FnArg, ItemTrait, Meta, NestedMeta, Signature, TraitItem};
use crate::attrs::{
    attr_is, attrs_entries, attribute_entries, entry_value, find_entry, has_attr, has_attribute,
    ident_of, meta_path, path_ident, path_is, path_is_ident, remove_attribute, view_entries, without_attr,
    AttributeError,
};
use crate::print::{
    fn_arg_str, fn_arg_to_string, fn_args_str, return_type_str, sig_str, sig_to_string, type_str,
    type_to_string, view_fn_arg, view_fn_args, view_sig, write_return_type, SFnArg, SSignature,
};
use crate::text::{eq_lit, join, join_strings, owned, replace_char, replace_chars, strs};
use crate::path_refactoring::{refactor_sig, refactored_signature};
use crate::ty::{Lit, SLit, SReturnType, SType, ReturnType, Type};
use crate::entrypoint::{path_join, DomainEntrypointFactory};
use vstd::string::StringExecFns;

verus! {

/// A facility the kernel hands a new domain at its entry point.
#[derive(Clone, Copy, PartialEq, Eq, Structural, Debug)]
pub enum DomainCreateComponent {
    Domain,
    MMap,
    Heap,
}

/// Why a domain create cannot be generated.
pub enum DomainCreateError {
    /// The trait's attributes cannot be read.
    Attribute(AttributeError),
    /// `domain_create_components` names something other than `Domain`,
    /// `MMap` or `Heap`.
    UnsupportedComponent,
    /// The trait has no `path` attribute.
    MissingDomainPath,
    /// The `path` attribute has no value.
    EmptyDomainPath,
    /// The `path` attribute's value is not a string.
    DomainPathNotString,
    /// A method does not return a tuple of two.
    ReturnNotPair,
    /// The trait has a member that is not a method.
    NonMethodItem,
    /// The trait is marked `domain_create_blob`, which this compiler does not generate.
    BlobDomainCreate,
}

pub open spec fn creation_stmt_str(c: DomainCreateComponent) -> Seq<char> {
    match c {
        DomainCreateComponent::Domain => "let pdom_ = ::alloc::boxed::Box::new(crate::syscalls::PDomain::new(::alloc::sync::Arc::clone(&dom_)));"@,
        DomainCreateComponent::MMap => "let pmmap_ = ::alloc::boxed::Box::new(crate::syscalls::Mmap::new());"@,
        DomainCreateComponent::Heap => "let pheap_ = ::alloc::boxed::Box::new(crate::heap::PHeap::new());"@,
    }
}

pub open spec fn component_arg_str(c: DomainCreateComponent) -> Seq<char> {
    match c {
        DomainCreateComponent::Domain => "pdom_: ::alloc::boxed::Box<dyn syscalls::Syscall>"@,
        DomainCreateComponent::MMap => "pmmap_: ::alloc::boxed::Box<dyn syscalls::Mmap>"@,
        DomainCreateComponent::Heap => "pheap_: ::alloc::boxed::Box<dyn syscalls::Heap>"@,
    }
}

impl DomainCreateComponent {
    /// The statement that creates the component before the jump to the domain.
    pub fn creation_statement(&self) -> (r: String)
        ensures
            r@ == creation_stmt_str(*self),
    {
        match self {
            DomainCreateComponent::Domain => owned("let pdom_ = ::alloc::boxed::Box::new(crate::syscalls::PDomain::new(::alloc::sync::Arc::clone(&dom_)));"),
            DomainCreateComponent::MMap => owned("let pmmap_ = ::alloc::boxed::Box::new(crate::syscalls::Mmap::new());"),
            DomainCreateComponent::Heap => owned("let pheap_ = ::alloc::boxed::Box::new(crate::heap::PHeap::new());"),
        }
    }

    /// The parameter of the domain's entry point that receives the component.
    pub fn as_fn_argument(&self) -> (r: String)
        ensures
            r@ == component_arg_str(*self),
    {
        match self {
            DomainCreateComponent::Domain => owned("pdom_: ::alloc::boxed::Box<dyn syscalls::Syscall>"),
            DomainCreateComponent::MMap => owned("pmmap_: ::alloc::boxed::Box<dyn syscalls::Mmap>"),
            DomainCreateComponent::Heap => owned("pheap_: ::alloc::boxed::Box<dyn syscalls::Heap>"),
        }
    }
}

/// The component a name in `domain_create_components` stands for.
pub open spec fn component_named(n: Seq<char>) -> Option<DomainCreateComponent> {
    if n == "Domain"@ {
        Some(DomainCreateComponent::Domain)
    } else if n == "MMap"@ {
        Some(DomainCreateComponent::MMap)
    } else if n == "Heap"@ {
        Some(DomainCreateComponent::Heap)
    } else {
        None
    }
}

/// The components a `domain_create_components(...)` list names, in order;
/// entries that are not plain names are skipped.
pub open spec fn listed_components(ns: Seq<NestedMeta>) -> Result<Seq<DomainCreateComponent>, DomainCreateError>
    decreases ns.len(),
{
    if ns.len() == 0 {
        Ok(Seq::empty())
    } else {
        match listed_components(ns.drop_last()) {
            Err(e) => Err(e),
            Ok(prev) => match ns.last() {
                NestedMeta::Meta(m) => match path_ident(meta_path(m)) {
                    Some(id) => match component_named(id) {
                        Some(c) => Ok(prev.push(c)),
                        None => Err(DomainCreateError::UnsupportedComponent),
                    },
                    None => Ok(prev),
                },
                NestedMeta::Lit(_) => Ok(prev),
            },
        }
    }
}

/// The components a domain gets: `Domain` and `Heap`, unless a
/// `domain_create_components` attribute lists others; the last such
/// attribute decides.
pub open spec fn components_of(attrs: Seq<Attribute>) -> Result<Seq<DomainCreateComponent>, DomainCreateError>
    decreases attrs.len(),
{
    if attrs.len() == 0 {
        Ok(seq![DomainCreateComponent::Domain, DomainCreateComponent::Heap])
    } else {
        match components_of(attrs.drop_last()) {
            Err(e) => Err(e),
            Ok(prev) => match attrs.last().meta {
                None => Err(DomainCreateError::Attribute(AttributeError::Unparsable)),
                Some(m) => if path_is_ident(meta_path(m), "domain_create_components"@) {
                    match m {
                        Meta::List(_, ns) => listed_components(ns@),
                        _ => Ok(Seq::empty()),
                    }
                } else {
                    Ok(prev)
                },
            },
        }
    }
}

/// The parameters other than `self`, in order.
pub open spec fn selfless(args: Seq<SFnArg>) -> Seq<SFnArg>
    decreases args.len(),
{
    if args.len() == 0 {
        Seq::empty()
    } else if args.last() is Receiver {
        selfless(args.drop_last())
    } else {
        selfless(args.drop_last()).push(args.last())
    }
}

pub open spec fn arg_strs(args: Seq<SFnArg>) -> Seq<Seq<char>> {
    Seq::new(args.len(), |i: int| fn_arg_str(args[i]))
}

/// The parameters of the domain's entry point: the components, then the
/// method's own parameters.
pub open spec fn entry_point_args_str(comps: Seq<DomainCreateComponent>, sig: SSignature) -> Seq<char> {
    join(Seq::new(comps.len(), |i: int| component_arg_str(comps[i])) + arg_strs(selfless(sig.inputs)), ", "@)
}

pub open spec fn creation_str(comps: Seq<DomainCreateComponent>) -> Seq<char> {
    join(Seq::new(comps.len(), |i: int| creation_stmt_str(comps[i])), " "@)
}

/// The second element of a return type that is a tuple of two.
pub open spec fn second_of_pair(output: SReturnType) -> Option<SType> {
    match output {
        SReturnType::Type(t) => match *t {
            SType::Tuple(elems) => if elems.len() == 2 {
                Some(elems[1])
            } else {
                None
            },
            _ => None,
        },
        SReturnType::Default => None,
    }
}

/// The domain path with `/` replaced by `_`, as it appears in symbol names.
pub open spec fn canonical_domain_path(p: Seq<char>) -> Seq<char> {
    replace_char(p, '/', '_')
}

pub open spec fn linked_fn_ident(domain_path: Seq<char>, method: Seq<char>) -> Seq<char> {
    canonical_domain_path(domain_path) + "_"@ + method
}

/// The impl method users call: it runs the kernel function with interrupts off.
pub open spec fn linked_impl_str(domain_path: Seq<char>, s: SSignature) -> Seq<char> {
    let sig = sig_str(s);
    let f = linked_fn_ident(domain_path, s.ident);
    let args = fn_args_str(selfless(s.inputs));
    sig
        + " { crate::interrupt::disable_irq(); let rtn_ = "@
        + f
        + "("@
        + args
        + "); crate::interrupt::enable_irq(); rtn_ }"@
}

/// The kernel function that loads the domain, jumps to its entry point
/// with the components and the method's parameters, and returns the new
/// domain with what the entry point returned.
pub open spec fn linked_fn_str(domain_path: Seq<char>, comps: Seq<DomainCreateComponent>, s: SSignature, ep: SType) -> Seq<char> {
    let canon = canonical_domain_path(domain_path);
    let f = linked_fn_ident(domain_path, s.ident);
    let args = fn_args_str(selfless(s.inputs));
    let rtn = return_type_str(s.output);
    let start = "_binary_domains_build_"@ + canon + "_start"@;
    let end = "_binary_domains_build_"@ + canon + "_end"@;
    let ep_args = entry_point_args_str(comps, s);
    let ep_rtn = type_str(ep);
    let lit = "\""@ + domain_path + "\""@;
    let creation = creation_str(comps);
    "pub(crate) fn "@
        + f
        + "("@
        + args
        + ")"@
        + rtn
        + " { crate::interrupt::disable_irq(); extern \"C\" { fn "@
        + start
        + "(); fn "@
        + end
        + "(); } let binary_range_ = ("@
        + start
        + " as *const u8, "@
        + end
        + " as *const u8); type UserInit_ = fn("@
        + ep_args
        + ") -> "@
        + ep_rtn
        + "; let (dom_, entry_) = unsafe { crate::domain::load_domain("@
        + lit
        + ", binary_range_) }; let user_ep_: UserInit_ = unsafe { ::core::mem::transmute::<*const (), UserInit_>(entry_) }; "@
        + creation
        + " let thread_ = crate::thread::get_current_ref(); let old_id_ = { let mut thread = thread_.lock(); let old_id = thread.current_domain_id; thread.current_domain_id = dom_.lock().id; old_id }; crate::interrupt::enable_irq(); let ep_rtn_ = user_ep_("@
        + ep_args
        + "); crate::interrupt::disable_irq(); { thread_.lock().current_domain_id = old_id_; } #[cfg(feature = \"domain_create_log\")] println!(\"domain/{}: returned from entry point\", "@
        + lit
        + "); let dom_: ::alloc::boxed::Box<dyn ::syscalls::Domain> = ::alloc::boxed::Box::new(crate::syscalls::PDomain::new(::alloc::sync::Arc::clone(&dom_))); let rtn_ = (dom_, ep_rtn_); crate::interrupt::enable_irq(); rtn_ }"@
}

/// The impl method and the kernel function for one method of a domain
/// create trait.
pub open spec fn linked_method(domain_path: Seq<char>, comps: Seq<DomainCreateComponent>, s: SSignature) -> Result<(Seq<char>, Seq<char>), DomainCreateError> {
    match second_of_pair(s.output) {
        None => Err(DomainCreateError::ReturnNotPair),
        Some(ep) => Ok((linked_impl_str(domain_path, s), linked_fn_str(domain_path, comps, s, ep))),
    }
}

fn selfless_strings(args: &Vec<FnArg>) -> (r: Vec<String>)
    ensures
        strs(r@) == arg_strs(selfless(view_fn_args(args@))),
{
    let ghost av = view_fn_args(args@);
    let mut r: Vec<String> = Vec::new();
    let mut i: usize = 0;
    assert(strs(r@) =~= arg_strs(selfless(av.subrange(0, 0))));
    while i < args.len()
        invariant
            i <= args@.len(),
            av == view_fn_args(args@),
            strs(r@) == arg_strs(selfless(av.subrange(0, i as int))),
        decreases args@.len() - i,
    {
        let ghost cur = av.subrange(0, i + 1);
        assert(cur.drop_last() =~= av.subrange(0, i as int));
        assert(cur.last() == view_fn_arg(args@[i as int]));
        match &args[i] {
            FnArg::Receiver(_) => {},
            FnArg::Typed(_, _) => {
                let ghost before = strs(r@);
                r.push(fn_arg_to_string(&args[i]));
                assert(strs(r@) =~= before.push(fn_arg_str(view_fn_arg(args@[i as int]))));
                assert(arg_strs(selfless(cur)) =~= arg_strs(selfless(av.subrange(0, i as int))).push(fn_arg_str(view_fn_arg(args@[i as int]))));
            },
        }
        i += 1;
    }
    assert(av.subrange(0, i as int) =~= av);
    r
}

/// The parameters other than `self`, as source text.
pub fn selfless_strings_of(args: &Vec<FnArg>) -> (r: Vec<String>)
    ensures
        strs(r@) == arg_strs(selfless(view_fn_args(args@))),
{
    selfless_strings(args)
}

/// The parameters other than `self`, as source text joined by `, `.
pub fn selfless_args_text(args: &Vec<FnArg>) -> (r: String)
    ensures
        r@ == fn_args_str(selfless(view_fn_args(args@))),
{
    let parts = selfless_strings(args);
    let r = join_strings(&parts, ", ");
    assert(arg_strs(selfless(view_fn_args(args@))) =~= Seq::new(
        selfless(view_fn_args(args@)).len(),
        |i: int| fn_arg_str(selfless(view_fn_args(args@))[i]),
    ));
    r
}

fn component_strings(comps: &Vec<DomainCreateComponent>, creation: bool) -> (r: Vec<String>)
    ensures
        creation ==> strs(r@) == Seq::new(comps@.len(), |i: int| creation_stmt_str(comps@[i])),
        !creation ==> strs(r@) == Seq::new(comps@.len(), |i: int| component_arg_str(comps@[i])),
{
    let mut r: Vec<String> = Vec::new();
    let mut i: usize = 0;
    while i < comps.len()
        invariant
            i <= comps@.len(),
            r@.len() == i,
            forall|j: int| 0 <= j < i ==> #[trigger] r@[j]@ == (if creation { creation_stmt_str(comps@[j]) } else { component_arg_str(comps@[j]) }),
        decreases comps@.len() - i,
    {
        if creation {
            r.push(comps[i].creation_statement());
        } else {
            r.push(comps[i].as_fn_argument());
        }
        i += 1;
    }
    if creation {
        assert(strs(r@) =~= Seq::new(comps@.len(), |i: int| creation_stmt_str(comps@[i])));
    } else {
        assert(strs(r@) =~= Seq::new(comps@.len(), |i: int| component_arg_str(comps@[i])));
    }
    r
}

fn second_of_pair_type(output: &ReturnType) -> (r: Option<&Type>)
    ensures
        match r {
            Some(t) => second_of_pair(output@) == Some(t@),
            None => second_of_pair(output@) is None,
        },
{
    match output {
        ReturnType::Type(t) => match &**t {
            Type::Tuple(elems) => {
                if elems.len() == 2 {
                    assert(crate::ty::view_types(elems@)[1] == elems@[1]@);
                    Some(&elems[1])
                } else {
                    None
                }
            },
            _ => None,
        },
        ReturnType::Default => None,
    }
}

/// The impl method and the kernel function for one method of a domain
/// create trait (see [`linked_method`]).
pub fn generate_domain_create_for_trait_method(domain_path: &String, comps: &Vec<DomainCreateComponent>, s: &Signature) -> (r: Result<(String, String), DomainCreateError>)
    ensures
        match r {
            Ok((i, f)) => linked_method(domain_path@, comps@, view_sig(*s)) == Ok::<(Seq<char>, Seq<char>), DomainCreateError>((i@, f@)),
            Err(e) => linked_method(domain_path@, comps@, view_sig(*s)) == Err::<(Seq<char>, Seq<char>), DomainCreateError>(e),
        },
{
    let ep_ty = match second_of_pair_type(&s.output) {
        None => {
            return Err(DomainCreateError::ReturnNotPair);
        },
        Some(t) => t,
    };
    let ghost sv = view_sig(*s);
    let canon = replace_chars(domain_path, '/', '_');
    let mut f = canon.clone();
    f.append("_");
    f.append(s.ident.as_str());
    let selfless_parts = selfless_strings(&s.inputs);
    let args = join_strings(&selfless_parts, ", ");
    let sig = sig_to_string(s);
    let mut rtn = String::new();
    write_return_type(&mut rtn, &s.output);
    let mut start = owned("_binary_domains_build_");
    start.append(canon.as_str());
    start.append("_start");
    let mut end = owned("_binary_domains_build_");
    end.append(canon.as_str());
    end.append("_end");
    let mut ep_parts = component_strings(comps, false);
    let mut more = selfless_parts;
    let ghost (a, b) = (strs(ep_parts@), strs(more@));
    ep_parts.append(&mut more);
    assert(strs(ep_parts@) =~= a + b);
    let ep_args = join_strings(&ep_parts, ", ");
    let ep_rtn = type_to_string(ep_ty);
    let mut lit = owned("\"");
    lit.append(domain_path.as_str());
    lit.append("\"");
    let creation_parts = component_strings(comps, true);
    let creation = join_strings(&creation_parts, " ");
    let mut out = String::new();
    out.append(sig.as_str());
    out.append(" { crate::interrupt::disable_irq(); let rtn_ = ");
    out.append(f.as_str());
    out.append("(");
    out.append(args.as_str());
    out.append("); crate::interrupt::enable_irq(); rtn_ }");
    let impl_text = out;
    let mut out = String::new();
    out.append("pub(crate) fn ");
    out.append(f.as_str());
    out.append("(");
    out.append(args.as_str());
    out.append(")");
    out.append(rtn.as_str());
    out.append(" { crate::interrupt::disable_irq(); extern \"C\" { fn ");
    out.append(start.as_str());
    out.append("(); fn ");
    out.append(end.as_str());
    out.append("(); } let binary_range_ = (");
    out.append(start.as_str());
    out.append(" as *const u8, ");
    out.append(end.as_str());
    out.append(" as *const u8); type UserInit_ = fn(");
    out.append(ep_args.as_str());
    out.append(") -> ");
    out.append(ep_rtn.as_str());
    out.append("; let (dom_, entry_) = unsafe { crate::domain::load_domain(");
    out.append(lit.as_str());
    out.append(", binary_range_) }; let user_ep_: UserInit_ = unsafe { ::core::mem::transmute::<*const (), UserInit_>(entry_) }; ");
    out.append(creation.as_str());
    out.append(" let thread_ = crate::thread::get_current_ref(); let old_id_ = { let mut thread = thread_.lock(); let old_id = thread.current_domain_id; thread.current_domain_id = dom_.lock().id; old_id }; crate::interrupt::enable_irq(); let ep_rtn_ = user_ep_(");
    out.append(ep_args.as_str());
    out.append("); crate::interrupt::disable_irq(); { thread_.lock().current_domain_id = old_id_; } #[cfg(feature = \"domain_create_log\")] println!(\"domain/{}: returned from entry point\", ");
    out.append(lit.as_str());
    out.append("); let dom_: ::alloc::boxed::Box<dyn ::syscalls::Domain> = ::alloc::boxed::Box::new(crate::syscalls::PDomain::new(::alloc::sync::Arc::clone(&dom_))); let rtn_ = (dom_, ep_rtn_); crate::interrupt::enable_irq(); rtn_ }");
    Ok((impl_text, out))
}

} // verus!

verus! {

/// The function that starts the `init` domain, handing it a handle to every
/// domain create, by the paths of their traits.
pub open spec fn create_init_str(paths: Seq<Seq<char>>) -> Seq<char> {
    let arcs_ty = join(Seq::new(paths.len(), |i: int| "::alloc::sync::Arc<dyn "@ + paths[i] + ">, "@), ""@);
    let arcs = join(Seq::new(paths.len(), |i: int| "::alloc::sync::Arc::new(crate::syscalls::PDomain::new(::alloc::sync::Arc::clone(&dom)))"@), ", "@);
    "pub fn create_domain_init() -> ::alloc::boxed::Box<dyn ::syscalls::Domain> { let name = \"init\"; extern \"C\" { fn _binary_domains_build_redleaf_init_start(); fn _binary_domains_build_redleaf_init_end(); } let binary_range = (_binary_domains_build_redleaf_init_start as *const u8, _binary_domains_build_redleaf_init_end as *const u8); type UserInit = fn(::alloc::boxed::Box<dyn ::syscalls::Syscall + Send + Sync>, ::alloc::boxed::Box<dyn ::syscalls::Heap + Send + Sync>, ::alloc::boxed::Box<dyn ::syscalls::Interrupt>, "@
        + arcs_ty
        + "); let (dom, entry) = unsafe { crate::domain::load_domain(name, binary_range) }; let user_ep: UserInit = unsafe { ::core::mem::transmute::<*const (), UserInit>(entry) }; let thread = crate::thread::get_current_ref(); let old_id = { let mut thread = thread.lock(); let old_id = thread.current_domain_id; thread.current_domain_id = dom.lock().id; old_id }; crate::interrupt::enable_irq(); user_ep(::alloc::boxed::Box::new(crate::syscalls::PDomain::new(::alloc::sync::Arc::clone(&dom))), ::alloc::boxed::Box::new(crate::heap::PHeap::new()), ::alloc::boxed::Box::new(crate::syscalls::Interrupt::new()), "@
        + arcs
        + "); crate::interrupt::disable_irq(); { thread.lock().current_domain_id = old_id; } #[cfg(feature = \"domain_create_log\")] println!(\"domain/{}: returned from entry point\", name); ::alloc::boxed::Box::new(crate::syscalls::PDomain::new(::alloc::sync::Arc::clone(&dom))) }"@
}

/// Which kind of domain create a trait's attributes ask for: `Some(false)`
/// for `domain_create`, `Some(true)` for `domain_create_blob`.
pub open spec fn domain_create_kind(attrs: Seq<Attribute>) -> Option<bool> {
    if has_attr(attrs, "domain_create"@) {
        Some(false)
    } else if has_attr(attrs, "domain_create_blob"@) {
        Some(true)
    } else {
        None
    }
}

/// The path of a trait written in the module `mod_path`.
pub open spec fn trait_path_str(mod_path: Seq<Seq<char>>, ident: Seq<char>) -> Seq<char> {
    join(mod_path, "::"@) + "::"@ + ident
}

/// The domain path: the string value of the `path` entry.
pub open spec fn domain_path_of(entries: Seq<(Seq<char>, Option<SLit>)>) -> Result<Seq<char>, DomainCreateError> {
    match entry_value(entries, "path"@) {
        None => Err(DomainCreateError::MissingDomainPath),
        Some(None) => Err(DomainCreateError::EmptyDomainPath),
        Some(Some(SLit::Str(v))) => Ok(v),
        Some(Some(_)) => Err(DomainCreateError::DomainPathNotString),
    }
}

/// The signatures of the methods of a domain create trait, with `crate`
/// rewritten to `interface` (the generated code lives in the kernel).
pub open spec fn kernel_sigs(items: Seq<TraitItem>) -> Result<Seq<SSignature>, DomainCreateError>
    decreases items.len(),
{
    if items.len() == 0 {
        Ok(Seq::empty())
    } else {
        match kernel_sigs(items.drop_last()) {
            Err(e) => Err(e),
            Ok(prev) => match items.last() {
                TraitItem::Method(m) => Ok(prev.push(refactor_sig("crate"@, "interface"@, view_sig(m.sig)))),
                _ => Err(DomainCreateError::NonMethodItem),
            },
        }
    }
}

/// The impl methods and the kernel functions for `sigs`, in order.
pub open spec fn linked_methods(dp: Seq<char>, comps: Seq<DomainCreateComponent>, sigs: Seq<SSignature>) -> Result<(Seq<Seq<char>>, Seq<Seq<char>>), DomainCreateError>
    decreases sigs.len(),
{
    if sigs.len() == 0 {
        Ok((Seq::empty(), Seq::empty()))
    } else {
        match linked_methods(dp, comps, sigs.drop_last()) {
            Err(e) => Err(e),
            Ok((impls, fns)) => match linked_method(dp, comps, sigs.last()) {
                Err(e) => Err(e),
                Ok((i, f)) => Ok((impls.push(i), fns.push(f))),
            },
        }
    }
}

/// The generated items: the impl of the trait for the kernel's domain
/// handle, then the kernel functions.
pub open spec fn domain_create_items(tp: Seq<char>, impls: Seq<Seq<char>>, fns: Seq<Seq<char>>) -> Seq<Seq<char>> {
    seq!["impl "@ + tp + " for crate::syscalls::PDomain { "@ + join(impls, " "@) + " }"@] + fns
}

/// What generating the domain create of the trait `t`, written in the
/// module `mod_path`, gives: nothing for a trait that is not marked,
/// else the generated items as source text, or why it cannot be done.
pub open spec fn domain_create(t: ItemTrait, mod_path: Seq<Seq<char>>) -> Result<Option<Seq<Seq<char>>>, DomainCreateError> {
    match attrs_entries(t.attrs@) {
        Err(e) => Err(DomainCreateError::Attribute(e)),
        Ok(entries) => match domain_create_kind(t.attrs@) {
            None => Ok(None),
            Some(blob) => {
                match components_of(t.attrs@) {
                    Err(e) => Err(e),
                    Ok(comps) => match domain_path_of(entries) {
                        Err(e) => Err(e),
                        Ok(dp) => if blob {
                            Err(DomainCreateError::BlobDomainCreate)
                        } else {
                            match kernel_sigs(t.items@) {
                                Err(e) => Err(e),
                                Ok(sigs) => match linked_methods(dp, comps, sigs) {
                                    Err(e) => Err(e),
                                    Ok((impls, fns)) => Ok(Some(domain_create_items(trait_path_str(mod_path, t.ident@), impls, fns))),
                                },
                            }
                        },
                    },
                }
            },
        },
    }
}

/// The attributes of a domain create trait once it is generated.
pub open spec fn domain_create_attrs(attrs: Seq<Attribute>) -> Seq<Attribute> {
    without_attr(without_attr(attrs, if has_attr(attrs, "domain_create"@) { "domain_create"@ } else { "domain_create_blob"@ }), "domain_create_components"@)
}

/// Whether `a` is `#[doc = text]`.
pub open spec fn is_doc_attr(a: Attribute, text: Seq<char>) -> bool {
    &&& path_is_ident(a.path@, "doc"@)
    &&& a.meta matches Some(Meta::NameValue(p, Lit::Str(s))) && path_is_ident(p@, "doc"@) && s@ == text
}

/// `#[doc = text]`.
pub fn doc_attribute(text: &str) -> (r: Attribute)
    ensures
        is_doc_attr(r, text@),
{
    let p1 = crate::ty::Path {
        leading_colon: false,
        segments: vec![crate::ty::PathSegment { ident: owned("doc"), arguments: crate::ty::PathArguments::Empty }],
    };
    let p2 = crate::ty::Path {
        leading_colon: false,
        segments: vec![crate::ty::PathSegment { ident: owned("doc"), arguments: crate::ty::PathArguments::Empty }],
    };
    assert(p1@.segments.len() == 1);
    assert(p1@.segments[0] == p1.segments@[0]@);
    assert(p2@.segments[0] == p2.segments@[0]@);
    Attribute { path: p1, meta: Some(Meta::NameValue(p2, Lit::Str(owned(text)))) }
}

/// A domain create the builder has generated: the path of its trait, as
/// segments and as text, and the signatures of its methods as written.
pub struct DomainCreateRecord {
    pub segments: Vec<String>,
    pub path: String,
    pub sigs: Vec<Signature>,
}

pub open spec fn view_record(r: DomainCreateRecord) -> (Seq<Seq<char>>, Seq<char>, Seq<SSignature>) {
    (strs(r.segments@), r.path@, Seq::new(r.sigs@.len(), |i: int| view_sig(r.sigs@[i])))
}

/// A domain whose entry-point crates are to be generated: the folder of its
/// crate, the components its entry point receives, and the methods of its
/// domain create. Whether the folder holds a crate, and the writing of the
/// crates, are for the caller.
pub struct EntrypointRequest {
    pub domain_path: String,
    pub components: Vec<DomainCreateComponent>,
    pub sigs: Vec<Signature>,
}

pub open spec fn view_request(r: EntrypointRequest) -> (Seq<char>, Seq<DomainCreateComponent>, Seq<SSignature>) {
    (r.domain_path@, r.components@, Seq::new(r.sigs@.len(), |i: int| view_sig(r.sigs@[i])))
}

pub open spec fn view_requests(v: Seq<EntrypointRequest>) -> Seq<(Seq<char>, Seq<DomainCreateComponent>, Seq<SSignature>)> {
    Seq::new(v.len(), |i: int| view_request(v[i]))
}

/// Where the crate of a domain lies: the `relative_path` entry among the
/// attribute entries `entries`, a string, taken relative to the factory's
/// domains folder; nothing without a factory or without such an entry.
pub open spec fn relative_domain_path(
    factory: Option<DomainEntrypointFactory>,
    entries: Seq<(Seq<char>, Option<SLit>)>,
) -> Option<Seq<char>> {
    match factory {
        None => None,
        Some(f) => match entry_value(entries, "relative_path"@) {
            Some(Some(SLit::Str(s))) => Some(path_join(f.domains_folder@, s)),
            _ => None,
        },
    }
}

/// The entry-point request a generated domain create `t` makes: one when
/// the factory and the trait's `relative_path` give the folder of the
/// domain's crate, none otherwise.
pub open spec fn entrypoint_request_for(
    factory: Option<DomainEntrypointFactory>,
    t: ItemTrait,
) -> Seq<(Seq<char>, Seq<DomainCreateComponent>, Seq<SSignature>)> {
    match attrs_entries(t.attrs@) {
        Ok(entries) => match relative_domain_path(factory, entries) {
            Some(p) => match components_of(t.attrs@) {
                Ok(comps) => seq![(p, comps, method_sigs(t.items@))],
                Err(_) => Seq::empty(),
            },
            None => Seq::empty(),
        },
        Err(_) => Seq::empty(),
    }
}

/// Generates domain creates and keeps track of those it generated, and of
/// the entry-point crates they ask for.
pub struct DomainCreateBuilder {
    pub domain_creates: Vec<DomainCreateRecord>,
    /// Where the entry-point crates of the domains go, when they are generated.
    pub domain_entrypoint_factory: Option<DomainEntrypointFactory>,
    /// The entry-point crates asked for so far, in the order of the domain
    /// creates that asked.
    pub entrypoint_requests: Vec<EntrypointRequest>,
}

pub open spec fn view_records(v: Seq<DomainCreateRecord>) -> Seq<(Seq<Seq<char>>, Seq<char>, Seq<SSignature>)> {
    Seq::new(v.len(), |i: int| view_record(v[i]))
}

/// The signatures of the methods among `items`, as written.
pub open spec fn method_sigs(items: Seq<TraitItem>) -> Seq<SSignature>
    decreases items.len(),
{
    if items.len() == 0 {
        Seq::empty()
    } else {
        match items.last() {
            TraitItem::Method(m) => method_sigs(items.drop_last()).push(view_sig(m.sig)),
            _ => method_sigs(items.drop_last()),
        }
    }
}

fn components_from_attrs(attrs: &Vec<Attribute>) -> (r: Result<Vec<DomainCreateComponent>, DomainCreateError>)
    ensures
        match r {
            Ok(v) => components_of(attrs@) == Ok::<Seq<DomainCreateComponent>, DomainCreateError>(v@),
            Err(e) => components_of(attrs@) == Err::<Seq<DomainCreateComponent>, DomainCreateError>(e),
        },
{
    let mut comps: Vec<DomainCreateComponent> = vec![DomainCreateComponent::Domain, DomainCreateComponent::Heap];
    let mut i: usize = 0;
    assert(comps@ =~= seq![DomainCreateComponent::Domain, DomainCreateComponent::Heap]);
    assert(components_of(attrs@.subrange(0, 0)) == Ok::<Seq<DomainCreateComponent>, DomainCreateError>(comps@));
    while i < attrs.len()
        invariant
            i <= attrs@.len(),
            components_of(attrs@.subrange(0, i as int)) == Ok::<Seq<DomainCreateComponent>, DomainCreateError>(comps@),
        decreases attrs@.len() - i,
    {
        let ghost cur = attrs@.subrange(0, i + 1);
        assert(cur.drop_last() =~= attrs@.subrange(0, i as int));
        assert(cur.last() == attrs@[i as int]);
        match &attrs[i].meta {
            None => {
                proof { lemma_components_prefix(attrs@, i + 1); }
                return Err(DomainCreateError::Attribute(AttributeError::Unparsable));
            },
            Some(m) => {
                let p = match m {
                    Meta::Path(p) => p,
                    Meta::List(p, _) => p,
                    Meta::NameValue(p, _) => p,
                };
                if path_is(p, "domain_create_components") {
                    match m {
                        Meta::List(_, ns) => match listed(ns) {
                            Err(e) => {
                                proof { lemma_components_prefix(attrs@, i + 1); }
                                return Err(e);
                            },
                            Ok(v) => {
                                comps = v;
                            },
                        },
                        _ => {
                            comps = Vec::new();
                            assert(comps@ =~= Seq::<DomainCreateComponent>::empty());
                        },
                    }
                }
            },
        }
        i += 1;
    }
    assert(attrs@.subrange(0, i as int) =~= attrs@);
    Ok(comps)
}

proof fn lemma_components_prefix(attrs: Seq<Attribute>, n: int)
    requires
        0 <= n <= attrs.len(),
        components_of(attrs.subrange(0, n)) is Err,
    ensures
        components_of(attrs) == components_of(attrs.subrange(0, n)),
    decreases attrs.len(),
{
    if n < attrs.len() {
        let s = attrs.drop_last();
        assert(s.subrange(0, n) =~= attrs.subrange(0, n));
        lemma_components_prefix(s, n);
    } else {
        assert(attrs.subrange(0, n) =~= attrs);
    }
}

fn listed(ns: &Vec<NestedMeta>) -> (r: Result<Vec<DomainCreateComponent>, DomainCreateError>)
    ensures
        match r {
            Ok(v) => listed_components(ns@) == Ok::<Seq<DomainCreateComponent>, DomainCreateError>(v@),
            Err(e) => listed_components(ns@) == Err::<Seq<DomainCreateComponent>, DomainCreateError>(e),
        },
{
    let mut out: Vec<DomainCreateComponent> = Vec::new();
    let mut i: usize = 0;
    assert(ns@.subrange(0, 0).len() == 0);
    assert(out@ =~= Seq::<DomainCreateComponent>::empty());
    while i < ns.len()
        invariant
            i <= ns@.len(),
            listed_components(ns@.subrange(0, i as int)) == Ok::<Seq<DomainCreateComponent>, DomainCreateError>(out@),
        decreases ns@.len() - i,
    {
        let ghost cur = ns@.subrange(0, i + 1);
        assert(cur.drop_last() =~= ns@.subrange(0, i as int));
        assert(cur.last() == ns@[i as int]);
        match &ns[i] {
            NestedMeta::Meta(m) => {
                let p = match m {
                    Meta::Path(p) => p,
                    Meta::List(p, _) => p,
                    Meta::NameValue(p, _) => p,
                };
                match ident_of(p) {
                    Some(id) => {
                        if eq_lit(&id, "Domain") {
                            out.push(DomainCreateComponent::Domain);
                        } else if eq_lit(&id, "MMap") {
                            out.push(DomainCreateComponent::MMap);
                        } else if eq_lit(&id, "Heap") {
                            out.push(DomainCreateComponent::Heap);
                        } else {
                            proof { lemma_listed_prefix(ns@, i + 1); }
                            return Err(DomainCreateError::UnsupportedComponent);
                        }
                    },
                    None => {},
                }
            },
            NestedMeta::Lit(_) => {},
        }
        i += 1;
    }
    assert(ns@.subrange(0, i as int) =~= ns@);
    Ok(out)
}

proof fn lemma_listed_prefix(ns: Seq<NestedMeta>, n: int)
    requires
        0 <= n <= ns.len(),
        listed_components(ns.subrange(0, n)) is Err,
    ensures
        listed_components(ns) == listed_components(ns.subrange(0, n)),
    decreases ns.len(),
{
    if n < ns.len() {
        let s = ns.drop_last();
        assert(s.subrange(0, n) =~= ns.subrange(0, n));
        lemma_listed_prefix(s, n);
    } else {
        assert(ns.subrange(0, n) =~= ns);
    }
}

fn domain_path_from(entries: &Vec<(String, Option<Lit>)>) -> (r: Result<String, DomainCreateError>)
    ensures
        match r {
            Ok(v) => domain_path_of(crate::attrs::view_entries(entries@)) == Ok::<Seq<char>, DomainCreateError>(v@),
            Err(e) => domain_path_of(crate::attrs::view_entries(entries@)) == Err::<Seq<char>, DomainCreateError>(e),
        },
{
    match find_entry(entries, "path") {
        None => Err(DomainCreateError::MissingDomainPath),
        Some(None) => Err(DomainCreateError::EmptyDomainPath),
        Some(Some(Lit::Str(v))) => Ok(v),
        Some(Some(_)) => Err(DomainCreateError::DomainPathNotString),
    }
}

fn kernel_signatures(items: &Vec<TraitItem>) -> (r: Result<Vec<Signature>, DomainCreateError>)
    ensures
        match r {
            Ok(v) => kernel_sigs(items@) == Ok::<Seq<SSignature>, DomainCreateError>(Seq::new(v@.len(), |i: int| view_sig(v@[i]))),
            Err(e) => kernel_sigs(items@) == Err::<Seq<SSignature>, DomainCreateError>(e),
        },
{
    let src = owned("crate");
    let dest = owned("interface");
    let mut out: Vec<Signature> = Vec::new();
    let mut i: usize = 0;
    assert(items@.subrange(0, 0).len() == 0);
    assert(Seq::new(out@.len(), |i: int| view_sig(out@[i])) =~= Seq::<SSignature>::empty());
    while i < items.len()
        invariant
            i <= items@.len(),
            src@ == "crate"@,
            dest@ == "interface"@,
            kernel_sigs(items@.subrange(0, i as int)) == Ok::<Seq<SSignature>, DomainCreateError>(Seq::new(out@.len(), |i: int| view_sig(out@[i]))),
        decreases items@.len() - i,
    {
        let ghost cur = items@.subrange(0, i + 1);
        assert(cur.drop_last() =~= items@.subrange(0, i as int));
        assert(cur.last() == items@[i as int]);
        match &items[i] {
            TraitItem::Method(m) => {
                let ghost before = Seq::new(out@.len(), |i: int| view_sig(out@[i]));
                out.push(refactored_signature(&src, &dest, &m.sig));
                assert(Seq::new(out@.len(), |i: int| view_sig(out@[i])) =~= before.push(view_sig(out@.last())));
            },
            _ => {
                proof { lemma_kernel_sigs_prefix(items@, i + 1); }
                return Err(DomainCreateError::NonMethodItem);
            },
        }
        i += 1;
    }
    assert(items@.subrange(0, i as int) =~= items@);
    Ok(out)
}

proof fn lemma_kernel_sigs_prefix(items: Seq<TraitItem>, n: int)
    requires
        0 <= n <= items.len(),
        kernel_sigs(items.subrange(0, n)) is Err,
    ensures
        kernel_sigs(items) == kernel_sigs(items.subrange(0, n)),
    decreases items.len(),
{
    if n < items.len() {
        let s = items.drop_last();
        assert(s.subrange(0, n) =~= items.subrange(0, n));
        lemma_kernel_sigs_prefix(s, n);
    } else {
        assert(items.subrange(0, n) =~= items);
    }
}

fn generate_linked_methods(dp: &String, comps: &Vec<DomainCreateComponent>, sigs: &Vec<Signature>) -> (r: Result<(Vec<String>, Vec<String>), DomainCreateError>)
    ensures
        match r {
            Ok((i, f)) => linked_methods(dp@, comps@, Seq::new(sigs@.len(), |k: int| view_sig(sigs@[k])))
                == Ok::<(Seq<Seq<char>>, Seq<Seq<char>>), DomainCreateError>((strs(i@), strs(f@))),
            Err(e) => linked_methods(dp@, comps@, Seq::new(sigs@.len(), |k: int| view_sig(sigs@[k])))
                == Err::<(Seq<Seq<char>>, Seq<Seq<char>>), DomainCreateError>(e),
        },
{
    let ghost sv = Seq::new(sigs@.len(), |k: int| view_sig(sigs@[k]));
    let mut impls: Vec<String> = Vec::new();
    let mut fns: Vec<String> = Vec::new();
    let mut i: usize = 0;
    assert(strs(impls@) =~= Seq::<Seq<char>>::empty());
    assert(strs(fns@) =~= Seq::<Seq<char>>::empty());
    assert(sv.subrange(0, 0).len() == 0);
    while i < sigs.len()
        invariant
            i <= sigs@.len(),
            sv == Seq::new(sigs@.len(), |k: int| view_sig(sigs@[k])),
            linked_methods(dp@, comps@, sv.subrange(0, i as int))
                == Ok::<(Seq<Seq<char>>, Seq<Seq<char>>), DomainCreateError>((strs(impls@), strs(fns@))),
        decreases sigs@.len() - i,
    {
        let ghost cur = sv.subrange(0, i + 1);
        assert(cur.drop_last() =~= sv.subrange(0, i as int));
        assert(cur.last() == view_sig(sigs@[i as int]));
        match generate_domain_create_for_trait_method(dp, comps, &sigs[i]) {
            Err(e) => {
                proof { lemma_linked_prefix(dp@, comps@, sv, i + 1); }
                return Err(e);
            },
            Ok((a, b)) => {
                let ghost (ib, fb) = (strs(impls@), strs(fns@));
                impls.push(a);
                fns.push(b);
                assert(strs(impls@) =~= ib.push(impls@.last()@));
                assert(strs(fns@) =~= fb.push(fns@.last()@));
            },
        }
        i += 1;
    }
    assert(sv.subrange(0, i as int) =~= sv);
    Ok((impls, fns))
}

proof fn lemma_linked_prefix(dp: Seq<char>, comps: Seq<DomainCreateComponent>, sigs: Seq<SSignature>, n: int)
    requires
        0 <= n <= sigs.len(),
        linked_methods(dp, comps, sigs.subrange(0, n)) is Err,
    ensures
        linked_methods(dp, comps, sigs) == linked_methods(dp, comps, sigs.subrange(0, n)),
    decreases sigs.len(),
{
    if n < sigs.len() {
        let s = sigs.drop_last();
        assert(s.subrange(0, n) =~= sigs.subrange(0, n));
        lemma_linked_prefix(dp, comps, s, n);
    } else {
        assert(sigs.subrange(0, n) =~= sigs);
    }
}

pub fn method_signatures_of(items: &Vec<TraitItem>) -> (r: Vec<Signature>)
    ensures
        Seq::new(r@.len(), |i: int| view_sig(r@[i])) == method_sigs(items@),
{
    let mut out: Vec<Signature> = Vec::new();
    let mut i: usize = 0;
    assert(Seq::new(out@.len(), |i: int| view_sig(out@[i])) =~= method_sigs(items@.subrange(0, 0)));
    while i < items.len()
        invariant
            i <= items@.len(),
            Seq::new(out@.len(), |i: int| view_sig(out@[i])) == method_sigs(items@.subrange(0, i as int)),
        decreases items@.len() - i,
    {
        let ghost cur = items@.subrange(0, i + 1);
        assert(cur.drop_last() =~= items@.subrange(0, i as int));
        assert(cur.last() == items@[i as int]);
        match &items[i] {
            TraitItem::Method(m) => {
                let ghost before = Seq::new(out@.len(), |i: int| view_sig(out@[i]));
                out.push(crate::copy::copy_signature(&m.sig));
                assert(Seq::new(out@.len(), |i: int| view_sig(out@[i])) =~= before.push(view_sig(out@.last())));
            },
            _ => {},
        }
        i += 1;
    }
    assert(items@.subrange(0, i as int) =~= items@);
    out
}

impl DomainCreateBuilder {
    pub fn new() -> (r: Self)
        ensures
            r.domain_creates@.len() == 0,
            r.domain_entrypoint_factory is None,
            r.entrypoint_requests@.len() == 0,
    {
        DomainCreateBuilder { domain_creates: Vec::new(), domain_entrypoint_factory: None, entrypoint_requests: Vec::new() }
    }

    /// A builder that also has entry-point crates generated in
    /// `domains_folder`.
    pub fn new_with_domains_folder(domains_folder: DomainEntrypointFactory) -> (r: Self)
        ensures
            r.domain_creates@.len() == 0,
            r.domain_entrypoint_factory == Some(domains_folder),
            r.entrypoint_requests@.len() == 0,
    {
        DomainCreateBuilder {
            domain_creates: Vec::new(),
            domain_entrypoint_factory: Some(domains_folder),
            entrypoint_requests: Vec::new(),
        }
    }

    /// Where the crate of a domain lies, from the `relative_path` entry of its
    /// trait's attributes, taken relative to the domains folder: nothing
    /// without a domains folder or without a string there. Whether that
    /// folder holds a crate is for the caller to find out.
    pub fn get_relative_domain_path(&self, entries: &Vec<(String, Option<Lit>)>) -> (r: Option<String>)
        ensures
            match relative_domain_path(self.domain_entrypoint_factory, view_entries(entries@)) {
                Some(p) => r matches Some(q) && q@ == p,
                None => r is None,
            },
    {
        match &self.domain_entrypoint_factory {
            None => None,
            Some(f) => match find_entry(entries, "relative_path") {
                Some(Some(Lit::Str(s))) => Some(f.as_relative_to_domains_folder(&s)),
                _ => None,
            },
        }
    }

    /// Generates the domain create of the trait `input`, written in the
    /// module `mod_path` (see [`domain_create`]). When it is generated,
    /// the trait loses its domain create attributes and gets a doc comment
    /// that marks it, and the builder records it; otherwise nothing changes.
    pub fn generate_domain_create(&mut self, input: &mut ItemTrait, mod_path: &Vec<String>) -> (r: Result<Option<Vec<String>>, DomainCreateError>)
        ensures
            match domain_create(*old(input), strs(mod_path@)) {
                Err(e) => r == Err::<Option<Vec<String>>, DomainCreateError>(e) && *final(input) == *old(input)
                    && final(self).domain_creates@ == old(self).domain_creates@
                    && final(self).entrypoint_requests@ == old(self).entrypoint_requests@,
                Ok(None) => r == Ok::<Option<Vec<String>>, DomainCreateError>(None) && *final(input) == *old(input)
                    && final(self).domain_creates@ == old(self).domain_creates@
                    && final(self).entrypoint_requests@ == old(self).entrypoint_requests@,
                Ok(Some(items)) => {
                    &&& r matches Ok(Some(v)) && strs(v@) == items
                    &&& final(input).attrs@.len() == domain_create_attrs(old(input).attrs@).len() + 1
                    &&& final(input).attrs@.drop_last() == domain_create_attrs(old(input).attrs@)
                    &&& is_doc_attr(final(input).attrs@.last(), "redIDL Auto Generated: domain_create trait. Generations are below"@)
                    &&& final(input).items == old(input).items
                    &&& final(input).ident == old(input).ident
                    &&& final(input).vis == old(input).vis
                    &&& final(input).generics == old(input).generics
                    &&& final(input).supertraits == old(input).supertraits
                    &&& view_records(final(self).domain_creates@) == view_records(old(self).domain_creates@).push((
                        strs(mod_path@).push(old(input).ident@),
                        trait_path_str(strs(mod_path@), old(input).ident@),
                        method_sigs(old(input).items@),
                    ))
                    &&& view_requests(final(self).entrypoint_requests@) == view_requests(old(self).entrypoint_requests@)
                        + entrypoint_request_for(old(self).domain_entrypoint_factory, *old(input))
                },
            },
            final(self).domain_entrypoint_factory == old(self).domain_entrypoint_factory,
    {
        let entries = match attribute_entries(&input.attrs) {
            Err(e) => {
                return Err(DomainCreateError::Attribute(e));
            },
            Ok(v) => v,
        };
        let linked = has_attribute(&input.attrs, "domain_create");
        let blob = !linked && has_attribute(&input.attrs, "domain_create_blob");
        if !linked && !blob {
            return Ok(None);
        }
        let comps = match components_from_attrs(&input.attrs) {
            Err(e) => {
                return Err(e);
            },
            Ok(c) => c,
        };
        let dp = match domain_path_from(&entries) {
            Err(e) => {
                return Err(e);
            },
            Ok(p) => p,
        };
        if blob {
            return Err(DomainCreateError::BlobDomainCreate);
        }
        let sigs = match kernel_signatures(&input.items) {
            Err(e) => {
                return Err(e);
            },
            Ok(s) => s,
        };
        let (impls, fns) = match generate_linked_methods(&dp, &comps, &sigs) {
            Err(e) => {
                return Err(e);
            },
            Ok(x) => x,
        };
        let mut tp = join_strings(mod_path, "::");
        tp.append("::");
        tp.append(input.ident.as_str());
        let mut head = owned("impl ");
        head.append(tp.as_str());
        head.append(" for crate::syscalls::PDomain { ");
        let body = join_strings(&impls, " ");
        head.append(body.as_str());
        head.append(" }");
        let mut out: Vec<String> = Vec::new();
        out.push(head);
        let mut fns = fns;
        let ghost (a, b) = (strs(out@), strs(fns@));
        out.append(&mut fns);
        assert(strs(out@) =~= a + b);
        let mut segments = clone_strings_of(mod_path);
        segments.push(input.ident.clone());
        assert(strs(segments@) =~= strs(mod_path@).push(input.ident@));
        let record = DomainCreateRecord { segments, path: tp, sigs: method_signatures_of(&input.items) };
        let ghost before = view_records(self.domain_creates@);
        self.domain_creates.push(record);
        assert(view_records(self.domain_creates@) =~= before.push(view_record(self.domain_creates@.last())));
        let ghost requests_before = view_requests(self.entrypoint_requests@);
        match self.get_relative_domain_path(&entries) {
            Some(domain_path) => {
                let request = EntrypointRequest { domain_path, components: comps, sigs: method_signatures_of(&input.items) };
                self.entrypoint_requests.push(request);
                assert(view_requests(self.entrypoint_requests@) =~= requests_before.push(
                    view_request(self.entrypoint_requests@.last()),
                ));
            },
            None => {},
        }
        remove_attribute(&mut input.attrs, if linked { "domain_create" } else { "domain_create_blob" });
        remove_attribute(&mut input.attrs, "domain_create_components");
        input.attrs.push(doc_attribute("redIDL Auto Generated: domain_create trait. Generations are below"));
        Ok(Some(out))
    }

    /// The paths of the traits of the domain creates generated so far.
    pub fn get_domain_paths(&self) -> (r: Vec<String>)
        ensures
            strs(r@) == Seq::new(self.domain_creates@.len(), |i: int| self.domain_creates@[i].path@),
    {
        let mut r: Vec<String> = Vec::new();
        let mut i: usize = 0;
        while i < self.domain_creates.len()
            invariant
                i <= self.domain_creates@.len(),
                r@.len() == i,
                forall|j: int| 0 <= j < i ==> #[trigger] r@[j]@ == self.domain_creates@[j].path@,
            decreases self.domain_creates@.len() - i,
        {
            r.push(self.domain_creates[i].path.clone());
            i += 1;
        }
        assert(strs(r@) =~= Seq::new(self.domain_creates@.len(), |i: int| self.domain_creates@[i].path@));
        r
    }

    /// The function that starts the `init` domain (see [`create_init_str`]).
    pub fn generate_create_init(&self) -> (r: String)
        ensures
            r@ == create_init_str(Seq::new(self.domain_creates@.len(), |i: int| self.domain_creates@[i].path@)),
    {
        let paths = self.get_domain_paths();
        let ghost pv = strs(paths@);
        let mut tys: Vec<String> = Vec::new();
        let mut news: Vec<String> = Vec::new();
        let mut i: usize = 0;
        while i < paths.len()
            invariant
                i <= paths@.len(),
                tys@.len() == i,
                news@.len() == i,
                forall|j: int| 0 <= j < i ==> #[trigger] tys@[j]@ == "::alloc::sync::Arc<dyn "@ + paths@[j]@ + ">, "@,
                forall|j: int| 0 <= j < i ==> #[trigger] news@[j]@ == "::alloc::sync::Arc::new(crate::syscalls::PDomain::new(::alloc::sync::Arc::clone(&dom)))"@,
            decreases paths@.len() - i,
        {
            let mut t = owned("::alloc::sync::Arc<dyn ");
            t.append(paths[i].as_str());
            t.append(">, ");
            tys.push(t);
            news.push(owned("::alloc::sync::Arc::new(crate::syscalls::PDomain::new(::alloc::sync::Arc::clone(&dom)))"));
            i += 1;
        }
        assert(strs(tys@) =~= Seq::new(pv.len(), |i: int| "::alloc::sync::Arc<dyn "@ + pv[i] + ">, "@));
        assert(strs(news@) =~= Seq::new(pv.len(), |i: int| "::alloc::sync::Arc::new(crate::syscalls::PDomain::new(::alloc::sync::Arc::clone(&dom)))"@));
        let arcs_ty = join_strings(&tys, "");
        let arcs = join_strings(&news, ", ");
        let mut out = String::new();
        out.append("pub fn create_domain_init() -> ::alloc::boxed::Box<dyn ::syscalls::Domain> { let name = \"init\"; extern \"C\" { fn _binary_domains_build_redleaf_init_start(); fn _binary_domains_build_redleaf_init_end(); } let binary_range = (_binary_domains_build_redleaf_init_start as *const u8, _binary_domains_build_redleaf_init_end as *const u8); type UserInit = fn(::alloc::boxed::Box<dyn ::syscalls::Syscall + Send + Sync>, ::alloc::boxed::Box<dyn ::syscalls::Heap + Send + Sync>, ::alloc::boxed::Box<dyn ::syscalls::Interrupt>, ");
        out.append(arcs_ty.as_str());
        out.append("); let (dom, entry) = unsafe { crate::domain::load_domain(name, binary_range) }; let user_ep: UserInit = unsafe { ::core::mem::transmute::<*const (), UserInit>(entry) }; let thread = crate::thread::get_current_ref(); let old_id = { let mut thread = thread.lock(); let old_id = thread.current_domain_id; thread.current_domain_id = dom.lock().id; old_id }; crate::interrupt::enable_irq(); user_ep(::alloc::boxed::Box::new(crate::syscalls::PDomain::new(::alloc::sync::Arc::clone(&dom))), ::alloc::boxed::Box::new(crate::heap::PHeap::new()), ::alloc::boxed::Box::new(crate::syscalls::Interrupt::new()), ");
        out.append(arcs.as_str());
        out.append("); crate::interrupt::disable_irq(); { thread.lock().current_domain_id = old_id; } #[cfg(feature = \"domain_create_log\")] println!(\"domain/{}: returned from entry point\", name); ::alloc::boxed::Box::new(crate::syscalls::PDomain::new(::alloc::sync::Arc::clone(&dom))) }");
        out
    }

    /// The domain creates generated so far.
    pub fn take(self) -> (r: Vec<DomainCreateRecord>)
        ensures
            r == self.domain_creates,
    {
        self.domain_creates
    }
}

fn clone_strings_of(v: &Vec<String>) -> (r: Vec<String>)
    ensures
        strs(r@) == strs(v@),
{
    crate::text::clone_strings(v)
}

} // verus!

verus! {

/// The canonical domain path, used in symbol names, holds no `/`.
pub proof fn law_canonical_domain_path_has_no_slash(p: Seq<char>)
    ensures
        !canonical_domain_path(p).contains('/'),
        canonical_domain_path(p).len() == p.len(),
{
    let c = canonical_domain_path(p);
    assert forall|i: int| 0 <= i < c.len() implies c[i] != '/' by {}
}

/// The trait paths that a run of calls recorded, in the order of the calls:
/// `added[k]` is what call `k` recorded, if anything.
pub open spec fn recorded_paths(added: Seq<Option<Seq<char>>>) -> Seq<Seq<char>>
    decreases added.len(),
{
    if added.len() == 0 {
        Seq::empty()
    } else {
        recorded_paths(added.drop_last()) + match added.last() {
            Some(p) => seq![p],
            None => Seq::<Seq<char>>::empty(),
        }
    }
}

/// From an empty builder, the paths `get_domain_paths` lists after a run of
/// `generate_domain_create` calls are those of the calls that generated a
/// domain create, in the order of the calls (and so are the paths of what
/// `take` hands out). `states[k]` holds the builder's records before call
/// `k` and `added[k]` the trait path that call `k` recorded, if any, as
/// `generate_domain_create` states them.
pub proof fn law_domain_paths_in_call_order(
    states: Seq<Seq<(Seq<Seq<char>>, Seq<char>, Seq<SSignature>)>>,
    added: Seq<Option<Seq<char>>>,
)
    requires
        states.len() == added.len() + 1,
        states[0].len() == 0,
        forall|k: int| 0 <= k < added.len() ==> match #[trigger] added[k] {
            Some(p) => states[k + 1].len() == states[k].len() + 1 && states[k + 1].drop_last() == states[k]
                && states[k + 1].last().1 == p,
            None => states[k + 1] == states[k],
        },
    ensures
        Seq::new(states.last().len(), |i: int| states.last()[i].1) == recorded_paths(added),
    decreases added.len(),
{
    if added.len() > 0 {
        let n = added.len() - 1;
        let st = states.drop_last();
        let ad = added.drop_last();
        assert forall|k: int| 0 <= k < ad.len() implies match #[trigger] ad[k] {
            Some(p) => st[k + 1].len() == st[k].len() + 1 && st[k + 1].drop_last() == st[k]
                && st[k + 1].last().1 == p,
            None => st[k + 1] == st[k],
        } by {
            assert(ad[k] == added[k]);
            assert(st[k] == states[k]);
            assert(st[k + 1] == states[k + 1]);
        }
        law_domain_paths_in_call_order(st, ad);
        assert(st.last() == states[n]);
        assert(added[n] == added.last());
        let prev = Seq::new(states[n].len(), |i: int| states[n][i].1);
        let cur = Seq::new(states.last().len(), |i: int| states.last()[i].1);
        match added[n] {
            Some(p) => {
                assert(states.last().drop_last() == states[n]);
                assert forall|i: int| 0 <= i < states[n].len() implies states.last()[i] == states[n][i] by {
                    assert(states.last().drop_last()[i] == states.last()[i]);
                }
                assert(cur =~= prev + seq![p]);
            },
            None => {
                assert(cur =~= prev);
            },
        }
    }
}

/// The linker symbol of one end of a domain's binary, for the domain path
/// `p`: `_binary_domains_build_`, the path with each `/` made `_`, and the
/// end's suffix.
pub open spec fn binary_symbol(p: Seq<char>, suffix: Seq<char>) -> Seq<char> {
    "_binary_domains_build_"@ + replace_char(p, '/', '_') + suffix
}

/// The kernel function of a domain create is named after the domain path
/// with each `/` made `_`, and declares, right at its start, the linker
/// symbols of the domain's binary built from that same path; the symbols
/// hold no `/`.
pub proof fn law_binary_symbols_use_canonical_path(
    domain_path: Seq<char>,
    comps: Seq<DomainCreateComponent>,
    s: SSignature,
    ep: SType,
)
    ensures
        exists|mid: Seq<char>, rest: Seq<char>|
            linked_fn_str(domain_path, comps, s, ep) == "pub(crate) fn "@ + replace_char(domain_path, '/', '_') + "_"@
                + s.ident + mid + " { crate::interrupt::disable_irq(); extern \"C\" { fn "@
                + binary_symbol(domain_path, "_start"@) + "(); fn "@ + binary_symbol(domain_path, "_end"@)
                + "(); } let binary_range_ = ("@ + rest,
        !binary_symbol(domain_path, "_start"@).contains('/'),
        !binary_symbol(domain_path, "_end"@).contains('/'),
{
    let canon = canonical_domain_path(domain_path);
    let args = fn_args_str(selfless(s.inputs));
    let rtn = return_type_str(s.output);
    let start = binary_symbol(domain_path, "_start"@);
    let end = binary_symbol(domain_path, "_end"@);
    let mid = "("@ + args + ")"@ + rtn;
    let text = linked_fn_str(domain_path, comps, s, ep);
    let head = "pub(crate) fn "@ + canon + "_"@ + s.ident + mid + " { crate::interrupt::disable_irq(); extern \"C\" { fn "@
        + start + "(); fn "@ + end + "(); } let binary_range_ = ("@;
    let rest = text.subrange(head.len() as int, text.len() as int);
    assert(text =~= head + rest);
    reveal_strlit("_binary_domains_build_");
    reveal_strlit("_start");
    reveal_strlit("_end");
    lemma_symbol_has_no_slash(domain_path, "_start"@);
    lemma_symbol_has_no_slash(domain_path, "_end"@);
}

proof fn lemma_symbol_has_no_slash(p: Seq<char>, suffix: Seq<char>)
    requires
        !suffix.contains('/'),
        !"_binary_domains_build_"@.contains('/'),
    ensures
        !binary_symbol(p, suffix).contains('/'),
{
    let pre = "_binary_domains_build_"@;
    let c = replace_char(p, '/', '_');
    let b = binary_symbol(p, suffix);
    assert forall|i: int| 0 <= i < b.len() implies b[i] != '/' by {
        if i < pre.len() {
            assert(b[i] == pre[i]);
        } else if i < pre.len() + c.len() {
            assert(b[i] == c[i - pre.len()]);
        } else {
            assert(b[i] == suffix[i - pre.len() - c.len()]);
        }
    }
}

} // verus!
