//! Entry-point crates of domains: for a domain create method
//! `create_domain_<name>`, a crate whose `trusted_entry` sets up the
//! components the kernel hands over and calls the domain's `main`.
//! Creating folders and writing the files is left to the caller.

use vstd::prelude::*;
use vstd::string::{StrSliceExecFns, StringExecFns};
use crate::ast::{FnArg, Pat, Signature};
use crate::domain_create::DomainCreateComponent;
use crate::print::{fn_arg_str, fn_arg_to_string, type_str, type_to_string, view_fn_arg, view_fn_args, SFnArg, SSignature, view_sig};
use crate::text::{join, join_strings, owned, starts_with, strs, suffix_from};
use crate::ty::{ReturnType, SReturnType, SType, Type};

verus! {

/// `p` joined onto `base` as `std::path::Path::join` does on Unix: an
/// absolute `p` replaces `base`; otherwise a `/` separates them unless
/// `base` is empty or already ends with one.
pub open spec fn path_join(base: Seq<char>, p: Seq<char>) -> Seq<char> {
    if p.len() > 0 && p[0] == '/' {
        p
    } else if base.len() == 0 || base.last() == '/' {
        base + p
    } else {
        base + "/"@ + p
    }
}

/// `p` joined onto `base` (see [`path_join`]).
pub fn join_path(base: &String, p: &String) -> (r: String)
    ensures
        r@ == path_join(base@, p@),
{
    let pn = p.as_str().unicode_len();
    if pn > 0 && p.as_str().get_char(0) == '/' {
        return p.clone();
    }
    let bn = base.as_str().unicode_len();
    let mut out = base.clone();
    if bn == 0 || base.as_str().get_char(bn - 1) == '/' {
        out.append(p.as_str());
    } else {
        out.append("/");
        out.append(p.as_str());
    }
    out
}

/// What std's `Path::strip_prefix` gives for `path` and `base`, displayed
/// as text: the rest of `path` after the components of `base`, or nothing
/// when `base` is not a prefix of `path`.
pub uninterp spec fn path_strip_prefix(path: Seq<char>, base: Seq<char>) -> Option<Seq<char>>;

/// Trusted: calls std's `Path::strip_prefix` and displays the result. The
/// result depends on the two paths alone; std compares them component by
/// component, which is left to the name [`path_strip_prefix`].
#[verifier::external_body]
fn strip_path_prefix(path: &String, base: &str) -> (r: Option<String>)
    ensures
        match r {
            Some(s) => path_strip_prefix(path@, base@) == Some(s@),
            None => path_strip_prefix(path@, base@) is None,
        },
{
    std::path::Path::new(path.as_str()).strip_prefix(base).ok().map(|p| p.display().to_string())
}

/// Why an entry-point crate cannot be generated.
pub enum EntrypointError {
    /// The domain's path does not lie under `../../../../domains/`.
    NotUnderDomains,
    /// The entry point of a domain that takes an `MMap` component is not
    /// generated (its parameter's type is malformed).
    MMapComponent,
    /// The method does not return a tuple of at least two elements.
    ReturnNotTuple,
}

/// The manifest of the entry-point crate of domain `name`, whose crate lies
/// at `rel` below the domains folder.
pub open spec fn cargo_str(name: Seq<char>, rel: Seq<char>) -> Seq<char> {
"
                [package]
                name = \""@
        + name
        + "_entry_point\"
                version = \"0.1.0\"
                authors = [\"Redleaf team <aburtsev@uci.edu>\"]
                edition = \"2018\"
    
                # See more keys and their definitions at https://doc.rust-lang.org/cargo/reference/manifest.html
    
                [[bin]]
                name = \""@
        + name
        + "\"
                path = \"src/main.rs\"
    
                [dependencies]
                interface = { path = \"../../../interface/generated\" }
                libsyscalls = { path = \"../../../lib/core/libsyscalls\" }
                syscalls = { path = \"../../../lib/core/interfaces/syscalls\" }
                console = { path = \"../../../lib/core/console\" }
    
                "@
        + name
        + " = { path = \"../../"@
        + rel
        + "\" }       
                "@
}

/// The manifest of an entry-point crate (see [`cargo_str`]).
pub fn entrypoint_cargo_text(name: &String, rel: &String) -> (r: String)
    ensures
        r@ == cargo_str(name@, rel@),
{
    let mut out = String::new();
    out.append("
                [package]
                name = \"");
    out.append(name.as_str());
    out.append("_entry_point\"
                version = \"0.1.0\"
                authors = [\"Redleaf team <aburtsev@uci.edu>\"]
                edition = \"2018\"
    
                # See more keys and their definitions at https://doc.rust-lang.org/cargo/reference/manifest.html
    
                [[bin]]
                name = \"");
    out.append(name.as_str());
    out.append("\"
                path = \"src/main.rs\"
    
                [dependencies]
                interface = { path = \"../../../interface/generated\" }
                libsyscalls = { path = \"../../../lib/core/libsyscalls\" }
                syscalls = { path = \"../../../lib/core/interfaces/syscalls\" }
                console = { path = \"../../../lib/core/console\" }
    
                ");
    out.append(name.as_str());
    out.append(" = { path = \"../../");
    out.append(rel.as_str());
    out.append("\" }       
                ");
    out
}

/// The domain's name, from the name of its domain create method: the
/// method name without its leading `create_domain_`, repeated.
pub open spec fn trim_create_domain(s: Seq<char>) -> Seq<char>
    decreases s.len(),
{
    if "create_domain_"@.is_prefix_of(s) && "create_domain_"@.len() > 0 {
        trim_create_domain(s.subrange("create_domain_"@.len() as int, s.len() as int))
    } else {
        s
    }
}

/// The domain's name for a method, if the method creates a domain.
pub open spec fn entrypoint_domain_name(method: Seq<char>) -> Option<Seq<char>> {
    if "create_domain_"@.is_prefix_of(method) {
        Some(trim_create_domain(method))
    } else {
        None
    }
}

/// The domain's name for a method name (see [`entrypoint_domain_name`]).
pub fn domain_name_of(method: &String) -> (r: Option<String>)
    ensures
        match r {
            Some(n) => entrypoint_domain_name(method@) == Some(n@),
            None => entrypoint_domain_name(method@) is None,
        },
{
    if !starts_with(method, "create_domain_") {
        return None;
    }
    let mut cur = method.clone();
    proof {
        reveal_strlit("create_domain_");
    }
    while starts_with(&cur, "create_domain_")
        invariant
            "create_domain_"@.len() == 14,
            trim_create_domain(cur@) == trim_create_domain(method@),
        decreases cur@.len(),
    {
        cur = suffix_from(&cur, 14);
    }
    Some(cur)
}

pub open spec fn component_param_str(c: DomainCreateComponent) -> Option<Seq<char>> {
    match c {
        DomainCreateComponent::Domain => Some("s: Box<dyn syscalls::Syscall + Send + Sync>"@),
        DomainCreateComponent::Heap => Some("heap: Box<dyn syscalls::Heap + Send + Sync>"@),
        DomainCreateComponent::MMap => None,
    }
}

pub open spec fn component_init_str(c: DomainCreateComponent) -> Seq<char> {
    match c {
        DomainCreateComponent::Domain => "libsyscalls::syscalls::init(s);"@,
        DomainCreateComponent::Heap => "interface::rref::init(heap, libsyscalls::syscalls::sys_get_current_domain_id());"@,
        DomainCreateComponent::MMap => "libsyscalls::syscalls::init_mmap(m);"@,
    }
}

/// The typed parameters of a method, as source text.
pub open spec fn typed_arg_strs(args: Seq<SFnArg>) -> Seq<Seq<char>> {
    crate::domain_create::arg_strs(crate::domain_create::selfless(args))
}

/// The names of the typed parameters that are plain identifiers.
pub open spec fn arg_idents(args: Seq<crate::ast::FnArg>) -> Seq<Seq<char>>
    decreases args.len(),
{
    if args.len() == 0 {
        Seq::empty()
    } else {
        match args.last() {
            FnArg::Typed(Pat::Ident(id), _) => arg_idents(args.drop_last()).push(id@),
            _ => arg_idents(args.drop_last()),
        }
    }
}

/// The return type of the entry point: the method's return tuple without
/// its first element, boxed.
pub open spec fn entry_return_str(output: SReturnType) -> Option<Seq<char>> {
    match output {
        SReturnType::Type(t) => match *t {
            SType::Tuple(elems) => if elems.len() <= 1 {
                None
            } else {
                Some("Box<("@ + join(Seq::new((elems.len() - 1) as nat, |i: int| type_str(elems[i + 1])), ", "@) + ")>"@)
            },
            _ => None,
        },
        SReturnType::Default => None,
    }
}

/// The `main.rs` of the entry-point crate of domain `name` for the method
/// with signature `sig`, whose components are `comps`.
pub open spec fn main_rs_str(name: Seq<char>, comps: Seq<DomainCreateComponent>, sig: crate::ast::Signature) -> Result<Seq<char>, EntrypointError> {
    if comps.contains(DomainCreateComponent::MMap) {
        Err(EntrypointError::MMapComponent)
    } else {
        match entry_return_str(sig.output@) {
            None => Err(EntrypointError::ReturnNotTuple),
            Some(ret) => {
                let args = join(Seq::new(comps.len(), |i: int| component_param_str(comps[i])->0) + typed_arg_strs(view_fn_args(sig.inputs@)), ", "@);
                let inits = join(Seq::new(comps.len(), |i: int| component_init_str(comps[i])), " "@);
                let idents = join(arg_idents(sig.inputs@), ", "@);
                Ok(
                    "#![no_std] #![no_main] extern crate alloc; use alloc::boxed::Box; use console::println; use "@
                            + name
                            + "; #[no_mangle] pub fn trusted_entry("@
                            + args
                            + ") -> "@
                            + ret
                            + " { "@
                            + inits
                            + " "@
                            + name
                            + "::main("@
                            + idents
                            + ") }"@
                )
            },
        }
    }
}

/// Where entry-point crates of domains go.
pub struct DomainEntrypointFactory {
    pub output_folder_created: bool,
    pub output_folder_path: String,
    pub domains_folder: String,
}

impl DomainEntrypointFactory {
    /// A factory for the domains folder `domains_folder`; its crates go to
    /// the folder `generated` in it, which the caller sets up.
    pub fn new(domains_folder: String) -> (r: Self)
        ensures
            r.domains_folder@ == domains_folder@,
            r.output_folder_path@ == path_join(domains_folder@, "generated"@),
            r.output_folder_created,
    {
        let generated = owned("generated");
        let output_folder_path = join_path(&domains_folder, &generated);
        DomainEntrypointFactory { output_folder_created: true, output_folder_path, domains_folder }
    }

    /// `path` taken relative to the domains folder.
    pub fn as_relative_to_domains_folder(&self, path: &String) -> (r: String)
        ensures
            r@ == path_join(self.domains_folder@, path@),
    {
        join_path(&self.domains_folder, path)
    }

    /// The manifest of the entry-point crate of domain `domain_name`, whose
    /// crate lies at `domain_relative_path` (see [`cargo_str`]).
    pub fn generate_entrypoint_cargo(&self, domain_relative_path: &String, domain_name: &String) -> (r: Result<String, EntrypointError>)
        ensures
            match path_strip_prefix(domain_relative_path@, "../../../../domains/"@) {
                None => r == Err::<String, EntrypointError>(EntrypointError::NotUnderDomains),
                Some(rel) => r matches Ok(s) && s@ == cargo_str(domain_name@, rel),
            },
    {
        match strip_path_prefix(domain_relative_path, "../../../../domains/") {
            None => Err(EntrypointError::NotUnderDomains),
            Some(rel) => Ok(entrypoint_cargo_text(domain_name, &rel)),
        }
    }

    /// The `main.rs` of the entry-point crate (see [`main_rs_str`]).
    pub fn generate_entrypoint_main_rs(&self, domain_name: &String, domain_components: &Vec<DomainCreateComponent>, sig: &Signature) -> (r: Result<String, EntrypointError>)
        ensures
            match main_rs_str(domain_name@, domain_components@, *sig) {
                Err(e) => r == Err::<String, EntrypointError>(e),
                Ok(text) => r matches Ok(s) && s@ == text,
            },
    {
        entrypoint_main_text(domain_name, domain_components, sig)
    }

    /// The entry-point crate of the domain the method `sig` creates: its
    /// name, manifest and `main.rs`; nothing when the method's name does not
    /// start with `create_domain_`. Writing the crate is left to the caller.
    pub fn generate_domain_entrypoint_crates(
        &self,
        domain_relative_path: &String,
        domain_components: &Vec<DomainCreateComponent>,
        sig: &Signature,
    ) -> (r: Result<Option<(String, String, String)>, EntrypointError>)
        ensures
            match entrypoint_domain_name(sig.ident@) {
                None => r == Ok::<Option<(String, String, String)>, EntrypointError>(None),
                Some(name) => match path_strip_prefix(domain_relative_path@, "../../../../domains/"@) {
                    None => r == Err::<Option<(String, String, String)>, EntrypointError>(EntrypointError::NotUnderDomains),
                    Some(rel) => match main_rs_str(name, domain_components@, *sig) {
                        Err(e) => r == Err::<Option<(String, String, String)>, EntrypointError>(e),
                        Ok(main) => r matches Ok(Some((n, c, m)))
                            && n@ == name && c@ == cargo_str(name, rel) && m@ == main,
                    },
                },
            },
    {
        let name = match domain_name_of(&sig.ident) {
            None => {
                return Ok(None);
            },
            Some(n) => n,
        };
        let cargo = match self.generate_entrypoint_cargo(domain_relative_path, &name) {
            Err(e) => {
                return Err(e);
            },
            Ok(c) => c,
        };
        let main = match self.generate_entrypoint_main_rs(&name, domain_components, sig) {
            Err(e) => {
                return Err(e);
            },
            Ok(m) => m,
        };
        Ok(Some((name, cargo, main)))
    }
}

fn entrypoint_main_text(name: &String, comps: &Vec<DomainCreateComponent>, sig: &Signature) -> (r: Result<String, EntrypointError>)
    ensures
        match main_rs_str(name@, comps@, *sig) {
            Err(e) => r == Err::<String, EntrypointError>(e),
            Ok(text) => r matches Ok(s) && s@ == text,
        },
{
    let mut params: Vec<String> = Vec::new();
    let mut inits: Vec<String> = Vec::new();
    let mut i: usize = 0;
    while i < comps.len()
        invariant
            i <= comps@.len(),
            params@.len() == i,
            inits@.len() == i,
            forall|j: int| 0 <= j < i ==> comps@[j] != DomainCreateComponent::MMap,
            forall|j: int| 0 <= j < i ==> #[trigger] params@[j]@ == component_param_str(comps@[j])->0,
            forall|j: int| 0 <= j < i ==> #[trigger] inits@[j]@ == component_init_str(comps@[j]),
        decreases comps@.len() - i,
    {
        match comps[i] {
            DomainCreateComponent::Domain => {
                params.push(owned("s: Box<dyn syscalls::Syscall + Send + Sync>"));
                inits.push(owned("libsyscalls::syscalls::init(s);"));
            },
            DomainCreateComponent::Heap => {
                params.push(owned("heap: Box<dyn syscalls::Heap + Send + Sync>"));
                inits.push(owned("interface::rref::init(heap, libsyscalls::syscalls::sys_get_current_domain_id());"));
            },
            DomainCreateComponent::MMap => {
                assert(comps@[i as int] == DomainCreateComponent::MMap);
                return Err(EntrypointError::MMapComponent);
            },
        }
        i += 1;
    }
    assert(!comps@.contains(DomainCreateComponent::MMap));
    let ret = match entry_return(&sig.output) {
        None => {
            return Err(EntrypointError::ReturnNotTuple);
        },
        Some(x) => x,
    };
    let typed = crate::domain_create::selfless_strings_of(&sig.inputs);
    let ghost (a, b) = (strs(params@), strs(typed@));
    let mut typed = typed;
    assert(a =~= Seq::new(comps@.len(), |i: int| component_param_str(comps@[i])->0));
    params.append(&mut typed);
    assert(strs(params@) =~= a + b);
    let args = join_strings(&params, ", ");
    assert(strs(inits@) =~= Seq::new(comps@.len(), |i: int| component_init_str(comps@[i])));
    let inits = join_strings(&inits, " ");
    let idents_v = idents_of(&sig.inputs);
    let idents = join_strings(&idents_v, ", ");
    let mut out = String::new();
    out.append("#![no_std] #![no_main] extern crate alloc; use alloc::boxed::Box; use console::println; use ");
    out.append(name.as_str());
    out.append("; #[no_mangle] pub fn trusted_entry(");
    out.append(args.as_str());
    out.append(") -> ");
    out.append(ret.as_str());
    out.append(" { ");
    out.append(inits.as_str());
    out.append(" ");
    out.append(name.as_str());
    out.append("::main(");
    out.append(idents.as_str());
    out.append(") }");
    Ok(out)
}

fn entry_return(output: &ReturnType) -> (r: Option<String>)
    ensures
        match r {
            Some(s) => entry_return_str(output@) == Some(s@),
            None => entry_return_str(output@) is None,
        },
{
    match output {
        ReturnType::Type(t) => match &**t {
            Type::Tuple(elems) => {
                if elems.len() <= 1 {
                    return None;
                }
                let ghost ev = crate::ty::view_types(elems@);
                let mut parts: Vec<String> = Vec::new();
                let mut i: usize = 1;
                while i < elems.len()
                    invariant
                        1 <= i <= elems@.len(),
                        ev == crate::ty::view_types(elems@),
                        parts@.len() == i - 1,
                        forall|j: int| 0 <= j < parts@.len() ==> #[trigger] parts@[j]@ == type_str(ev[j + 1]),
                    decreases elems@.len() - i,
                {
                    parts.push(type_to_string(&elems[i]));
                    i += 1;
                }
                assert(strs(parts@) =~= Seq::new((ev.len() - 1) as nat, |i: int| type_str(ev[i + 1])));
                let mut out = owned("Box<(");
                let inner = join_strings(&parts, ", ");
                out.append(inner.as_str());
                out.append(")>");
                Some(out)
            },
            _ => None,
        },
        ReturnType::Default => None,
    }
}

fn idents_of(args: &Vec<FnArg>) -> (r: Vec<String>)
    ensures
        strs(r@) == arg_idents(args@),
{
    let mut r: Vec<String> = Vec::new();
    let mut i: usize = 0;
    assert(strs(r@) =~= arg_idents(args@.subrange(0, 0)));
    while i < args.len()
        invariant
            i <= args@.len(),
            strs(r@) == arg_idents(args@.subrange(0, i as int)),
        decreases args@.len() - i,
    {
        let ghost cur = args@.subrange(0, i + 1);
        assert(cur.drop_last() =~= args@.subrange(0, i as int));
        assert(cur.last() == args@[i as int]);
        match &args[i] {
            FnArg::Typed(Pat::Ident(id), _) => {
                let ghost before = strs(r@);
                r.push(id.clone());
                assert(strs(r@) =~= before.push(id@));
            },
            _ => {},
        }
        i += 1;
    }
    assert(args@.subrange(0, i as int) =~= args@);
    r
}

} // verus!

verus! {

/// The entry point's return type leaves out the first element of the
/// method's returned tuple (the domain, which the kernel adds itself): it
/// does not change whatever that element is.
pub proof fn law_entry_return_ignores_the_domain(elems: Seq<SType>, other: SType)
    requires
        elems.len() >= 2,
    ensures
        entry_return_str(SReturnType::Type(Box::new(SType::Tuple(elems))))
            == entry_return_str(SReturnType::Type(Box::new(SType::Tuple(elems.update(0, other))))),
{
    let u = elems.update(0, other);
    let a = Seq::new((elems.len() - 1) as nat, |i: int| type_str(elems[i + 1]));
    let b = Seq::new((u.len() - 1) as nat, |i: int| type_str(u[i + 1]));
    assert(a =~= b);
}

/// For a method returning `(D, T)`, the entry point returns `Box<(T)>`.
pub proof fn law_entry_return_of_a_pair(d: SType, t: SType)
    ensures
        entry_return_str(SReturnType::Type(Box::new(SType::Tuple(seq![d, t]))))
            == Some("Box<("@ + type_str(t) + ")>"@),
{
    let parts = Seq::new(1, |i: int| type_str(seq![d, t][i + 1]));
    assert(parts =~= seq![type_str(t)]);
    assert(join(parts, ", "@) == type_str(t));
}

/// For a method returning `(D, T1, T2)`, the entry point returns
/// `Box<(T1, T2)>`: the elements after the domain, in order.
pub proof fn law_entry_return_of_a_triple(d: SType, t1: SType, t2: SType)
    ensures
        entry_return_str(SReturnType::Type(Box::new(SType::Tuple(seq![d, t1, t2]))))
            == Some("Box<("@ + type_str(t1) + ", "@ + type_str(t2) + ")>"@),
{
    let parts = Seq::new(2, |i: int| type_str(seq![d, t1, t2][i + 1]));
    assert(parts =~= seq![type_str(t1), type_str(t2)]);
    assert(parts.drop_last() =~= seq![type_str(t1)]);
    assert(join(parts.drop_last(), ", "@) == type_str(t1));
    assert(join(parts, ", "@) == type_str(t1) + ", "@ + type_str(t2));
}

/// The name of a domain never starts with `create_domain_` itself.
pub proof fn law_domain_name_is_trimmed(method: Seq<char>)
    requires
        entrypoint_domain_name(method) is Some,
    ensures
        !"create_domain_"@.is_prefix_of(entrypoint_domain_name(method)->0),
{
    lemma_trim(method);
}

proof fn lemma_trim(s: Seq<char>)
    ensures
        !"create_domain_"@.is_prefix_of(trim_create_domain(s)),
    decreases s.len(),
{
    reveal_strlit("create_domain_");
    if "create_domain_"@.is_prefix_of(s) {
        lemma_trim(s.subrange(14, s.len() as int));
    }
}

/// Joining an absolute path onto any folder gives that path.
pub proof fn law_join_absolute(base: Seq<char>, p: Seq<char>)
    requires
        p.len() > 0,
        p[0] == '/',
    ensures
        path_join(base, p) == p,
{
}

} // verus!
