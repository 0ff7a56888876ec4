use redidl::ast::{
    Attribute, File, FnArg, Generics, Item, ItemTrait, Meta, NestedMeta, Pat, Signature, TraitItem,
    TraitItemMethod, Visibility,
};
use redidl::domain_create::{DomainCreateBuilder, DomainCreateComponent};
use redidl::entrypoint::{DomainEntrypointFactory, EntrypointError};
use redidl::generate::generate_module;
use redidl::idl_types::_unwrap;
use redidl::macros::{redidl_generate_import_text, redidl_generate_proxy_text, resolve_module_attributes, MacroError};
use redidl::path_refactoring::refactor_path_in_ast;
use redidl::print::type_to_string;
use redidl::red_idl::RejectPass;
use redidl::ty::{Lit, Path, PathArguments, PathSegment, ReturnType, Type};

fn path(names: &[&str]) -> Path {
    Path {
        leading_colon: false,
        segments: names
            .iter()
            .map(|n| PathSegment { ident: n.to_string(), arguments: PathArguments::Empty })
            .collect(),
    }
}

fn name_value(name: &str, lit: Lit) -> Attribute {
    Attribute { path: path(&[name]), meta: Some(Meta::NameValue(path(&[name]), lit)) }
}

fn attr(name: &str) -> Attribute {
    Attribute { path: path(&[name]), meta: Some(Meta::Path(path(&[name]))) }
}

fn sig(name: &str, output: ReturnType) -> Signature {
    Signature {
        ident: name.to_string(),
        generics: Generics { params: vec![] },
        inputs: vec![FnArg::Receiver("&self".to_string()), FnArg::Typed(Pat::Ident("x".to_string()), Type::Path(path(&["u8"])))],
        output,
    }
}

fn trait_of(name: &str, attrs: Vec<Attribute>, items: Vec<TraitItem>) -> ItemTrait {
    ItemTrait {
        attrs,
        vis: Visibility::Public,
        ident: name.to_string(),
        generics: Generics { params: vec![] },
        supertraits: vec![],
        items,
    }
}

#[test]
fn import_macro_text() {
    let attrs = vec![name_value("module_path", Lit::Str("dom::bdev".to_string()))];
    match redidl_generate_import_text(&attrs, &"BDev".to_string()) {
        Ok(t) => assert_eq!(t, "use ::usr::bdev::BDev;"),
        Err(_) => panic!("no import generated"),
    }
    assert!(matches!(redidl_generate_import_text(&vec![], &"BDev".to_string()), Err(MacroError::ModulePathNotFound)));
}

#[test]
fn proxy_macro_text() {
    let tr = trait_of(
        "Foo",
        vec![name_value("module_path", Lit::Str("c::m".to_string()))],
        vec![TraitItem::Method(TraitItemMethod { attrs: vec![], sig: sig("bar", ReturnType::Default) })],
    );
    let text = match redidl_generate_proxy_text(&tr) {
        Ok(t) => t,
        Err(_) => panic!("no proxy generated"),
    };
    assert!(text.starts_with("use ::usr::m::Foo; pub struct FooProxy { domain: ::alloc::boxed::Box<dyn Foo>, domain_id: u64, }"));
    assert!(text.ends_with(" } ::codegen_lib::generate_trampoline!(generated_proxy_domain_foo: &alloc::boxed::Box<dyn Foo>, bar(x: u8));"));
    assert!(matches!(redidl_generate_proxy_text(&trait_of("Foo", vec![], vec![])), Err(MacroError::ModulePathNotFound)));
    assert_eq!(
        resolve_module_attributes(),
        vec!["#[redidl_codegen_generate_proxy_placeholder_]", "#[module_path = module_path!()]"]
    );
}

#[test]
fn refactoring_a_whole_file_rewrites_traits() {
    let crate_path = Type::Path(path(&["crate", "rref", "RRef"]));
    let mut ast = File {
        attrs: vec![],
        items: vec![Item::Trait(trait_of(
            "T",
            vec![],
            vec![TraitItem::Method(TraitItemMethod { attrs: vec![], sig: sig("m", ReturnType::Type(Box::new(crate_path))) })],
        ))],
    };
    refactor_path_in_ast(&"crate".to_string(), &"interface".to_string(), &mut ast);
    match &ast.items[0] {
        Item::Trait(t) => match &t.items[0] {
            TraitItem::Method(m) => match &m.sig.output {
                ReturnType::Type(t) => assert_eq!(type_to_string(t), "interface::rref::RRef"),
                _ => panic!("the return type is gone"),
            },
            _ => panic!("the method is gone"),
        },
        _ => panic!("the trait is gone"),
    }
}

#[test]
fn relative_domain_paths_need_a_domains_folder() {
    let entries = vec![("relative_path".to_string(), Some(Lit::Str("usr/bdev".to_string())))];
    assert!(DomainCreateBuilder::new().get_relative_domain_path(&entries).is_none());
    let b = DomainCreateBuilder::new_with_domains_folder(DomainEntrypointFactory::new("../domains".to_string()));
    assert_eq!(b.get_relative_domain_path(&entries), Some("../domains/usr/bdev".to_string()));
    let not_string = vec![("relative_path".to_string(), Some(Lit::Int("3".to_string())))];
    assert!(b.get_relative_domain_path(&not_string).is_none());
    assert!(b.get_relative_domain_path(&vec![]).is_none());
}

#[test]
fn entrypoint_crates_for_domain_creating_methods() {
    let f = DomainEntrypointFactory::new("../domains".to_string());
    let pair = || Type::Tuple(vec![Type::Path(path(&["Box"])), Type::Path(path(&["u8"]))]);
    let creating = sig("create_domain_bdev", ReturnType::Type(Box::new(pair())));
    let comps = vec![DomainCreateComponent::Domain, DomainCreateComponent::Heap];
    match f.generate_domain_entrypoint_crates(&"../../../../domains/usr/bdev".to_string(), &comps, &creating) {
        Ok(Some((name, cargo, main))) => {
            assert_eq!(name, "bdev");
            assert!(cargo.contains("bdev = { path = \"../../usr/bdev\" }"));
            assert!(main.contains("bdev::main("));
        },
        _ => panic!("no entry point generated"),
    }
    let plain = sig("new_bdev", ReturnType::Type(Box::new(pair())));
    assert!(matches!(f.generate_domain_entrypoint_crates(&"x".to_string(), &comps, &plain), Ok(None)));
    assert!(matches!(
        f.generate_domain_entrypoint_crates(&"x".to_string(), &comps, &creating),
        Err(EntrypointError::NotUnderDomains)
    ));
    let mmap = vec![DomainCreateComponent::MMap];
    assert!(matches!(
        f.generate_domain_entrypoint_crates(&"../../../../domains/usr/bdev".to_string(), &mmap, &creating),
        Err(EntrypointError::MMapComponent)
    ));
}

#[test]
fn processing_a_module_collects_proxies() {
    let mut items = vec![Item::Trait(trait_of("Foo", vec![attr("interface")], vec![]))];
    let mut builder = DomainCreateBuilder::new();
    let dcs = match generate_module(&mut items, &mut builder, &vec!["interface".to_string()]) {
        Ok(d) => d,
        Err(_) => panic!("processing failed"),
    };
    assert!(dcs.is_empty());
    assert!(builder.domain_creates.is_empty());
    assert_eq!(items.len(), 2);
    assert!(matches!(&items[1], Item::Verbatim(t) if t.starts_with("#[doc = \"----------Foo Proxy generation begins")));
}

#[test]
fn small_helpers() {
    let x = 5u32;
    assert!(std::ptr::eq(_unwrap(&x), &x));
    let mut pass = RejectPass { is_legal: true };
    pass.visit_type(&Type::Path(path(&["u8"])));
    assert!(pass.is_legal);
    pass.visit_type(&Type::Reference(false, Box::new(Type::Path(path(&["u8"])))));
    assert!(!pass.is_legal);
    pass.visit_type(&Type::Path(path(&["u8"])));
    assert!(!pass.is_legal);
}

#[test]
fn marker_macro_texts() {
    let plain = path(&["Block"]);
    assert_eq!(
        redidl::macros::declare_safe_copy_text(&plain),
        "impl red_idl::SafeCopy for Block {} impl red_idl::RRefable for Block {}"
    );
    let generic = Path {
        leading_colon: false,
        segments: vec![PathSegment {
            ident: "Wrapper".to_string(),
            arguments: PathArguments::AngleBracketed(vec![redidl::ty::GenericArgument::Type(Type::Path(path(&["T"])))]),
        }],
    };
    assert_eq!(redidl::macros::declare_functional_text(&generic), "impl<T> red_idl::Functional for Wrapper<T> {}");
    assert_eq!(redidl::macros::declare_rrefable_text(&plain), "impl red_idl::RRefable for Block {}");
    assert_eq!(
        redidl::macros::require_impl_text(&Type::Path(path(&["Block"])), "Copy"),
        "red_idl::assert_impl_all!(Block: Copy);"
    );
    assert_eq!(
        redidl::macros::assign_id_impl(&"7".to_string(), &Type::Path(path(&["Block"]))),
        "impl crate::sys::TypeIdentifiable for Block { fn get_id() -> u64 { 7 } }"
    );
}

fn domain_create_attr(entries: &[(&str, &str)]) -> Attribute {
    Attribute {
        path: path(&["domain_create"]),
        meta: Some(Meta::List(
            path(&["domain_create"]),
            entries
                .iter()
                .map(|(k, v)| NestedMeta::Meta(Meta::NameValue(path(&[*k]), Lit::Str(v.to_string()))))
                .collect(),
        )),
    }
}

fn creating_method() -> TraitItem {
    let pair = Type::Tuple(vec![Type::Path(path(&["Box"])), Type::Path(path(&["u8"]))]);
    TraitItem::Method(TraitItemMethod { attrs: vec![], sig: sig("create_domain_bdev", ReturnType::Type(Box::new(pair))) })
}

#[test]
fn domain_creates_ask_for_entrypoint_crates() {
    let factory = DomainEntrypointFactory::new("../domains".to_string());
    let mut builder = DomainCreateBuilder::new_with_domains_folder(factory);
    let mut with_path = trait_of(
        "CreateBDev",
        vec![domain_create_attr(&[("path", "bdev"), ("relative_path", "usr/bdev")])],
        vec![creating_method()],
    );
    match builder.generate_domain_create(&mut with_path, &vec!["create".to_string()]) {
        Ok(Some(_)) => {},
        _ => panic!("the domain create was not generated"),
    }
    assert_eq!(builder.entrypoint_requests.len(), 1);
    assert_eq!(builder.entrypoint_requests[0].domain_path, "../domains/usr/bdev");
    assert_eq!(builder.entrypoint_requests[0].sigs.len(), 1);
    assert_eq!(builder.entrypoint_requests[0].components.len(), 2);

    let mut without_path = trait_of("CreateNet", vec![domain_create_attr(&[("path", "net")])], vec![creating_method()]);
    assert!(matches!(builder.generate_domain_create(&mut without_path, &vec!["create".to_string()]), Ok(Some(_))));
    assert_eq!(builder.entrypoint_requests.len(), 1);
    assert_eq!(builder.domain_creates.len(), 2);
    let mut not_a_create = trait_of("Plain", vec![attr("interface")], vec![]);
    assert!(matches!(builder.generate_domain_create(&mut not_a_create, &vec!["create".to_string()]), Ok(None)));
    assert_eq!(
        builder.get_domain_paths(),
        vec!["create::CreateBDev".to_string(), "create::CreateNet".to_string()]
    );

    let mut plain = DomainCreateBuilder::new();
    let mut again = trait_of(
        "CreateBDev",
        vec![domain_create_attr(&[("path", "bdev"), ("relative_path", "usr/bdev")])],
        vec![creating_method()],
    );
    assert!(matches!(plain.generate_domain_create(&mut again, &vec!["create".to_string()]), Ok(Some(_))));
    assert!(plain.entrypoint_requests.is_empty());
}
