use redidl::ast::{
    Attribute, File, FnArg, Generics, Item, ItemStruct, ItemTrait, Meta, NestedMeta, Pat,
    Signature, TraitItem, TraitItemMethod, Visibility,
};
use redidl::attrs::{attribute_entries, find_entry, has_attribute, remove_attribute, AttributeError};
use redidl::entrypoint::{domain_name_of, entrypoint_cargo_text, join_path, DomainEntrypointFactory, EntrypointError};
use redidl::flat_map::FlatMap;
use redidl::macros::{
    ensure_proxy, find_module_path, generate_import_path_segs, proxy_marker_impl, split_on_colons,
    MacroError,
};
use redidl::domain_create::DomainCreateRecord;
use redidl::proxy::{generate_interface_proxy, ProxyBuilder, ProxyError};
use redidl::red_idl::{_reject_types, walk_file, NullPass, PruningVisitor, TypeHeap};
use redidl::ty::{GenericArgument, Lit, Path, PathArguments, PathSegment, ReturnType, Type, TypeParamBound};

fn path(names: &[&str]) -> Path {
    Path {
        leading_colon: false,
        segments: names
            .iter()
            .map(|n| PathSegment { ident: n.to_string(), arguments: PathArguments::Empty })
            .collect(),
    }
}

fn attr(name: &str) -> Attribute {
    Attribute { path: path(&[name]), meta: Some(Meta::Path(path(&[name]))) }
}

fn name_value(name: &str, lit: Lit) -> Attribute {
    Attribute { path: path(&[name]), meta: Some(Meta::NameValue(path(&[name]), lit)) }
}

fn ty(name: &str) -> Type {
    Type::Path(path(&[name]))
}

fn trait_with(name: &str, attrs: Vec<Attribute>, items: Vec<TraitItem>) -> ItemTrait {
    ItemTrait {
        attrs,
        vis: Visibility::Public,
        ident: name.to_string(),
        generics: Generics { params: vec![] },
        supertraits: vec![],
        items,
    }
}

fn method(name: &str) -> TraitItem {
    TraitItem::Method(TraitItemMethod {
        attrs: vec![],
        sig: Signature {
            ident: name.to_string(),
            generics: Generics { params: vec![] },
            inputs: vec![FnArg::Receiver("&self".to_string()), FnArg::Typed(Pat::Ident("x".to_string()), ty("u32"))],
            output: ReturnType::Type(Box::new(ty("u64"))),
        },
    })
}

#[test]
fn flat_map_keeps_first_insertion() {
    let mut m: FlatMap<u32, &str> = FlatMap::new();
    assert!(m.insert(1, "one"));
    assert!(m.insert(2, "two"));
    assert!(!m.insert(1, "uno"));
    assert_eq!(m.get(1), Some(&"one"));
    assert_eq!(m.get(2), Some(&"two"));
    assert_eq!(m.get(3), None);
    if let Some(v) = m.get_mut(2) {
        *v = "dos";
    }
    assert_eq!(m.get(2), Some(&"dos"));
    assert!(m.get_mut(7).is_none());
}

#[test]
fn flat_map_write_through_get_mut_touches_one_key() {
    let mut m: FlatMap<u32, u32> = FlatMap::new();
    assert!(m.insert(10, 100));
    assert!(m.insert(20, 200));
    assert!(m.insert(30, 300));
    *m.get_mut(20).expect("present") = 7;
    assert_eq!(m.get(20), Some(&7));
    assert_eq!(m.get(10), Some(&100));
    assert_eq!(m.get(30), Some(&300));
    assert!(!m.insert(20, 8));
    assert_eq!(m.get(20), Some(&7));
}

#[test]
fn attribute_tests_and_removal() {
    let mut attrs = vec![attr("interface"), attr("shared"), attr("interface")];
    assert!(has_attribute(&attrs, "shared"));
    assert!(!has_attribute(&attrs, "domain_create"));
    remove_attribute(&mut attrs, "interface");
    assert_eq!(attrs.len(), 1);
    assert_eq!(attrs[0].path.segments[0].ident, "shared");
}

#[test]
fn attribute_entries_read_lists_and_values() {
    let attrs = vec![
        name_value("path", Lit::Str("domains/dom_a".to_string())),
        Attribute {
            path: path(&["domain_create_components"]),
            meta: Some(Meta::List(
                path(&["domain_create_components"]),
                vec![NestedMeta::Meta(Meta::Path(path(&["Domain"]))), NestedMeta::Lit(Lit::Str("x".to_string()))],
            )),
        },
    ];
    let entries = match attribute_entries(&attrs) {
        Ok(e) => e,
        Err(_) => panic!("the attributes were refused"),
    };
    let names: Vec<&str> = entries.iter().map(|(n, _)| n.as_str()).collect();
    assert_eq!(names, vec!["path", "Domain", "x"]);
    match find_entry(&entries, "path") {
        Some(Some(Lit::Str(s))) => assert_eq!(s, "domains/dom_a"),
        _ => panic!("no path entry"),
    }
    assert!(find_entry(&entries, "relative_path").is_none());

    let bad = vec![Attribute { path: path(&["doc"]), meta: None }];
    assert!(matches!(attribute_entries(&bad), Err(AttributeError::Unparsable)));
    let bad = vec![Attribute {
        path: path(&["x"]),
        meta: Some(Meta::List(path(&["x"]), vec![NestedMeta::Lit(Lit::Int("1".to_string()))])),
    }];
    assert!(matches!(attribute_entries(&bad), Err(AttributeError::NonStringLiteral)));
}

#[test]
fn entrypoint_paths_and_names() {
    assert_eq!(join_path(&"a/b".to_string(), &"c".to_string()), "a/b/c");
    assert_eq!(join_path(&"a/b/".to_string(), &"c".to_string()), "a/b/c");
    assert_eq!(join_path(&"a".to_string(), &"/abs".to_string()), "/abs");
    assert_eq!(join_path(&"".to_string(), &"c".to_string()), "c");
    assert_eq!(domain_name_of(&"create_domain_bdev".to_string()), Some("bdev".to_string()));
    assert_eq!(domain_name_of(&"create_domain_create_domain_x".to_string()), Some("x".to_string()));
    assert_eq!(domain_name_of(&"new_bdev".to_string()), None);

    let f = DomainEntrypointFactory::new("../domains".to_string());
    assert_eq!(f.output_folder_path, "../domains/generated");
    assert_eq!(f.as_relative_to_domains_folder(&"usr/bdev".to_string()), "../domains/usr/bdev");
}

#[test]
fn entrypoint_manifest_names_the_crate() {
    let text = entrypoint_cargo_text(&"bdev".to_string(), &"usr/bdev".to_string());
    assert!(text.contains("name = \"bdev_entry_point\""));
    assert!(text.contains("name = \"bdev\"\n"));
    assert!(text.contains("bdev = { path = \"../../usr/bdev\" }"));

    let f = DomainEntrypointFactory::new("../domains".to_string());
    match f.generate_entrypoint_cargo(&"../../../../domains/usr/bdev".to_string(), &"bdev".to_string()) {
        Ok(t) => assert_eq!(t, text),
        Err(_) => panic!("the manifest was refused"),
    }
    assert!(matches!(
        f.generate_entrypoint_cargo(&"elsewhere/bdev".to_string(), &"bdev".to_string()),
        Err(EntrypointError::NotUnderDomains)
    ));
}

#[test]
fn macro_paths_split_on_double_colons() {
    assert_eq!(split_on_colons(&"a::b::c".to_string()), vec!["a", "b", "c"]);
    assert_eq!(split_on_colons(&"a".to_string()), vec!["a"]);
    assert_eq!(split_on_colons(&"a:b::".to_string()), vec!["a:b", ""]);
    assert_eq!(
        generate_import_path_segs(&"my_crate::dom::bdev".to_string(), &"BDev".to_string()),
        vec!["usr", "dom", "bdev", "BDev"]
    );
    assert_eq!(generate_import_path_segs(&"my_crate".to_string(), &"T".to_string()), vec!["usr", "T"]);
}

#[test]
fn macro_module_path_attribute() {
    let attrs = vec![attr("interface"), name_value("module_path", Lit::Str("c::m".to_string()))];
    match find_module_path(&attrs) {
        Ok(p) => assert_eq!(p, "c::m"),
        Err(_) => panic!("no module path"),
    }
    assert!(matches!(find_module_path(&vec![attr("interface")]), Err(MacroError::ModulePathNotFound)));
    assert!(matches!(
        find_module_path(&vec![name_value("module_path", Lit::Int("3".to_string()))]),
        Err(MacroError::ModulePathNotString)
    ));
}

#[test]
fn proxy_attribute_checks_members() {
    let tr = trait_with(
        "Foo",
        vec![],
        vec![method("bar"), TraitItem::Type("Item".to_string(), Generics { params: vec![] }), TraitItem::Const("N".to_string(), ty("u32"))],
    );
    assert_eq!(
        ensure_proxy(&tr),
        vec!["traits marked #[proxy] may only contain methods", "traits marked #[proxy] may only contain methods"]
    );
    assert_eq!(proxy_marker_impl(&"Foo".to_string()), "impl idl_types::Proxy for dyn Foo {}");
}

#[test]
fn interface_proxy_names_the_lowercased_domain() {
    let mut tr = trait_with("BDev", vec![attr("interface")], vec![method("read")]);
    let text = generate_interface_proxy(&mut tr).expect("no proxy generated");
    assert!(text.contains("redidl_generated_domain_bdev: &alloc::boxed::Box<dyn BDev>"));
    assert!(text.contains("fn read(&self, x: u32) -> u64 {"));
    assert!(text.contains("BDev_read_tramp(&self.domain, x: u32)"));
    assert_eq!(tr.attrs.len(), 1);
    assert_eq!(tr.attrs[0].path.segments[0].ident, "doc");

    let mut plain = trait_with("Plain", vec![], vec![method("read")]);
    assert!(generate_interface_proxy(&mut plain).is_none());
    assert!(plain.attrs.is_empty());
}

#[test]
fn rejected_types() {
    assert!(_reject_types(&ty("u32")));
    assert!(!_reject_types(&Type::BareFn("fn()".to_string())));
    assert!(!_reject_types(&Type::Reference(false, Box::new(ty("u32")))));
    assert!(!_reject_types(&Type::Tuple(vec![ty("u8"), Type::Ptr(true, Box::new(ty("u8")))])));
    assert!(_reject_types(&Type::Array(Box::new(ty("u8")), redidl::ty::Expr::Other("4".to_string()))));
}

#[test]
fn type_heap_numbers_names_once() {
    let mut heap = TypeHeap::new();
    assert_eq!(heap.insert("u32".to_string()), 0);
    assert_eq!(heap.insert("Foo".to_string()), 1);
    assert_eq!(heap.insert("u32".to_string()), 0);
    assert_eq!(heap.dump(), vec!["Type u32", "Type Foo"]);
}

#[test]
fn pruning_context_lists_scopes() {
    let mut v = PruningVisitor::new();
    assert_eq!(v.get_context(), "<global scope>");
    v.context.push("trait Foo".to_string());
    v.context.push("fn bar".to_string());
    assert_eq!(v.get_context(), "trait Foo, fn bar");
}

#[test]
fn walking_a_file_logs_each_item() {
    let file = File {
        attrs: vec![],
        items: vec![
            Item::Trait(trait_with("T", vec![], vec![])),
            Item::Struct(ItemStruct {
                attrs: vec![],
                vis: Visibility::Public,
                ident: "S".to_string(),
                generics: Generics { params: vec![] },
                fields: vec![],
            }),
            Item::Verbatim("x".to_string()),
        ],
    };
    assert_eq!(
        walk_file(&file, &NullPass {}),
        vec!["Walked File", "Walked Item", "Walked ItemTrait", "Walked Item", "Walked ItemStruct", "Walked Item"]
    );
}

fn boxed_dyn(names: &[&str]) -> Type {
    Type::Path(Path {
        leading_colon: false,
        segments: vec![PathSegment {
            ident: "Box".to_string(),
            arguments: PathArguments::AngleBracketed(vec![GenericArgument::Type(Type::TraitObject(vec![
                TypeParamBound::Trait(path(names)),
            ]))]),
        }],
    })
}

fn create_returning(second: Type) -> DomainCreateRecord {
    DomainCreateRecord {
        segments: vec!["create".to_string(), "CreateFoo".to_string()],
        path: "create::CreateFoo".to_string(),
        sigs: vec![Signature {
            ident: "create_domain_foo".to_string(),
            generics: Generics { params: vec![] },
            inputs: vec![FnArg::Receiver("&self".to_string())],
            output: ReturnType::Type(Box::new(Type::Tuple(vec![boxed_dyn(&["syscalls", "Domain"]), second]))),
        }],
    }
}

#[test]
fn domain_create_proxy_wraps_a_boxed_trait_object() {
    let items = match ProxyBuilder::new(vec![create_returning(boxed_dyn(&["foo", "Foo"]))]).generate_proxy() {
        Ok(v) => v,
        Err(_) => panic!("a boxed trait object is a valid return type"),
    };
    assert_eq!(items.len(), 6);
    assert!(items[5].starts_with("impl create::CreateFoo for Proxy {"));
    assert!(items[5].contains("self.CreateFoo.create_domain_foo()"));
    assert!(items[5].contains("return (domain_, ::alloc::boxed::Box::new(foo::FooProxy::new(domain_id_, rtn_)));"));
}

#[test]
fn domain_create_proxy_returns_unit_as_is() {
    let items = match ProxyBuilder::new(vec![create_returning(Type::Tuple(vec![]))]).generate_proxy() {
        Ok(v) => v,
        Err(_) => panic!("() is a valid return type"),
    };
    assert_eq!(items.len(), 6);
    assert!(items[5].contains("return (domain_, rtn_);"));
}

#[test]
fn domain_create_proxy_refuses_other_returns() {
    let r = ProxyBuilder::new(vec![create_returning(ty("u32"))]).generate_proxy();
    assert!(matches!(r, Err(ProxyError::InvalidReturnType)));
}
