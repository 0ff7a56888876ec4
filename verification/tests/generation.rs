use redidl::ast::{
    Attribute, File, Generics, Item, ItemMod, ItemTrait, ItemUse, Meta, NestedMeta, UseTree,
    Visibility,
};
use redidl::generate::{generate, remove_prelude_and_placeholder, GenerateError};
use redidl::inject::{inject_import_recursive, prepare_for_proxy_macros};
use redidl::ty::{Path, PathArguments, PathSegment};

fn path(names: &[&str]) -> Path {
    Path {
        leading_colon: false,
        segments: names
            .iter()
            .map(|n| PathSegment { ident: n.to_string(), arguments: PathArguments::Empty })
            .collect(),
    }
}

fn attr(name: &str) -> Attribute {
    Attribute { path: path(&[name]), meta: Some(Meta::Path(path(&[name]))) }
}

fn feature_attr(features: &[&str]) -> Attribute {
    Attribute {
        path: path(&["feature"]),
        meta: Some(Meta::List(
            path(&["feature"]),
            features.iter().map(|f| NestedMeta::Meta(Meta::Path(path(&[f])))).collect(),
        )),
    }
}

fn empty_trait(name: &str, attrs: Vec<Attribute>) -> Item {
    Item::Trait(ItemTrait {
        attrs,
        vis: Visibility::Public,
        ident: name.to_string(),
        generics: Generics { params: vec![] },
        supertraits: vec![],
        items: vec![],
    })
}

fn module(name: &str, content: Option<Vec<Item>>) -> Item {
    Item::Mod(ItemMod { attrs: vec![], vis: Visibility::Public, ident: name.to_string(), content })
}

fn use_item(attrs: Vec<Attribute>, names: &[&str]) -> Item {
    let mut tree = UseTree::Name(names[names.len() - 1].to_string());
    for n in names[..names.len() - 1].iter().rev() {
        tree = UseTree::Path(n.to_string(), Box::new(tree));
    }
    Item::Use(ItemUse { attrs, vis: Visibility::Inherited, leading_colon: false, tree })
}

fn verbatim(item: &Item) -> &str {
    match item {
        Item::Verbatim(s) => s,
        _ => panic!("not a source-text item"),
    }
}

fn content(item: &Item) -> &Vec<Item> {
    match item {
        Item::Mod(m) => m.content.as_ref().expect("module without body"),
        _ => panic!("not a module"),
    }
}

const PROXY_STRUCT: [&str; 5] = [
    "#[derive(Clone)] pub struct Proxy {  }",
    "unsafe impl Send for Proxy {}",
    "unsafe impl Sync for Proxy {}",
    "impl Proxy { pub fn new() -> Self { Self {  } } }",
    "impl proxy::Proxy for Proxy {  }",
];

#[test]
fn expansion_leftovers_are_removed() {
    let mut ast = File {
        attrs: vec![feature_attr(&["prelude_import"]), feature_attr(&["box_syntax"]), attr("allow")],
        items: vec![
            use_item(vec![attr("prelude_import")], &["core", "prelude", "v1"]),
            Item::ExternCrate(vec![attr("macro_use")], "compiler_builtins".to_string()),
            Item::ExternCrate(vec![attr("macro_use")], "core".to_string()),
            Item::ExternCrate(vec![], "interface_attribute_placeholder".to_string()),
            Item::ExternCrate(vec![], "alloc".to_string()),
            use_item(vec![], &["alloc", "boxed", "Box"]),
            module("proxy", Some(vec![])),
        ],
    };
    remove_prelude_and_placeholder(&mut ast);
    assert_eq!(ast.attrs.len(), 2);
    assert_eq!(ast.items.len(), 3);
    assert!(matches!(&ast.items[0], Item::ExternCrate(_, n) if n == "alloc"));
    assert!(matches!(&ast.items[1], Item::Use(_)));
    assert!(matches!(&ast.items[2], Item::Mod(m) if m.ident == "proxy"));
}

#[test]
fn generate_writes_proxies_and_proxy_struct() {
    let mut ast = File {
        attrs: vec![],
        items: vec![
            empty_trait("Foo", vec![attr("interface")]),
            empty_trait("Bar", vec![]),
            module("proxy", Some(vec![])),
        ],
    };
    let dcs = match generate(&mut ast) {
        Ok(d) => d,
        Err(_) => panic!("generation failed"),
    };
    // The only domain create item is the function that creates the init domain.
    assert_eq!(dcs.len(), 1);
    assert!(dcs[0].starts_with("pub fn create_domain_init() -> ::alloc::boxed::Box<dyn ::syscalls::Domain> {"));
    // Items: Foo, Bar, proxy, typeid, then Foo's proxy.
    assert_eq!(ast.items.len(), 5);
    match &ast.items[0] {
        Item::Trait(t) => {
            assert_eq!(t.attrs.len(), 1);
            assert_eq!(t.attrs[0].path.segments[0].ident, "doc");
        },
        _ => panic!("Foo is gone"),
    }
    match &ast.items[1] {
        Item::Trait(t) => assert!(t.attrs.is_empty()),
        _ => panic!("Bar is gone"),
    }
    let proxy_items = content(&ast.items[2]);
    assert_eq!(proxy_items.len(), PROXY_STRUCT.len());
    for (item, text) in proxy_items.iter().zip(PROXY_STRUCT.iter()) {
        assert_eq!(verbatim(item), *text);
    }
    assert!(matches!(&ast.items[3], Item::Mod(m) if m.ident == "typeid"));
    let expected = "#[doc = \"----------Foo Proxy generation begins-------------\"] \
        #[cfg(feature = \"proxy\")] pub struct FooProxy { domain: ::alloc::boxed::Box<dyn Foo>, domain_id: u64, } \
        #[cfg(feature = \"proxy\")] unsafe impl Sync for FooProxy {} \
        #[cfg(feature = \"proxy\")] unsafe impl Send for FooProxy {} \
        #[cfg(feature = \"proxy\")] impl FooProxy { pub fn new(domain_id: u64, domain: ::alloc::boxed::Box<dyn Foo>) -> Self { Self { domain, domain_id, } } } \
        #[cfg(feature = \"proxy\")] impl Foo for FooProxy {  } \
        #[doc = \"----------Foo Trampoline generation begins-------------\"] ";
    assert_eq!(verbatim(&ast.items[4]), expected);
}

#[test]
fn generate_puts_proxies_in_their_own_module() {
    let mut ast = File {
        attrs: vec![],
        items: vec![
            module("dom_a", Some(vec![empty_trait("A", vec![attr("interface")])])),
            module("proxy", Some(vec![])),
        ],
    };
    assert!(generate(&mut ast).is_ok());
    let inner = content(&ast.items[0]);
    assert_eq!(inner.len(), 2);
    assert!(verbatim(&inner[1]).starts_with("#[doc = \"----------A Proxy generation begins"));
}

#[test]
fn generate_needs_a_proxy_module() {
    let mut ast = File { attrs: vec![], items: vec![empty_trait("Foo", vec![attr("interface")])] };
    assert!(matches!(generate(&mut ast), Err(GenerateError::NoProxyModule)));

    let mut ast = File {
        attrs: vec![],
        items: vec![empty_trait("Foo", vec![]), module("proxy", None)],
    };
    assert!(matches!(generate(&mut ast), Err(GenerateError::ProxyModuleNotInline)));
}

fn use_tree_text(t: &UseTree) -> String {
    match t {
        UseTree::Path(a, rest) => format!("{}::{}", a, use_tree_text(rest)),
        UseTree::Name(n) => n.clone(),
        UseTree::Rename(a, b) => format!("{} as {}", a, b),
        UseTree::Glob => "*".to_string(),
        UseTree::Group(ts) => format!("{{{}}}", ts.iter().map(use_tree_text).collect::<Vec<_>>().join(", ")),
    }
}

fn use_text(item: &Item) -> String {
    match item {
        Item::Use(u) => use_tree_text(&u.tree),
        _ => panic!("not a use item"),
    }
}

#[test]
fn imports_are_injected_into_every_inline_module() {
    let mut ast = File {
        attrs: vec![feature_attr(&["prelude_import"])],
        items: vec![
            use_item(vec![attr("prelude_import")], &["core", "prelude", "v1"]),
            Item::ExternCrate(vec![], "core".to_string()),
            module("outer", Some(vec![module("inner", Some(vec![])), empty_trait("T", vec![])])),
            module("external", None),
        ],
    };
    prepare_for_proxy_macros(&mut ast);
    assert!(ast.attrs.is_empty());
    assert_eq!(ast.items.len(), 3);
    assert!(matches!(&ast.items[0], Item::ExternCrate(..)));
    let outer = content(&ast.items[1]);
    assert_eq!(outer.len(), 5);
    assert_eq!(use_text(&outer[0]), "codegen_proc::generate_proxy as interface");
    assert_eq!(use_text(&outer[1]), "unwind::trampoline");
    assert_eq!(
        use_text(&outer[2]),
        "libsyscalls::syscalls::{sys_get_current_domain_id, sys_update_current_domain_id, sys_discard_cont}"
    );
    let inner = content(&outer[3]);
    assert_eq!(inner.len(), 3);
    assert!(matches!(&outer[4], Item::Trait(_)));
    assert!(matches!(&ast.items[2], Item::Mod(m) if m.content.is_none()));

    let mut item = empty_trait("Plain", vec![]);
    inject_import_recursive(&mut item);
    assert!(matches!(&item, Item::Trait(t) if t.ident == "Plain"));
}
