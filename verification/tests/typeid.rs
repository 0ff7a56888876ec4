use redidl::ast::{
    Attribute, File, FnArg, Generics, Item, ItemMod, ItemStruct, ItemTrait, ItemUse, Meta, Pat,
    Signature, TraitItem, TraitItemMethod, UseTree, Visibility, Field, GenericParam,
};
use redidl::collect::{resolve_type_in_type, Gen};
use redidl::print::type_to_string;
use redidl::symbols::ResolveError;
use redidl::typeid::generate_typeid;
use redidl::ty::{GenericArgument, Path, PathArguments, PathSegment, ReturnType, Type, Expr, Lit};

fn seg(s: &str) -> PathSegment {
    PathSegment { ident: s.to_string(), arguments: PathArguments::Empty }
}

fn path(names: &[&str]) -> Path {
    Path { leading_colon: false, segments: names.iter().map(|n| seg(n)).collect() }
}

fn ty(names: &[&str]) -> Type {
    Type::Path(path(names))
}

fn generic(names: &[&str], args: Vec<Type>) -> Type {
    let mut p = path(names);
    let last = p.segments.len() - 1;
    p.segments[last].arguments =
        PathArguments::AngleBracketed(args.into_iter().map(GenericArgument::Type).collect());
    Type::Path(p)
}

fn unit() -> Type {
    Type::Tuple(vec![])
}

fn attr(name: &str) -> Attribute {
    Attribute { path: path(&[name]), meta: Some(Meta::Path(path(&[name]))) }
}

fn method(name: &str, args: Vec<(&str, Type)>, output: Option<Type>) -> TraitItem {
    let mut inputs = vec![FnArg::Receiver("&self".to_string())];
    for (n, t) in args {
        inputs.push(FnArg::Typed(Pat::Ident(n.to_string()), t));
    }
    TraitItem::Method(TraitItemMethod {
        attrs: vec![],
        sig: Signature {
            ident: name.to_string(),
            generics: Generics { params: vec![] },
            inputs,
            output: match output {
                Some(t) => ReturnType::Type(Box::new(t)),
                None => ReturnType::Default,
            },
        },
    })
}

fn interface_trait(name: &str, items: Vec<TraitItem>) -> Item {
    Item::Trait(ItemTrait {
        attrs: vec![attr("interface")],
        vis: Visibility::Public,
        ident: name.to_string(),
        generics: Generics { params: vec![] },
        supertraits: vec![],
        items,
    })
}

fn use_path(names: &[&str]) -> Item {
    let mut tree = UseTree::Name(names[names.len() - 1].to_string());
    for n in names[..names.len() - 1].iter().rev() {
        tree = UseTree::Path(n.to_string(), Box::new(tree));
    }
    Item::Use(ItemUse { attrs: vec![], vis: Visibility::Inherited, leading_colon: false, tree })
}

fn expected_module(types: &[&str]) -> String {
    let impls: Vec<String> = types
        .iter()
        .enumerate()
        .map(|(i, t)| {
            format!("impl TypeIdentifiable for {} {{ fn type_id() -> u64 {{ {}u64 }} }} ", t, i)
        })
        .collect();
    format!("pub trait TypeIdentifiable {{ fn type_id() -> u64; }} {}", impls.join(""))
}

fn assert_typeid_module(item: &Item, expected: &str) {
    match item {
        Item::Mod(m) => {
            assert_eq!(m.ident, "typeid");
            assert!(matches!(m.vis, Visibility::Public));
            let content = m.content.as_ref().expect("the typeid module has no content");
            assert_eq!(content.len(), 1);
            match &content[0] {
                Item::Verbatim(text) => assert_eq!(text, expected),
                _ => panic!("the typeid module holds no source text"),
            }
        },
        _ => panic!("the typeid module is missing"),
    }
}

fn expect_to_generate_typeid(items: Vec<Item>, types: Vec<&str>) {
    let n = items.len();
    let mut file = File { attrs: vec![], items };
    assert!(generate_typeid(&mut file).is_ok());
    assert_eq!(file.items.len(), n + 1);
    assert_typeid_module(&file.items[n], &expected_module(&types));
}

#[test]
fn simple_test() {
    let items = vec![interface_trait(
        "Foo",
        vec![method("bar", vec![("fd", ty(&["usize"]))], Some(unit()))],
    )];
    expect_to_generate_typeid(items, vec!["usize", "()"]);
}

#[test]
fn test_generic() {
    let items = vec![
        use_path(&["alloc", "vec", "Vec"]),
        use_path(&["asd", "X"]),
        interface_trait(
            "Foo",
            vec![method("bar", vec![("car", generic(&["Vec"], vec![ty(&["X"])]))], Some(unit()))],
        ),
    ];
    expect_to_generate_typeid(items, vec!["asd::X", "alloc::vec::Vec<asd::X>", "()"]);
}

fn pub_struct(name: &str, params: Vec<&str>, fields: Vec<(&str, Type)>) -> Item {
    Item::Struct(ItemStruct {
        attrs: vec![],
        vis: Visibility::Public,
        ident: name.to_string(),
        generics: Generics { params: params.into_iter().map(|p| GenericParam::Type(p.to_string(), vec![])).collect() },
        fields: fields
            .into_iter()
            .map(|(n, t)| Field { vis: Visibility::Public, ident: Some(n.to_string()), ty: t })
            .collect(),
    })
}

fn module(name: &str, public: bool, items: Vec<Item>) -> Item {
    Item::Mod(ItemMod {
        attrs: vec![],
        vis: if public { Visibility::Public } else { Visibility::Inherited },
        ident: name.to_string(),
        content: Some(items),
    })
}

#[test]
fn generic_struct_fields_are_collected() {
    let items = vec![
        pub_struct("RRef", vec!["T"], vec![("value", ty(&["T"])), ("pair", Type::Tuple(vec![ty(&["T"]), ty(&["u8"])]))]),
        interface_trait("Foo", vec![method("bar", vec![("x", generic(&["RRef"], vec![ty(&["u32"])]))], None)]),
    ];
    expect_to_generate_typeid(items, vec!["u32", "u8", "(u32, u8)", "crate::RRef<u32>"]);
}

#[test]
fn repeated_types_get_one_number() {
    let items = vec![interface_trait(
        "Foo",
        vec![
            method("a", vec![("x", ty(&["u8"])), ("y", ty(&["u8"]))], Some(ty(&["u8"]))),
            method("b", vec![], Some(ty(&["bool"]))),
        ],
    )];
    expect_to_generate_typeid(items, vec!["u8", "bool"]);
}

#[test]
fn nested_module_paths_resolve() {
    let items = vec![
        module("m", true, vec![pub_struct("S", vec![], vec![])]),
        interface_trait("Foo", vec![method("a", vec![("s", ty(&["crate", "m", "S"]))], None)]),
    ];
    expect_to_generate_typeid(items, vec!["crate::m::S"]);
}

#[test]
fn use_of_local_item_resolves_to_definition() {
    let items = vec![
        module("m", true, vec![pub_struct("S", vec![], vec![])]),
        use_path(&["crate", "m", "S"]),
        interface_trait("Foo", vec![method("a", vec![("s", ty(&["S"]))], None)]),
    ];
    expect_to_generate_typeid(items, vec!["crate::m::S"]);
}

#[test]
fn array_with_literal_length() {
    let items = vec![interface_trait(
        "Foo",
        vec![method("a", vec![("s", Type::Array(Box::new(ty(&["u8"])), Expr::Lit(Lit::Int("4".to_string()))))], None)],
    )];
    expect_to_generate_typeid(items, vec!["u8", "[u8; 4]"]);
}

#[test]
fn references_are_collected_without_the_reference() {
    let items = vec![interface_trait(
        "Foo",
        vec![method("a", vec![("s", Type::Reference(false, Box::new(ty(&["u8"]))))], None)],
    )];
    expect_to_generate_typeid(items, vec!["u8"]);
}

fn run(items: Vec<Item>) -> Result<(), ResolveError> {
    let mut file = File { attrs: vec![], items };
    generate_typeid(&mut file)
}

#[test]
fn private_module_is_refused() {
    let r = run(vec![module("m", false, vec![])]);
    assert!(matches!(r, Err(ResolveError::PrivateModule)));
}

#[test]
fn duplicate_names_are_refused() {
    let r = run(vec![pub_struct("S", vec![], vec![]), pub_struct("S", vec![], vec![])]);
    assert!(matches!(r, Err(ResolveError::DuplicateSymbol)));
}

#[test]
fn glob_import_is_refused() {
    let item = Item::Use(ItemUse {
        attrs: vec![],
        vis: Visibility::Inherited,
        leading_colon: false,
        tree: UseTree::Path("a".to_string(), Box::new(UseTree::Glob)),
    });
    assert!(matches!(run(vec![item]), Err(ResolveError::GlobImport)));
}

fn pub_use_rename(from: &str, to: &str) -> Item {
    Item::Use(ItemUse {
        attrs: vec![],
        vis: Visibility::Public,
        leading_colon: false,
        tree: UseTree::Path("crate".to_string(), Box::new(UseTree::Rename(from.to_string(), to.to_string()))),
    })
}

#[test]
fn circular_imports_are_refused() {
    let r = run(vec![pub_use_rename("B", "A"), pub_use_rename("A", "B")]);
    assert!(matches!(r, Err(ResolveError::UseCycle)));
}

#[test]
fn private_import_target_is_refused() {
    let items = vec![
        module("m", true, vec![Item::Struct(ItemStruct {
            attrs: vec![],
            vis: Visibility::Inherited,
            ident: "S".to_string(),
            generics: Generics { params: vec![] },
            fields: vec![],
        })]),
        use_path(&["crate", "m", "S"]),
    ];
    assert!(matches!(run(items), Err(ResolveError::PrivateSymbol)));
}

#[test]
fn missing_import_target_is_refused() {
    let r = run(vec![module("m", true, vec![]), use_path(&["crate", "m", "nothing"])]);
    assert!(matches!(r, Err(ResolveError::SymbolNotFound)));
}

#[test]
fn recursive_generic_struct_is_refused() {
    let items = vec![
        pub_struct("A", vec!["T"], vec![("a", generic(&["A"], vec![ty(&["T"])]))]),
        interface_trait("Foo", vec![method("m", vec![("x", generic(&["A"], vec![ty(&["u8"])]))], None)]),
    ];
    assert!(matches!(run(items), Err(ResolveError::RecursiveStruct)));
}

#[test]
fn unsupported_type_is_refused() {
    let items = vec![interface_trait("Foo", vec![method("m", vec![("x", Type::Never)], None)])];
    assert!(matches!(run(items), Err(ResolveError::Unsupported)));
}

#[test]
fn existing_typeid_module_is_replaced() {
    let items = vec![
        module("typeid", true, vec![]),
        interface_trait("Foo", vec![method("m", vec![("x", ty(&["u8"]))], None)]),
    ];
    let mut file = File { attrs: vec![], items };
    assert!(generate_typeid(&mut file).is_ok());
    assert_eq!(file.items.len(), 2);
    assert!(matches!(&file.items[0], Item::Trait(_)));
    assert_typeid_module(&file.items[1], &expected_module(&["u8"]));
}

#[test]
fn resolving_a_type_rewrites_it_in_place() {
    let root = vec![
        module("m", true, vec![pub_struct("S", vec![], vec![])]),
        use_path(&["crate", "m", "S"]),
    ];
    let mut t = Type::Tuple(vec![ty(&["S"]), ty(&["u8"])]);
    let r = resolve_type_in_type(&root, 1000, &vec![], None, &mut t, 1000);
    assert!(r.is_ok());
    assert_eq!(type_to_string(&t), "(crate::m::S, u8)");

    let gm = vec![("T".to_string(), Gen::Type(ty(&["u32"])))];
    let mut param = ty(&["T"]);
    match resolve_type_in_type(&root, 1000, &vec![], Some(&gm), &mut param, 1000) {
        Ok((Gen::Type(b), found)) => {
            assert_eq!(type_to_string(&b), "u32");
            assert!(found.is_empty());
        },
        _ => panic!("the parameter is bound"),
    }
    assert_eq!(type_to_string(&param), "T");

    let mut reference = Type::Reference(false, Box::new(ty(&["S"])));
    assert!(resolve_type_in_type(&root, 1000, &vec![], None, &mut reference, 1000).is_ok());
    match &reference {
        Type::Reference(false, inner) => assert_eq!(type_to_string(inner), "crate::m::S"),
        _ => panic!("a reference stays a reference"),
    }

    let mut never = Type::Never;
    assert!(matches!(
        resolve_type_in_type(&root, 1000, &vec![], None, &mut never, 1000),
        Err(ResolveError::Unsupported)
    ));
    assert!(matches!(never, Type::Never));
}
