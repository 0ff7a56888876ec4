use redidl::ast::{
    Attribute, File, ForeignItem, GenericParam, Generics, ImplItem, Item, ItemMod, ItemStruct,
    ItemTrait, Meta, Signature, TraitItem, TraitItemMethod, Visibility,
};
use redidl::preverify::{check_reserved_words, prune_idl_attributes, ReservedWordsError};
use redidl::sanity::{is_reserved, sanity_check_module, sanity_messages};
use redidl::ty::{Path, PathArguments, PathSegment, ReturnType, Type, TypeParamBound};

fn path(names: &[&str]) -> Path {
    Path {
        leading_colon: false,
        segments: names
            .iter()
            .map(|n| PathSegment { ident: n.to_string(), arguments: PathArguments::Empty })
            .collect(),
    }
}

fn attr(name: &str) -> Attribute {
    Attribute { path: path(&[name]), meta: Some(Meta::Path(path(&[name]))) }
}

fn no_generics() -> Generics {
    Generics { params: vec![] }
}

fn type_params(names: &[&str]) -> Generics {
    Generics { params: names.iter().map(|n| GenericParam::Type(n.to_string(), vec![])).collect() }
}

fn strukt(name: &str, attrs: Vec<Attribute>, generics: Generics) -> Item {
    Item::Struct(ItemStruct {
        attrs,
        vis: Visibility::Public,
        ident: name.to_string(),
        generics,
        fields: vec![],
    })
}

fn trait_item(name: &str, attrs: Vec<Attribute>, items: Vec<TraitItem>) -> Item {
    Item::Trait(ItemTrait {
        attrs,
        vis: Visibility::Public,
        ident: name.to_string(),
        generics: no_generics(),
        supertraits: vec![],
        items,
    })
}

fn module(name: &str, items: Vec<Item>) -> Item {
    Item::Mod(ItemMod {
        attrs: vec![],
        vis: Visibility::Public,
        ident: name.to_string(),
        content: Some(items),
    })
}

fn sig(name: &str, generics: Generics) -> Signature {
    Signature { ident: name.to_string(), generics, inputs: vec![], output: ReturnType::Default }
}

fn file(items: Vec<Item>) -> File {
    File { attrs: vec![], items }
}

#[test]
fn names_starting_with_rref_are_reserved() {
    for name in ["RRef", "RRefArray", "RRefDequeue", "RRefDeque", "RRefFoo", "Option"] {
        assert!(is_reserved(&name.to_string()));
    }
    for name in ["rref", "RRe", "MyRRef", "Foo", "Opt", "Options"] {
        assert!(!is_reserved(&name.to_string()));
    }
}

#[test]
fn clean_module_passes_sanity_check() {
    let f = file(vec![
        strukt("Block", vec![], type_params(&["T"])),
        trait_item("BDev", vec![], vec![]),
    ]);
    assert!(sanity_messages(&f).is_empty());
    assert!(sanity_check_module(&f));
}

#[test]
fn sanity_check_reports_in_walk_order() {
    let f = file(vec![
        strukt("RRef", vec![], type_params(&["Option", "T"])),
        trait_item(
            "Option",
            vec![],
            vec![
                TraitItem::Type("RRefArray".to_string(), no_generics()),
                TraitItem::Method(TraitItemMethod {
                    attrs: vec![],
                    sig: sig("get", type_params(&["RRefDequeue"])),
                }),
            ],
        ),
        Item::Type(vec![], Visibility::Public, "RRef".to_string(), no_generics(), Type::Never),
        Item::Impl(no_generics(), vec![ImplItem::Type("Option".to_string(), no_generics())]),
        Item::ForeignMod(vec![ForeignItem::Type("RRefArray".to_string())]),
        module("inner", vec![strukt("RRefDequeue", vec![], no_generics())]),
    ]);
    let msgs = sanity_messages(&f);
    assert_eq!(
        msgs,
        vec![
            "Cannot define struct as RRef",
            "Cannot type parameter as Option",
            "Cannot define trait as Option",
            "Cannot define trait-associated type as RRefArray",
            "Cannot type parameter as RRefDequeue",
            "Cannot define type alias as RRef",
            "Cannot define impl-associated type as Option",
            "Cannot define foreign type as RRefArray",
            "Cannot define struct as RRefDequeue",
        ]
    );
    assert!(!sanity_check_module(&f));
}

#[test]
fn pruning_removes_marker_attributes_in_nested_modules() {
    let mut f = file(vec![
        trait_item("BDev", vec![attr("interface"), attr("domain_create")], vec![]),
        strukt("Block", vec![attr("shared"), attr("interface")], no_generics()),
        module("inner", vec![strukt("Inner", vec![attr("shared")], no_generics())]),
    ]);
    prune_idl_attributes(&mut f);
    match &f.items[0] {
        Item::Trait(t) => {
            assert_eq!(t.attrs.len(), 1);
            assert_eq!(t.attrs[0].path.segments[0].ident, "domain_create");
        },
        _ => panic!("the trait is gone"),
    }
    match &f.items[1] {
        Item::Struct(s) => {
            assert_eq!(s.attrs.len(), 1);
            assert_eq!(s.attrs[0].path.segments[0].ident, "interface");
        },
        _ => panic!("the struct is gone"),
    }
    match &f.items[2] {
        Item::Mod(m) => match &m.content.as_ref().unwrap()[0] {
            Item::Struct(s) => assert!(s.attrs.is_empty()),
            _ => panic!("the nested struct is gone"),
        },
        _ => panic!("the module is gone"),
    }
}

#[test]
fn reserved_words_pass_accepts_plain_idl() {
    let f = file(vec![
        strukt("Block", vec![], no_generics()),
        trait_item("BDev", vec![], vec![]),
        module("sys", vec![strukt("RRef", vec![], no_generics())]),
    ]);
    assert!(check_reserved_words(&f).is_ok());
}

fn reserved_words_error(items: Vec<Item>) -> ReservedWordsError {
    match check_reserved_words(&file(items)) {
        Err(e) => e,
        Ok(()) => panic!("the file was accepted"),
    }
}

#[test]
fn reserved_words_pass_reports_each_offence() {
    let e = reserved_words_error(vec![Item::ForeignMod(vec![])]);
    assert!(matches!(e, ReservedWordsError::ForeignModule));
    assert_eq!(e.message(), "Foreign modules are not permitted");

    let e = reserved_words_error(vec![trait_item(
        "BDev",
        vec![],
        vec![TraitItem::Type("Item".to_string(), no_generics())],
    )]);
    assert!(matches!(e, ReservedWordsError::TraitAssociatedType));
    assert_eq!(e.message(), "Trait associated types are not permitted");

    let e = reserved_words_error(vec![Item::Impl(
        no_generics(),
        vec![ImplItem::Type("Item".to_string(), no_generics())],
    )]);
    assert!(matches!(e, ReservedWordsError::ImplAssociatedType));
    assert_eq!(e.message(), "Impl associated types are not permitted");

    let e = reserved_words_error(vec![Item::Type(
        vec![],
        Visibility::Public,
        "Alias".to_string(),
        no_generics(),
        Type::Never,
    )]);
    assert!(matches!(e, ReservedWordsError::TypeAlias));
    assert_eq!(e.message(), "Type aliases are not supported");

    let e = reserved_words_error(vec![module("inner", vec![strukt("RRefArray", vec![], no_generics())])]);
    assert!(matches!(e, ReservedWordsError::ReservedStruct));
    assert_eq!(e.message(), "Struct declared with reserved name");

    let e = reserved_words_error(vec![trait_item("Option", vec![], vec![])]);
    assert!(matches!(e, ReservedWordsError::ReservedTrait));
    assert_eq!(e.message(), "Trait declared with reserved name");
}

#[test]
fn reserved_words_pass_reports_the_first_offence() {
    let e = reserved_words_error(vec![
        strukt("Block", vec![], no_generics()),
        trait_item("RRef", vec![], vec![]),
        Item::ForeignMod(vec![]),
    ]);
    assert!(matches!(e, ReservedWordsError::ReservedTrait));
}

#[test]
fn trait_with_super_traits_fails_sanity_check() {
    let with_super = Item::Trait(ItemTrait {
        attrs: vec![],
        vis: Visibility::Public,
        ident: "A".to_string(),
        generics: no_generics(),
        supertraits: vec![TypeParamBound::Trait(path(&["B"]))],
        items: vec![TraitItem::Method(TraitItemMethod { attrs: vec![], sig: sig("f", no_generics()) })],
    });
    let ast = file(vec![with_super]);
    assert!(!sanity_check_module(&ast));
    assert_eq!(sanity_messages(&ast), vec!["Cannot define super traits for trait A".to_string()]);
    assert!(sanity_check_module(&file(vec![trait_item("A", vec![], vec![])])));
}
