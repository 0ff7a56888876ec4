use redidl::ast::{
    Field, File, FnArg, Generics, Item, ItemMod, ItemStruct, ItemTrait, Pat, Signature, TraitItem,
    TraitItemMethod, Visibility,
};
use redidl::red_idl::{collect_method_signatures, collect_types, signature_messages, PruningVisitor, RejectPass};
use redidl::reject::{reject_file, type_messages};
use redidl::ty::{GenericArgument, Path, PathArguments, PathSegment, ReturnType, Type};

fn ty(name: &str) -> Type {
    Type::Path(Path {
        leading_colon: false,
        segments: vec![PathSegment { ident: name.to_string(), arguments: PathArguments::Empty }],
    })
}

fn boxed(inner: Type) -> Type {
    Type::Path(Path {
        leading_colon: false,
        segments: vec![PathSegment {
            ident: "Box".to_string(),
            arguments: PathArguments::AngleBracketed(vec![GenericArgument::Type(inner)]),
        }],
    })
}

fn method(name: &str, arg: Type, output: Type) -> TraitItem {
    TraitItem::Method(TraitItemMethod {
        attrs: vec![],
        sig: Signature {
            ident: name.to_string(),
            generics: Generics { params: vec![] },
            inputs: vec![FnArg::Receiver("&self".to_string()), FnArg::Typed(Pat::Ident("a".to_string()), arg)],
            output: ReturnType::Type(Box::new(output)),
        },
    })
}

fn trait_item(name: &str, items: Vec<TraitItem>) -> Item {
    Item::Trait(ItemTrait {
        attrs: vec![],
        vis: Visibility::Public,
        ident: name.to_string(),
        generics: Generics { params: vec![] },
        supertraits: vec![],
        items,
    })
}

fn strukt(name: &str, fields: Vec<Type>) -> Item {
    Item::Struct(ItemStruct {
        attrs: vec![],
        vis: Visibility::Public,
        ident: name.to_string(),
        generics: Generics { params: vec![] },
        fields: fields.into_iter().map(|t| Field { vis: Visibility::Public, ident: None, ty: t }).collect(),
    })
}

#[test]
fn type_diagnostics_outermost_first() {
    let t = Type::Reference(false, Box::new(boxed(Type::Ptr(true, Box::new(Type::BareFn("fn()".to_string()))))));
    let mut out = Vec::new();
    type_messages(&mut out, &t);
    assert_eq!(
        out,
        vec![
            "IDL does not allow ref types",
            "IDL does not allow pointer types",
            "IDL does not allow bare function types",
        ]
    );
    let mut none = Vec::new();
    type_messages(&mut none, &Type::Tuple(vec![ty("u8"), boxed(ty("u32"))]));
    assert!(none.is_empty());
}

#[test]
fn reject_pass_walks_the_file_in_order() {
    let file = File {
        attrs: vec![],
        items: vec![
            strukt("S", vec![ty("u8"), Type::Ptr(false, Box::new(ty("u8")))]),
            trait_item("T", vec![method("m", Type::Reference(true, Box::new(ty("u8"))), Type::BareFn("fn()".to_string()))]),
            Item::Mod(ItemMod {
                attrs: vec![],
                vis: Visibility::Public,
                ident: "inner".to_string(),
                content: Some(vec![strukt("Inner", vec![boxed(Type::BareFn("fn(u8)".to_string()))])]),
            }),
        ],
    };
    let mut pass = RejectPass { is_legal: true };
    let msgs = pass.visit_file(&file);
    assert_eq!(
        msgs,
        vec![
            "IDL does not allow pointer types",
            "IDL does not allow ref types",
            "IDL does not allow bare function types",
            "IDL does not allow bare function types",
        ]
    );
    assert!(!pass.is_legal);

    let clean = File { attrs: vec![], items: vec![strukt("S", vec![ty("u8")])] };
    let (legal, msgs) = reject_file(&clean);
    assert!(legal);
    assert!(msgs.is_empty());
}

#[test]
fn collecting_types_and_signatures() {
    let file = File {
        attrs: vec![],
        items: vec![
            trait_item("A", vec![method("x", ty("u8"), ty("u8")), method("y", ty("u8"), ty("u8"))]),
            trait_item("B", vec![]),
            strukt("S", vec![]),
            Item::Mod(ItemMod {
                attrs: vec![],
                vis: Visibility::Public,
                ident: "m".to_string(),
                content: Some(vec![trait_item("C", vec![])]),
            }),
            Item::Type(vec![], Visibility::Public, "Alias".to_string(), Generics { params: vec![] }, ty("u8")),
        ],
    };
    let (types, msgs) = collect_types(&file);
    assert_eq!(types.traits.len(), 2);
    assert_eq!(types.traits[0].ident, "A");
    assert_eq!(types.traits[1].ident, "B");
    assert_eq!(types.structs.len(), 1);
    assert_eq!(
        msgs,
        vec!["IDL requires all types to be defined at global scope", "Typedefs are currently unsupported"]
    );
    assert_eq!(signature_messages(&types.traits), vec!["2 methods recorded", "No methods recorded"]);
    let sigs = collect_method_signatures(&types.traits);
    assert_eq!(sigs.signatures.len(), 2);
    assert_eq!(sigs.ranges, vec![(0, 2)]);
}

fn named_field(name: &str, t: Type) -> Field {
    Field { vis: Visibility::Public, ident: Some(name.to_string()), ty: t }
}

#[test]
fn pruning_pass_names_the_enclosing_scopes() {
    let bare = || Type::BareFn("fn()".to_string());
    let file = File {
        attrs: vec![],
        items: vec![
            Item::Struct(ItemStruct {
                attrs: vec![],
                vis: Visibility::Public,
                ident: "S".to_string(),
                generics: Generics { params: vec![] },
                fields: vec![
                    named_field("a", bare()),
                    named_field("b", boxed(bare())),
                    Field { vis: Visibility::Public, ident: None, ty: ty("u8") },
                    Field { vis: Visibility::Public, ident: None, ty: Type::Tuple(vec![bare(), bare()]) },
                ],
            }),
            trait_item("T", vec![method("m", bare(), ty("u8"))]),
            Item::Const(vec![], Visibility::Public, "C".to_string(), bare()),
            Item::Static(Visibility::Public, "G".to_string(), bare()),
        ],
    };
    let mut v = PruningVisitor::new();
    let msgs = v.visit_file(&file);
    let prefix = "\u{1b}[31merror:\u{1b}[0m Bare function types are not permitted (";
    let expected: Vec<String> = [
        "struct S, field a",
        "struct S, field b",
        "struct S, <unnamed field>",
        "struct S, <unnamed field>",
        "trait T, fn m",
        "const C",
        "<global scope>",
    ]
    .iter()
    .map(|c| format!("{}{})", prefix, c))
    .collect();
    assert_eq!(msgs, expected);
    assert!(v.context.is_empty());
}
