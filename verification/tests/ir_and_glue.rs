use redidl::ast::{
    Field, File, FnArg, GenericParam, Generics, Item, ItemMod, ItemStruct, ItemTrait, Pat,
    Signature, TraitItem, TraitItemMethod, Visibility,
};
use redidl::glue::{assign_id_lines, lib_rs_text, rref_like_check, RRefSyntaxError};
use redidl::ir::{produce_module, ModItem};
use redidl::print::type_to_string;
use redidl::ty::{Expr, GenericArgument, Lit, Path, PathArguments, PathSegment, ReturnType, Type, TypeParamBound};
use redidl::utils::{get_type_inside_of_box, idents_to_path, is_box_type, is_prviate, is_public};

fn seg(s: &str) -> PathSegment {
    PathSegment { ident: s.to_string(), arguments: PathArguments::Empty }
}

fn ty(name: &str) -> Type {
    Type::Path(Path { leading_colon: false, segments: vec![seg(name)] })
}

fn generic(name: &str, args: Vec<GenericArgument>) -> Type {
    Type::Path(Path {
        leading_colon: false,
        segments: vec![PathSegment { ident: name.to_string(), arguments: PathArguments::AngleBracketed(args) }],
    })
}

#[test]
fn visibility_tests() {
    assert!(is_prviate(&Visibility::Inherited));
    assert!(!is_public(&Visibility::Inherited));
    assert!(is_public(&Visibility::Public));
    assert!(is_public(&Visibility::Crate));
    assert!(!is_prviate(&Visibility::Restricted));
}

#[test]
fn paths_from_identifiers() {
    let p = idents_to_path(&vec!["crate".to_string(), "rref".to_string(), "RRef".to_string()]);
    assert!(!p.leading_colon);
    let names: Vec<&str> = p.segments.iter().map(|s| s.ident.as_str()).collect();
    assert_eq!(names, vec!["crate", "rref", "RRef"]);
    assert!(p.segments.iter().all(|s| matches!(s.arguments, PathArguments::Empty)));
}

#[test]
fn type_inside_a_box() {
    let boxed = generic("Box", vec![GenericArgument::Type(ty("u8"))]);
    assert_eq!(type_to_string(get_type_inside_of_box(&boxed)), "u8");
}

#[test]
fn only_a_box_is_a_box() {
    assert!(is_box_type(&generic("Box", vec![GenericArgument::Type(ty("u8"))])));
    assert!(!is_box_type(&generic("Vec", vec![GenericArgument::Type(ty("u8"))])));
    assert!(!is_box_type(&ty("Box")));
    assert!(!is_box_type(&generic("Box", vec![GenericArgument::Lifetime("a".to_string())])));
}

#[test]
fn glue_lib_lists_each_module() {
    assert_eq!(lib_rs_text(&vec![]), "mod sys;\n");
    assert_eq!(lib_rs_text(&vec!["bdev".to_string(), "net".to_string()]), "mod sys;\nmod bdev;\nmod net;\n");
}

#[test]
fn type_ids_continue_across_files() {
    let (first, next) = assign_id_lines(0, &vec!["u32".to_string(), "Foo < u8 >".to_string()]);
    assert_eq!(
        first,
        "\ncrate::sys::hidl_macros::assign_id!(0, u32);\ncrate::sys::hidl_macros::assign_id!(1, Foo < u8 >);\n"
    );
    assert_eq!(next, 2);
    let (second, next) = assign_id_lines(next, &vec!["Bar".to_string()]);
    assert_eq!(second, "\ncrate::sys::hidl_macros::assign_id!(2, Bar);\n");
    assert_eq!(next, 3);
    let (none, same) = assign_id_lines(7, &vec![]);
    assert_eq!(none, "\n");
    assert_eq!(same, 7);
}

fn type_path(t: &Type) -> &Path {
    match t {
        Type::Path(p) => p,
        _ => panic!("not a path"),
    }
}

#[test]
fn rref_like_paths() {
    let rref = generic("RRef", vec![GenericArgument::Type(ty("u32"))]);
    assert!(matches!(rref_like_check(type_path(&rref)), Ok(true)));
    let other = generic("Vec", vec![GenericArgument::Type(ty("u32"))]);
    assert!(matches!(rref_like_check(type_path(&other)), Ok(false)));
    assert!(matches!(rref_like_check(type_path(&ty("RRefArray"))), Err(RRefSyntaxError::NotAngleBracketed)));
    let empty = generic("RRefDequeue", vec![]);
    assert!(matches!(rref_like_check(type_path(&empty)), Err(RRefSyntaxError::NoArgument)));
    let life = generic("RRef", vec![GenericArgument::Lifetime("'a".to_string())]);
    assert!(matches!(rref_like_check(type_path(&life)), Err(RRefSyntaxError::NotATypeArgument)));
}

#[test]
fn module_ir_collects_traits_and_structs() {
    let method = TraitItemMethod {
        attrs: vec![],
        sig: Signature {
            ident: "read".to_string(),
            generics: Generics {
                params: vec![GenericParam::Type(
                    "T".to_string(),
                    vec![TypeParamBound::Trait(Path {
                        leading_colon: false,
                        segments: vec![PathSegment {
                            ident: "Into".to_string(),
                            arguments: PathArguments::AngleBracketed(vec![GenericArgument::Type(ty("u64"))]),
                        }],
                    })],
                )],
            },
            inputs: vec![
                FnArg::Receiver("&self".to_string()),
                FnArg::Typed(Pat::Ident("block".to_string()), ty("u32")),
            ],
            output: ReturnType::Type(Box::new(ty("Data"))),
        },
    };
    let tr = ItemTrait {
        attrs: vec![],
        vis: Visibility::Public,
        ident: "BDev".to_string(),
        generics: Generics { params: vec![] },
        supertraits: vec![],
        items: vec![TraitItem::Const("N".to_string(), ty("usize")), TraitItem::Method(method)],
    };
    let st = ItemStruct {
        attrs: vec![],
        vis: Visibility::Public,
        ident: "Data".to_string(),
        generics: Generics {
            params: vec![
                GenericParam::Type("T".to_string(), vec![TypeParamBound::Trait(Path { leading_colon: false, segments: vec![seg("Copy")] })]),
                GenericParam::Const("N".to_string(), ty("usize")),
            ],
        },
        fields: vec![
            Field { vis: Visibility::Public, ident: Some("a".to_string()), ty: ty("T") },
            Field { vis: Visibility::Public, ident: None, ty: Type::Array(Box::new(ty("u8")), Expr::Lit(Lit::Int("4".to_string()))) },
        ],
    };
    let file = File {
        attrs: vec![],
        items: vec![
            Item::Trait(tr),
            Item::Mod(ItemMod { attrs: vec![], vis: Visibility::Public, ident: "inner".to_string(), content: Some(vec![Item::Struct(st)]) }),
        ],
    };
    let m = produce_module("bdev", &file);
    assert_eq!(m.name, "bdev");
    assert!(m.submodules.is_empty());
    assert_eq!(m.items.len(), 2);
    match &m.items[0] {
        ModItem::DomainTrait(d) => {
            assert_eq!(d.name, "BDev");
            assert_eq!(d.methods.len(), 1);
            let names: Vec<String> = d.methods[0].raw_types.iter().map(|t| type_to_string(t)).collect();
            assert_eq!(names, vec!["u64", "u32", "Data"]);
            assert!(d.methods[0].lowered_types.is_empty());
            assert_eq!(d.methods[0].raw.sig.ident, "read");
        },
        _ => panic!("the trait comes first"),
    }
    match &m.items[1] {
        ModItem::StructDef(s) => {
            assert_eq!(s.name, "Data");
            assert_eq!(s.generic_names, vec!["T"]);
            let names: Vec<String> = s.raw_types.iter().map(|t| type_to_string(t)).collect();
            assert_eq!(names, vec!["usize", "T", "[u8; 4]"]);
        },
        _ => panic!("the struct comes second"),
    }
}
