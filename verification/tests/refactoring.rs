use redidl::ast::{FnArg, Generics, Signature, TraitItemMethod};
use redidl::path_refactoring::{
    refactor_path_in_path, refactor_path_in_trait_item_method, refactor_path_in_type,
};
use redidl::print::{path_to_string, sig_to_string, type_to_string};
use redidl::ty::{GenericArgument, Path, PathArguments, PathSegment, ReturnType, Type, TypeParamBound};

fn seg(s: &str) -> PathSegment {
    PathSegment { ident: s.to_string(), arguments: PathArguments::Empty }
}

fn path(names: &[&str]) -> Path {
    Path { leading_colon: false, segments: names.iter().map(|n| seg(n)).collect() }
}

fn generic_path(names: &[&str], args: Vec<Type>) -> Path {
    let mut p = path(names);
    let last = p.segments.len() - 1;
    p.segments[last].arguments =
        PathArguments::AngleBracketed(args.into_iter().map(GenericArgument::Type).collect());
    p
}

fn boxed_dyn(names: &[&str]) -> Type {
    Type::Path(generic_path(&["Box"], vec![Type::TraitObject(vec![TypeParamBound::Trait(path(names))])]))
}

fn names() -> (String, String) {
    ("crate".to_string(), "interface".to_string())
}

#[test]
fn test_refactor_path_in_path() {
    let (src, dest) = names();
    let mut ast = path(&["crate", "foo"]);
    refactor_path_in_path(&src, &dest, &mut ast);
    assert_eq!(path_to_string(&ast), path_to_string(&path(&["interface", "foo"])));
}

#[test]
fn test_refactor_path_in_path_with_generic() {
    let (src, dest) = names();
    let mut ast = generic_path(&["crate", "foo"], vec![Type::Path(path(&["crate", "bar"]))]);
    refactor_path_in_path(&src, &dest, &mut ast);
    let expected = generic_path(&["interface", "foo"], vec![Type::Path(path(&["interface", "bar"]))]);
    assert_eq!(path_to_string(&ast), path_to_string(&expected));
    assert_eq!(path_to_string(&ast), "interface::foo<interface::bar>");
}

fn create_domain_pci(pci: &[&str]) -> TraitItemMethod {
    TraitItemMethod {
        attrs: vec![],
        sig: Signature {
            ident: "create_domain_pci".to_string(),
            generics: Generics { params: vec![] },
            inputs: vec![FnArg::Receiver("&self".to_string())],
            output: ReturnType::Type(Box::new(Type::Tuple(vec![
                boxed_dyn(&["syscalls", "Domain"]),
                boxed_dyn(pci),
            ]))),
        },
    }
}

#[test]
fn test_refactor_path_in_trait_item_method() {
    let (src, dest) = names();
    let mut ast = create_domain_pci(&["crate", "pci", "PCI"]);
    refactor_path_in_trait_item_method(&src, &dest, &mut ast);
    let expected = create_domain_pci(&["interface", "pci", "PCI"]);
    assert_eq!(sig_to_string(&ast.sig), sig_to_string(&expected.sig));
    assert_eq!(
        sig_to_string(&ast.sig),
        "fn create_domain_pci(&self) -> (Box<dyn syscalls::Domain>, Box<dyn interface::pci::PCI>)"
    );
}

#[test]
fn test_refactor_path_in_tuple() {
    let (src, dest) = names();
    let mut ast = Type::Tuple(vec![boxed_dyn(&["syscalls", "Domain"]), boxed_dyn(&["crate", "pci", "PCI"])]);
    refactor_path_in_type(&src, &dest, &mut ast);
    let expected =
        Type::Tuple(vec![boxed_dyn(&["syscalls", "Domain"]), boxed_dyn(&["interface", "pci", "PCI"])]);
    assert_eq!(type_to_string(&ast), type_to_string(&expected));
}

#[test]
fn test_refactor_path_in_trait_object() {
    let (src, dest) = names();
    let mut ast = boxed_dyn(&["crate", "pci", "PCI"]);
    refactor_path_in_type(&src, &dest, &mut ast);
    assert_eq!(type_to_string(&ast), type_to_string(&boxed_dyn(&["interface", "pci", "PCI"])));
    assert_eq!(type_to_string(&ast), "Box<dyn interface::pci::PCI>");
}

#[test]
fn refactor_leaves_other_first_segments() {
    let (src, dest) = names();
    let mut ast = path(&["foo", "crate"]);
    refactor_path_in_path(&src, &dest, &mut ast);
    assert_eq!(path_to_string(&ast), "foo::crate");
}

#[test]
fn renaming_a_path_back_restores_it() {
    let (src, dest) = names();
    let original = generic_path(&["crate", "foo", "crate"], vec![Type::Path(path(&["crate", "bar"]))]);
    let mut ast = generic_path(&["crate", "foo", "crate"], vec![Type::Path(path(&["crate", "bar"]))]);
    refactor_path_in_path(&src, &dest, &mut ast);
    assert_eq!(path_to_string(&ast), "interface::foo::crate<interface::bar>");
    refactor_path_in_path(&dest, &src, &mut ast);
    assert_eq!(path_to_string(&ast), path_to_string(&original));
}
