//! Items of an IDL source file: modules, traits, structs, `use` trees and
//! attributes. Types inside them are those of [`crate::ty`].

use vstd::prelude::*;
use crate::ty::{Lit, Path, ReturnType, Type, TypeParamBound};

verus! {

pub enum Visibility {
    /// `pub`
    Public,
    /// `crate`
    Crate,
    /// `pub(...)`
    Restricted,
    /// No visibility given: private.
    Inherited,
}

/// The structured form of an attribute's contents.
pub enum Meta {
    /// `#[name]`
    Path(Path),
    /// `#[name(a, b, ...)]`
    List(Path, Vec<NestedMeta>),
    /// `#[name = lit]`
    NameValue(Path, Lit),
}

pub enum NestedMeta {
    Meta(Meta),
    Lit(Lit),
}

pub struct Attribute {
    /// The path naming the attribute.
    pub path: Path,
    /// The structured contents, when they are of a form [`Meta`] can hold.
    pub meta: Option<Meta>,
}

pub enum GenericParam {
    /// A type parameter: its name and its bounds.
    Type(String, Vec<TypeParamBound>),
    /// A lifetime parameter, with its leading quote.
    Lifetime(String),
    /// A const parameter: its name and its type.
    Const(String, Type),
}

pub struct Generics {
    pub params: Vec<GenericParam>,
}

pub struct Field {
    pub vis: Visibility,
    pub ident: Option<String>,
    pub ty: Type,
}

pub enum Pat {
    Ident(String),
    /// Any other pattern, holding its source text.
    Other(String),
}

pub enum FnArg {
    /// `self`, `&self` or `&mut self`, holding its source text.
    Receiver(String),
    Typed(Pat, Type),
}

pub struct Signature {
    pub ident: String,
    pub generics: Generics,
    pub inputs: Vec<FnArg>,
    pub output: ReturnType,
}

pub struct TraitItemMethod {
    pub attrs: Vec<Attribute>,
    pub sig: Signature,
}

pub enum TraitItem {
    Const(String, Type),
    Method(TraitItemMethod),
    /// An associated type, by name.
    Type(String, Generics),
    Macro(String),
    Verbatim(String),
}

pub enum ImplItem {
    Const(String),
    Method(Signature),
    /// An associated type, by name.
    Type(String, Generics),
    Macro(String),
    Verbatim(String),
}

pub enum ForeignItem {
    Fn(Signature),
    Static(String),
    /// A foreign type, by name.
    Type(String),
    Macro(String),
    Verbatim(String),
}

pub enum UseTree {
    /// `ident::tree`
    Path(String, Box<UseTree>),
    /// `ident`
    Name(String),
    /// `ident as rename`
    Rename(String, String),
    /// `*`
    Glob,
    /// `{a, b, ...}`
    Group(Vec<UseTree>),
}

pub struct ItemMod {
    pub attrs: Vec<Attribute>,
    pub vis: Visibility,
    pub ident: String,
    /// The items of an inline module; `None` for `mod name;`.
    pub content: Option<Vec<Item>>,
}

pub struct ItemTrait {
    pub attrs: Vec<Attribute>,
    pub vis: Visibility,
    pub ident: String,
    pub generics: Generics,
    pub supertraits: Vec<TypeParamBound>,
    pub items: Vec<TraitItem>,
}

pub struct ItemStruct {
    pub attrs: Vec<Attribute>,
    pub vis: Visibility,
    pub ident: String,
    pub generics: Generics,
    pub fields: Vec<Field>,
}

pub struct ItemUse {
    pub attrs: Vec<Attribute>,
    pub vis: Visibility,
    pub leading_colon: bool,
    pub tree: UseTree,
}

pub enum Item {
    Const(Vec<Attribute>, Visibility, String, Type),
    Enum(Vec<Attribute>, Visibility, String, Generics),
    ExternCrate(Vec<Attribute>, String),
    Fn(Vec<Attribute>, Visibility, Signature),
    ForeignMod(Vec<ForeignItem>),
    Impl(Generics, Vec<ImplItem>),
    Macro(String),
    Macro2(String),
    Mod(ItemMod),
    Static(Visibility, String, Type),
    Struct(ItemStruct),
    Trait(ItemTrait),
    TraitAlias(Visibility, String, Generics),
    /// `type Name<...> = T;`
    Type(Vec<Attribute>, Visibility, String, Generics, Type),
    Union(Vec<Attribute>, Visibility, String, Generics, Vec<Field>),
    Use(ItemUse),
    /// Items held as source text.
    Verbatim(String),
}

pub struct File {
    pub attrs: Vec<Attribute>,
    pub items: Vec<Item>,
}

} // verus!
