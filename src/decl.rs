use vstd::prelude::*;

use crate::meta::Attr;

verus! {

/// Whether a type declaration is a struct or an enum.
pub enum TypeKind {
    Struct,
    Enum,
}

/// A struct or enum declaration.
pub struct TypeDecl {
    pub attrs: Vec<Attr>,
    pub is_pub: bool,
    pub kind: TypeKind,
    pub name: String,
    /// Everything after the name: generics, where clause and the field or variant list.
    pub body: String,
    /// Where the declaration stands in the source, for diagnostics.
    pub location: String,
}

/// One parameter of a function signature.
pub enum Param {
    /// The implicit `self` receiver, taken by shared or by mutable reference.
    Receiver { mutable: bool },
    /// An explicitly typed parameter, rendered as source text (`a: i32`).
    Typed(String),
}

/// A free function or a method, of which only the signature is kept.
pub struct FnDecl {
    pub attrs: Vec<Attr>,
    pub is_pub: bool,
    /// The qualifiers before `fn` as text, each followed by a space (`const unsafe `), or empty.
    pub qualifiers: String,
    /// The name with its generic parameters.
    pub name: String,
    pub params: Vec<Param>,
    /// The return type part of the signature as text (` -> i32`), or empty.
    pub output: String,
    /// The where clause as text, with a leading space, or empty.
    pub where_clause: String,
    pub location: String,
}

/// An inherent impl block.
pub struct ImplDecl {
    pub attrs: Vec<Attr>,
    /// The type the block is for, as source text.
    pub self_ty: String,
    pub methods: Vec<FnDecl>,
    pub location: String,
}

/// An inline module with its declarations.
pub struct ModDecl {
    pub attrs: Vec<Attr>,
    pub items: Vec<Decl>,
    pub location: String,
}

/// A declaration of the expanded library source.
pub enum Decl {
    Type(TypeDecl),
    Function(FnDecl),
    Impl(ImplDecl),
    Module(ModDecl),
    /// Any other kind of declaration; never bridged.
    Other,
}

} // verus!
