//! Scene notation as parsed: what the code generator is given.
use vstd::prelude::*;

use crate::tokens::{Ident, Literal, Tokens};

verus! {

/// A whole scene.
#[derive(Debug)]
pub struct BsnRoot(pub Bsn<true>);

/// A whole list of scenes.
#[derive(Debug)]
pub struct BsnListRoot(pub BsnSceneListItems);

/// The entries that make up one entity.
#[derive(Debug)]
pub struct Bsn<const ALLOW_FLAT: bool> {
    pub entries: Vec<BsnEntry>,
}

/// One entry of an entity.
#[derive(Debug)]
pub enum BsnEntry {
    /// `#Name`
    Name(Ident),
    /// `#{expression}`
    NameExpression(Tokens),
    /// A patch of a type's template.
    FromTemplatePatch(BsnType),
    /// A patch of a template type.
    TemplatePatch(BsnType),
    /// A constructor call on a type's template.
    FromTemplateConstructor(BsnConstructor),
    /// A constructor call on a template type.
    TemplateConstructor(BsnConstructor),
    /// An associated constant of a template type.
    TemplateConst { type_path: Tokens, const_ident: Ident },
    /// `{expression}`
    SceneExpression(Tokens),
    /// A scene that this one builds upon.
    InheritedScene(BsnInheritedScene),
    /// `Relationship [scenes]`
    RelatedSceneList(BsnRelatedSceneList),
    /// `async |ctx: Ctx| { body }`
    AsyncClosure(BsnAsyncClosure),
}

/// A type, or a variant of an enum, with some of its fields.
#[derive(Debug)]
pub struct BsnType {
    pub path: Tokens,
    pub enum_variant: Option<Ident>,
    pub fields: BsnFields,
}

/// Scenes that are related to an entity.
#[derive(Debug)]
pub struct BsnRelatedSceneList {
    pub relationship_path: Tokens,
    pub scene_list: BsnSceneList,
}

/// A bracketed list of scenes.
#[derive(Debug)]
pub struct BsnSceneList(pub BsnSceneListItems);

/// The items of a list of scenes.
#[derive(Debug)]
pub struct BsnSceneListItems(pub Vec<BsnSceneListItem>);

/// One item of a list of scenes.
#[derive(Debug)]
pub enum BsnSceneListItem {
    Scene(Bsn<true>),
    /// The statements of an expression.
    Expression(Vec<Tokens>),
}

/// A scene to build upon.
#[derive(Debug)]
pub enum BsnInheritedScene {
    /// The path of an asset.
    Asset(Literal),
    /// A call of a function that gives a scene.
    Fn { function: Tokens, args: Tokens },
}

/// `Type::function(args)`
#[derive(Debug)]
pub struct BsnConstructor {
    pub type_path: Tokens,
    pub function: Ident,
    pub args: Tokens,
}

/// An async closure, not yet taken apart.
#[derive(Debug)]
pub struct BsnAsyncClosure {
    pub tokens: Tokens,
}

/// The fields given for a type.
#[derive(Debug)]
pub enum BsnFields {
    Named(Vec<BsnNamedField>),
    Tuple(Vec<BsnUnnamedField>),
}

/// A tuple of values.
#[derive(Debug)]
pub struct BsnTuple(pub Vec<BsnValue>);

/// `name: value`; the value is missing while the field is being typed.
#[derive(Debug)]
pub struct BsnNamedField {
    pub name: Ident,
    pub value: Option<BsnValue>,
}

/// A value given by position.
#[derive(Debug)]
pub struct BsnUnnamedField {
    pub value: BsnValue,
}

/// A literal value.
#[derive(Debug)]
pub enum Lit {
    Str(Literal),
    Other(Tokens),
}

/// The value of a field.
#[derive(Debug)]
pub enum BsnValue {
    Expr(Tokens),
    Closure(Tokens),
    Ident(Ident),
    Lit(Lit),
    Type(BsnType),
    Tuple(BsnTuple),
    /// `#Name`: a reference to a named entity.
    Name(Ident),
}

/// A field, by name or by position.
#[derive(Debug)]
pub enum Member {
    Named(Ident),
    Unnamed(u32),
}

} // verus!
