//! The shape of a Rust item as a tree: a small syntax tree for
//! declarations. These types hold data only.

use vstd::prelude::*;

verus! {

/// An item: a declaration at the top level of a module.
#[derive(Debug, PartialEq, Eq)]
pub struct Item {
    /// Whether the item is public.
    pub is_pub: bool,
    /// The name of the item.
    pub ident: String,
    /// What the item declares.
    pub kind: ItemKind,
}

/// What an item declares.
#[derive(Debug, PartialEq, Eq)]
pub enum ItemKind {
    /// A function, such as `fn foo(bar: usize) -> usize { .. }`.
    Fn(Fn),
    /// A struct, such as `struct Foo<A> { x: A }`.
    Struct,
    /// An enum, such as `enum Foo<A, B> { C(A), D(B) }`.
    Enum,
    /// A module, such as `mod foo;` or `mod foo { .. }`.
    Mod,
    /// A use declaration, such as `use foo::bar;`.
    Use,
    /// A trait, such as `trait Foo { .. }`.
    Trait,
    /// A type alias, such as `type Foo = Bar<u8>;`.
    TyAlias,
}

/// A function: its generic parameters and its signature.
#[derive(Debug, PartialEq, Eq)]
pub struct Fn {
    pub generics: Generics,
    pub sig: FnSig,
}

/// The generic parameters of a declaration and its `where` clause.
#[derive(Debug, PartialEq, Eq)]
pub struct Generics {
    pub params: Vec<GenericParam>,
    pub where_clause: WhereClause,
}

/// One generic parameter with the bounds declared on it.
#[derive(Debug, PartialEq, Eq)]
pub struct GenericParam {
    pub ident: String,
    pub bounds: Vec<GenericBound>,
    pub kind: GenericParamKind,
}

/// A bound on a generic parameter.
#[derive(Debug, PartialEq, Eq)]
pub enum GenericBound {
    /// A trait that the parameter must implement.
    Trait(Path),
}

/// A path: a name made of segments, such as `std::cmp::PartialEq`.
#[derive(Debug, PartialEq, Eq)]
pub struct Path {
    /// The segments of the path: what `::` separates.
    pub segments: Vec<PathSegment>,
}

/// A segment of a path, such as `std`, `String` or `Box<T>`.
#[derive(Debug, PartialEq, Eq)]
pub struct PathSegment {
    /// The name of the segment.
    pub ident: String,
    /// The generic arguments of the segment. `None` where no list is given
    /// (`Path`); a given list may be empty (`Path<>`).
    pub args: Option<GenericArgs>,
}

/// The generic arguments of a path segment, such as `<A, B>` in
/// `Foo<A, B>`.
#[derive(Debug, PartialEq, Eq)]
pub struct GenericArgs {
    pub args: Vec<GenericArg>,
}

/// One generic argument.
#[derive(Debug, PartialEq, Eq)]
pub enum GenericArg {
    /// A type, such as `Bar` in `Foo<Bar>`.
    Type(Ty),
}

/// A type.
#[derive(Debug, PartialEq, Eq)]
pub struct Ty {
    pub kind: TyKind,
}

/// The kinds of types.
#[derive(Debug, PartialEq, Eq)]
pub enum TyKind {
    /// A path to a type, such as `module::Type`. Its type arguments stand
    /// in the path.
    Path(Path),
}

/// The kinds of generic parameters.
#[derive(Debug, PartialEq, Eq)]
pub enum GenericParamKind {
    /// A type parameter.
    Type,
}

/// A `where` clause.
#[derive(Debug, PartialEq, Eq)]
pub struct WhereClause {
    pub predicates: Vec<WherePredicate>,
}

/// One predicate of a `where` clause.
#[derive(Debug, PartialEq, Eq)]
pub enum WherePredicate {
    /// A bound on a type, such as `for<'c> Foo: Send + Clone + 'c`.
    BoundPredicate(WhereBoundPredicate),
}

/// A bound on a type in a `where` clause, such as
/// `for<'c> Foo: Send + Clone + 'c`.
#[derive(Debug, PartialEq, Eq)]
pub struct WhereBoundPredicate {
    /// The generic parameters that a `for` introduces.
    pub bound_generic_params: Vec<GenericParam>,
    /// The type that is bounded, as text.
    pub bounded_ty: String,
    /// The bounds on it, such as `Clone + Send + 'static`.
    pub bounds: Vec<GenericBound>,
}

/// The signature of a function: its header and its declaration.
#[derive(Debug, PartialEq, Eq)]
pub struct FnSig {
    pub header: FnHeader,
    pub decl: FnDecl,
}

/// The qualifiers of a function: what stands between the visibility and
/// the name, such as `async unsafe` or `const`.
#[derive(Debug, PartialEq, Eq)]
pub struct FnHeader {
    /// Whether the function is `unsafe`.
    pub safety: Safety,
    /// Whether the function is `async`, `gen`, or neither.
    pub coroutine_kind: Option<CoroutineKind>,
    /// Whether the function is `const`.
    pub constness: Const,
    /// The ABI of the function, if one is given.
    pub ext: Extern,
}

/// Whether an item is safe to use.
#[derive(Debug, PartialEq, Eq)]
pub enum Safety {
    /// The item is marked `unsafe`.
    Unsafe,
    /// The item is marked `safe`.
    Safe,
    /// The item has no mark: what holds follows from where it stands.
    Default,
}

/// The kinds of coroutines that a function can be.
#[derive(Debug, PartialEq, Eq)]
pub enum CoroutineKind {
    /// `async`: the function returns a future.
    Async,
    /// `gen`: the function returns an iterator.
    Gen,
    /// `async gen`: the function returns an asynchronous iterator.
    AsyncGen,
}

/// Whether a function is `const`.
#[derive(Debug, PartialEq, Eq)]
pub enum Const {
    Yes,
    No,
}

/// The ABI qualifier of a function.
#[derive(Debug, PartialEq, Eq)]
pub enum Extern {
    /// No qualifier, as in `fn foo() {}`.
    Absent,
    /// The qualifier without an ABI, which stands for the ABI `"C"`.
    Implicit,
    /// The qualifier with an ABI, such as `"C"`.
    Explicit(String),
}

/// The declaration of a function: its parameters and what it returns, as
/// in `fn foo(bar: baz)`.
#[derive(Debug, PartialEq, Eq)]
pub struct FnDecl {
    pub inputs: Vec<Param>,
    pub output: FnRetTy,
}

/// A parameter of a function, such as `bar: usize`.
#[derive(Debug, PartialEq, Eq)]
pub struct Param {
    pub ty: Ty,
    pub pat: Pat,
}

/// The pattern of a parameter. It holds nothing.
#[derive(Debug, PartialEq, Eq)]
pub struct Pat {}

/// The return type of a function.
#[derive(Debug, PartialEq, Eq)]
pub enum FnRetTy {
    /// No return type is given: the function returns `()`.
    Default,
    /// The type that is given.
    Ty(Ty),
}

} // verus!
