//! The shape of a Rust source file as the classification rules read it: for
//! each top-level item, what kind it is, its attributes, and for an `impl`
//! block the parts of its methods the rules look at.
use vstd::prelude::*;
use quote::ToTokens;
use syn::Item;
use crate::text::{string_is, chars_are, chars_of};

verus! {

/// The top-level items of the Rust file `source`, each taken to its shape;
/// an error when `source` is not a Rust file.
pub fn source_items(source: &str) -> (r: Result<Vec<ItemShape>, String>)
    ensures
        match r {
            Ok(items) => rust_items(source@) == Ok::<Seq<ItemShape>, Seq<char>>(items@),
            Err(e) => rust_items(source@) == Err::<Seq<ItemShape>, Seq<char>>(e@),
        },
{
    parse_items(source)
}

/// One segment of a path: its identifier, and whether it carries generic
/// arguments.
#[derive(Debug, Clone, PartialEq, Eq)]
pub struct SegmentShape {
    pub ident: String,
    pub has_arguments: bool,
}

/// A path such as `Self`, `crate::a::B` or `::std::fmt::Display`.
#[derive(Debug, Clone, PartialEq, Eq)]
pub struct PathShape {
    pub leading_colon: bool,
    pub segments: Vec<SegmentShape>,
}

/// A type, as far as the rules tell types apart.
#[derive(Debug, Clone, PartialEq, Eq)]
pub enum TypeShape {
    /// A path type such as `Self` or `Vec<u8>`.
    Path(PathShape),
    /// A tuple type with this many elements; `()` has none.
    Tuple(usize),
    Other,
}

/// What a function signature says it returns.
#[derive(Debug, Clone, PartialEq, Eq)]
pub enum ReturnShape {
    /// No `->` at all.
    Default,
    /// `-> T`.
    Type(TypeShape),
}

/// A statement of a function body, as far as the rules tell them apart.
#[derive(Debug, Clone, PartialEq, Eq)]
pub enum StmtShape {
    /// An expression statement that is a struct literal.
    StructLiteral,
    /// An expression statement that is a function call.
    Call,
    /// An expression statement that is a method call.
    MethodCall,
    Other,
}

/// A method of an `impl` block.
#[derive(Debug, Clone, PartialEq, Eq)]
pub struct FnShape {
    pub name: String,
    pub generic_params: usize,
    pub output: ReturnShape,
    pub body: Vec<StmtShape>,
}

/// A member of an `impl` block.
#[derive(Debug, Clone, PartialEq, Eq)]
pub enum MemberShape {
    Fn(FnShape),
    /// An associated constant, type or macro.
    Other,
}

/// An `impl` block.
#[derive(Debug, Clone, PartialEq, Eq)]
pub struct ImplShape {
    /// Whether it implements a trait (`impl Trait for T`) rather than being
    /// inherent (`impl T`).
    pub is_trait_impl: bool,
    pub self_ty: TypeShape,
    pub members: Vec<MemberShape>,
}

/// An outer attribute: its path, and its whole text as tokens.
#[derive(Debug, Clone, PartialEq, Eq)]
pub struct AttrShape {
    pub path: PathShape,
    pub tokens: String,
}

/// The kind of a top-level item.
#[derive(Debug, Clone, PartialEq, Eq)]
pub enum ItemKind {
    Use,
    ExternCrate,
    /// A `mod` item; `inline` when it carries its body in braces.
    Mod { inline: bool },
    Const,
    Static,
    TypeAlias,
    Trait,
    TraitAlias,
    Struct(String),
    Enum(String),
    Union,
    Impl(ImplShape),
    Fn,
    ForeignMod,
    Macro,
    /// Tokens the parser kept without giving them a structure.
    Verbatim,
}

/// A top-level item with its outer attributes.
#[derive(Debug, Clone, PartialEq, Eq)]
pub struct ItemShape {
    pub kind: ItemKind,
    pub attrs: Vec<AttrShape>,
}

/// The items `syn::parse_file` reads from `source`, each taken to its shape,
/// or the text of syn's error when it refuses the source.
pub uninterp spec fn rust_items(source: Seq<char>) -> Result<Seq<ItemShape>, Seq<char>>;

/// Parses `source` as a Rust file with `syn::parse_file` and gives the shape
/// of each top-level item, in order, or syn's error as text (its `Display`).
/// What the contract claims of syn: either is a function of the source
/// alone, named `rust_items`; which sources syn accepts, and how it words an
/// error, is left unsaid.
#[verifier::external_body]
pub(crate) fn parse_items(source: &str) -> (r: Result<Vec<ItemShape>, String>)
    ensures
        match r {
            Ok(items) => rust_items(source@) == Ok::<Seq<ItemShape>, Seq<char>>(items@),
            Err(e) => rust_items(source@) == Err::<Seq<ItemShape>, Seq<char>>(e@),
        },
{
    syn::parse_file(source)
        .map(|file| file.items.iter().map(item_shape).collect())
        .map_err(|error| error.to_string())
}

// The syn types `parse_items` takes apart; Verus sees nothing inside them.
#[verifier::external_type_specification]
#[verifier::external_body]
pub struct ExSynPath(syn::Path);

#[verifier::external_type_specification]
#[verifier::external_body]
pub struct ExSynType(syn::Type);

#[verifier::external_type_specification]
#[verifier::external_body]
pub struct ExSynStmt(syn::Stmt);

#[verifier::external_type_specification]
#[verifier::external_body]
pub struct ExSynImplItem(syn::ImplItem);

#[verifier::external_type_specification]
#[verifier::external_body]
pub struct ExSynAttribute(syn::Attribute);

#[verifier::external_type_specification]
#[verifier::external_body]
pub struct ExSynItem(Item);

#[verifier::external_type_specification]
#[verifier::external_body]
pub struct ExSynItemImpl(syn::ItemImpl);

// The functions below take syn's tree apart field by field for
// `parse_items`; they move values and tell syn's variants apart, nothing more.
#[verifier::external_body]
fn path_shape(path: &syn::Path) -> PathShape {
    PathShape {
        leading_colon: path.leading_colon.is_some(),
        segments: path.segments.iter().map(|segment| SegmentShape {
            ident: segment.ident.to_string(),
            has_arguments: !segment.arguments.is_none(),
        }).collect(),
    }
}

#[verifier::external_body]
fn type_shape(ty: &syn::Type) -> TypeShape {
    match ty {
        syn::Type::Path(type_path) => TypeShape::Path(path_shape(&type_path.path)),
        syn::Type::Tuple(tuple) => TypeShape::Tuple(tuple.elems.len()),
        _ => TypeShape::Other,
    }
}

#[verifier::external_body]
fn stmt_shape(stmt: &syn::Stmt) -> StmtShape {
    match stmt {
        syn::Stmt::Expr(syn::Expr::Struct(_), _) => StmtShape::StructLiteral,
        syn::Stmt::Expr(syn::Expr::Call(_), _) => StmtShape::Call,
        syn::Stmt::Expr(syn::Expr::MethodCall(_), _) => StmtShape::MethodCall,
        _ => StmtShape::Other,
    }
}

#[verifier::external_body]
fn member_shape(member: &syn::ImplItem) -> MemberShape {
    match member {
        syn::ImplItem::Fn(method) => MemberShape::Fn(FnShape {
            name: method.sig.ident.to_string(),
            generic_params: method.sig.generics.params.len(),
            output: match &method.sig.output {
                syn::ReturnType::Default => ReturnShape::Default,
                syn::ReturnType::Type(_, ty) => ReturnShape::Type(type_shape(ty)),
            },
            body: method.block.stmts.iter().map(stmt_shape).collect(),
        }),
        _ => MemberShape::Other,
    }
}

#[verifier::external_body]
fn attrs_shape(attrs: &[syn::Attribute]) -> Vec<AttrShape> {
    attrs.iter().map(|attr| AttrShape {
        path: path_shape(attr.path()),
        tokens: attr.meta.to_token_stream().to_string(),
    }).collect()
}

#[verifier::external_body]
fn item_shape(item: &Item) -> ItemShape {
    let (kind, attrs) = match item {
        Item::Const(i) => (ItemKind::Const, &i.attrs),
        Item::Enum(i) => (ItemKind::Enum(i.ident.to_string()), &i.attrs),
        Item::ExternCrate(i) => (ItemKind::ExternCrate, &i.attrs),
        Item::Fn(i) => (ItemKind::Fn, &i.attrs),
        Item::ForeignMod(i) => (ItemKind::ForeignMod, &i.attrs),
        Item::Impl(i) => (ItemKind::Impl(impl_shape(i)), &i.attrs),
        _ => return item_shape_more(item),
    };
    ItemShape { kind, attrs: attrs_shape(attrs) }
}

#[verifier::external_body]
fn item_shape_more(item: &Item) -> ItemShape {
    let (kind, attrs) = match item {
        Item::Macro(i) => (ItemKind::Macro, &i.attrs),
        Item::Mod(i) => (ItemKind::Mod { inline: i.content.is_some() }, &i.attrs),
        Item::Static(i) => (ItemKind::Static, &i.attrs),
        Item::Struct(i) => (ItemKind::Struct(i.ident.to_string()), &i.attrs),
        _ => return item_shape_rest(item),
    };
    ItemShape { kind, attrs: attrs_shape(attrs) }
}

#[verifier::external_body]
fn item_shape_rest(item: &Item) -> ItemShape {
    let (kind, attrs) = match item {
        Item::Trait(i) => (ItemKind::Trait, &i.attrs[..]),
        Item::TraitAlias(i) => (ItemKind::TraitAlias, &i.attrs[..]),
        Item::Type(i) => (ItemKind::TypeAlias, &i.attrs[..]),
        Item::Union(i) => (ItemKind::Union, &i.attrs[..]),
        Item::Use(i) => (ItemKind::Use, &i.attrs[..]),
        _ => (ItemKind::Verbatim, &[][..]),
    };
    ItemShape { kind, attrs: attrs_shape(attrs) }
}

#[verifier::external_body]
fn impl_shape(item_impl: &syn::ItemImpl) -> ImplShape {
    ImplShape {
        is_trait_impl: item_impl.trait_.is_some(),
        self_ty: type_shape(&item_impl.self_ty),
        members: item_impl.items.iter().map(member_shape).collect(),
    }
}

/// Whether the path is the single identifier `name`: no leading `::`, one
/// segment, no generic arguments (syn's `Path::is_ident`).
pub open spec fn path_is_ident(path: PathShape, name: Seq<char>) -> bool {
    !path.leading_colon && path.segments@.len() == 1 && !path.segments@[0].has_arguments
        && path.segments@[0].ident@ == name
}

/// Whether the path is the single identifier `name`.
pub fn path_is(path: &PathShape, name: &str) -> (r: bool)
    ensures
        r == path_is_ident(*path, name@),
{
    !path.leading_colon && path.segments.len() == 1 && !path.segments[0].has_arguments
        && string_is(&path.segments[0].ident, name)
}

/// The identifier of the last segment of a path type, the name an `impl`
/// block is taken to be for.
pub open spec fn self_type_name(ty: TypeShape) -> Option<Seq<char>> {
    match ty {
        TypeShape::Path(path) => if path.segments@.len() > 0 {
            Some(path.segments@.last().ident@)
        } else {
            None
        },
        _ => None,
    }
}

/// Whether the type is the path `Self`.
pub open spec fn is_self_type(ty: TypeShape) -> bool {
    match ty {
        TypeShape::Path(path) => path_is_ident(path, seq!['S', 'e', 'l', 'f']),
        _ => false,
    }
}

/// Whether a function returns `Self`.
pub open spec fn returns_self(f: FnShape) -> bool {
    match f.output {
        ReturnShape::Type(ty) => is_self_type(ty),
        ReturnShape::Default => false,
    }
}

/// Whether a function returns nothing: no `->`, or `-> ()`.
pub open spec fn returns_nothing(f: FnShape) -> bool {
    match f.output {
        ReturnShape::Default => true,
        ReturnShape::Type(TypeShape::Tuple(n)) => n == 0,
        ReturnShape::Type(_) => false,
    }
}

/// Whether the item is a struct or an enum, the kinds that declare a type.
pub open spec fn declared_type_name(item: ItemShape) -> Option<Seq<char>> {
    match item.kind {
        ItemKind::Struct(name) => Some(name@),
        ItemKind::Enum(name) => Some(name@),
        _ => None,
    }
}

/// The name the item declares, when it is a struct or an enum.
pub fn declared_type(item: &ItemShape) -> (r: Option<&String>)
    ensures
        match r {
            Some(name) => declared_type_name(*item) == Some(name@),
            None => declared_type_name(*item) is None,
        },
{
    match &item.kind {
        ItemKind::Struct(name) => Some(name),
        ItemKind::Enum(name) => Some(name),
        _ => None,
    }
}

/// The name of the type an `impl` block is for, when it is a path type.
pub fn self_type(ty: &TypeShape) -> (r: Option<&String>)
    ensures
        match r {
            Some(name) => self_type_name(*ty) == Some(name@),
            None => self_type_name(*ty) is None,
        },
{
    match ty {
        TypeShape::Path(path) => {
            if path.segments.len() > 0 {
                Some(&path.segments[path.segments.len() - 1].ident)
            } else {
                None
            }
        },
        _ => None,
    }
}

/// Whether the function returns `Self`.
pub fn fn_returns_self(f: &FnShape) -> (r: bool)
    ensures
        r == returns_self(*f),
{
    match &f.output {
        ReturnShape::Type(TypeShape::Path(path)) => {
            let r = path_is(path, "Self");
            proof {
                reveal_strlit("Self");
                assert("Self"@ =~= seq!['S', 'e', 'l', 'f']);
            }
            r
        },
        _ => false,
    }
}

/// Whether the function returns nothing.
pub fn fn_returns_nothing(f: &FnShape) -> (r: bool)
    ensures
        r == returns_nothing(*f),
{
    match &f.output {
        ReturnShape::Default => true,
        ReturnShape::Type(TypeShape::Tuple(n)) => *n == 0,
        ReturnShape::Type(_) => false,
    }
}

/// `s` without its spaces.
pub open spec fn without_spaces(s: Seq<char>) -> Seq<char>
    decreases s.len(),
{
    if s.len() == 0 {
        s
    } else if s.last() == ' ' {
        without_spaces(s.drop_last())
    } else {
        without_spaces(s.drop_last()).push(s.last())
    }
}

/// Whether the attribute is `#[cfg(test)]`: a `cfg` whose only argument is
/// `test`, however its tokens are spaced.
pub open spec fn is_test_attr(attr: AttrShape) -> bool {
    path_is_ident(attr.path, seq!['c', 'f', 'g']) && without_spaces(attr.tokens@) == seq![
        'c',
        'f',
        'g',
        '(',
        't',
        'e',
        's',
        't',
        ')',
    ]
}

/// `s` without its spaces.
fn without_spaces_of(s: &Vec<char>) -> (r: Vec<char>)
    ensures
        r@ == without_spaces(s@),
{
    let mut r: Vec<char> = Vec::new();
    let mut i: usize = 0;
    while i < s.len()
        invariant
            i <= s.len(),
            r@ == without_spaces(s@.take(i as int)),
        decreases s.len() - i,
    {
        proof {
            assert(s@.take(i + 1).drop_last() =~= s@.take(i as int));
            assert(s@.take(i + 1).last() == s@[i as int]);
        }
        if s[i] != ' ' {
            r.push(s[i]);
        }
        i = i + 1;
    }
    assert(s@.take(s.len() as int) =~= s@);
    r
}

/// Whether any of the attributes is `#[cfg(test)]`.
pub open spec fn has_test_attr(attrs: Seq<AttrShape>) -> bool {
    exists|i: int| 0 <= i < attrs.len() && is_test_attr(#[trigger] attrs[i])
}

/// Whether the attributes gate the item to test builds.
pub fn attrs_mention_test(attrs: &Vec<AttrShape>) -> (r: bool)
    ensures
        r == has_test_attr(attrs@),
{
    proof {
        reveal_strlit("cfg");
        reveal_strlit("cfg(test)");
        assert("cfg"@ =~= seq!['c', 'f', 'g']);
        assert("cfg(test)"@ =~= seq!['c', 'f', 'g', '(', 't', 'e', 's', 't', ')']);
    }
    let mut i: usize = 0;
    while i < attrs.len()
        invariant
            i <= attrs.len(),
            "cfg"@ == seq!['c', 'f', 'g'],
            "cfg(test)"@ == seq!['c', 'f', 'g', '(', 't', 'e', 's', 't', ')'],
            forall|k: int| 0 <= k < i ==> !is_test_attr(#[trigger] attrs@[k]),
        decreases attrs.len() - i,
    {
        let attr = &attrs[i];
        if path_is(&attr.path, "cfg") {
            let tokens = without_spaces_of(&chars_of(attr.tokens.as_str()));
            if chars_are(tokens.as_slice(), "cfg(test)") {
                assert(is_test_attr(attrs@[i as int]));
                return true;
            }
        }
        i = i + 1;
    }
    false
}

} // verus!
