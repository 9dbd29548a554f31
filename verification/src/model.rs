//! What the outline reads of a parsed Rust file, held as plain values.
//!
//! Texts of types, bounds, predicates, patterns and use trees are their
//! tokens as the token printer renders them; names are identifiers as
//! written; line numbers are 1-based, and 0 where the parser gave none.
use vstd::prelude::*;

verus! {

/// The first and last line that an item covers.
pub struct LineSpan {
    pub start: usize,
    pub end: usize,
}

/// The visibility written on an item or field.
pub enum Vis {
    /// `pub`
    Public,
    /// `pub(crate)`, `pub(super)`, `pub(in path)`
    Restricted,
    /// nothing written
    Inherited,
}

/// A type: its rendered text, and the segment names of every type path that
/// occurs in it, in the order the parser's visitor meets them.
pub struct TypeModel {
    pub text: String,
    pub paths: Vec<Vec<String>>,
}

/// One generic parameter.
pub enum GenericParamModel {
    /// A type parameter with the rendered text of each bound.
    Type { name: String, bounds: Vec<String> },
    /// A lifetime parameter, by the name after the quote.
    Lifetime { name: String },
    /// A const parameter with the rendered text of the whole parameter.
    Const { name: String, tokens: String },
}

/// The generics of a signature, trait or alias; `where_predicates` holds the
/// rendered predicates when a `where` clause is written.
pub struct GenericsModel {
    pub params: Vec<GenericParamModel>,
    pub where_predicates: Option<Vec<String>>,
}

/// The pattern of a typed parameter.
pub enum PatModel {
    /// A binding, by its identifier.
    Ident(String),
    /// `_`
    Wild,
    /// Any other pattern, by its rendered text.
    Other(String),
}

/// One parameter of a signature.
pub enum ParamModel {
    /// `self`, `&self`, `&'a mut self`, ...
    Receiver { reference: bool, lifetime: Option<String>, mutable: bool },
    /// `pattern: Type`
    Typed { pat: PatModel, ty: TypeModel },
}

/// A function signature.
pub struct SigModel {
    pub is_async: bool,
    pub is_unsafe: bool,
    pub name: String,
    pub generics: GenericsModel,
    pub params: Vec<ParamModel>,
    pub output: Option<TypeModel>,
}

/// An attribute: its path when that is a single identifier (as
/// `Path::get_ident` gives it), and the paths its arguments list (each as its
/// segment names), or `None` when its arguments are no comma-separated list
/// of paths.
pub struct AttrModel {
    pub path_ident: Option<String>,
    pub arg_paths: Option<Vec<Vec<String>>>,
}

/// A field of a struct or of an enum variant.
pub struct FieldModel {
    pub vis: Vis,
    pub name: Option<String>,
    pub ty: TypeModel,
    pub span: LineSpan,
}

/// The fields of a struct or enum variant.
pub enum FieldsModel {
    Named(Vec<FieldModel>),
    Unnamed(Vec<FieldModel>),
    Unit,
}

/// An enum variant.
pub struct VariantModel {
    pub name: String,
    pub fields: FieldsModel,
}

/// An item of a trait: a method signature, or anything else.
pub enum TraitItemModel {
    Fn(SigModel),
    Other,
}

/// The tree of a `use` item.
pub enum UseTreeModel {
    /// `prefix::tree`
    Path(Box<UseTreeModel>),
    /// `name`
    Name(String),
    /// `name as rename`, by the new name
    Rename(String),
    /// `*`
    Glob,
    /// `{a, b, ...}`
    Group(Vec<UseTreeModel>),
}

/// A top-level item of a file.
pub enum ItemModel {
    Use { vis: Vis, tree: UseTreeModel, tree_text: String, span: LineSpan },
    Fn { vis: Vis, sig: SigModel, span: LineSpan },
    Struct {
        attrs: Vec<AttrModel>,
        vis: Vis,
        name: String,
        fields: FieldsModel,
        span: LineSpan,
    },
    Enum {
        attrs: Vec<AttrModel>,
        vis: Vis,
        name: String,
        variants: Vec<VariantModel>,
        span: LineSpan,
    },
    Trait {
        vis: Vis,
        name: String,
        generics: GenericsModel,
        items: Vec<TraitItemModel>,
        span: LineSpan,
    },
    Type { vis: Vis, name: String, generics: GenericsModel, span: LineSpan },
    Const { vis: Vis, name: String, ty: TypeModel, span: LineSpan },
    Static { vis: Vis, is_mut: bool, name: String, ty: TypeModel, span: LineSpan },
    Mod { vis: Vis, name: String, span: LineSpan },
    /// Items the outline does not show (impls, macros, extern blocks, ...).
    Other,
}

/// One line (or block) of the outline and the lines it covers in the source.
pub struct OutlineEntry {
    pub signature: String,
    pub start_line: usize,
    pub end_line: usize,
}

/// An import that a shown signature needs, with its source text.
pub struct ImportEntry {
    pub source_text: String,
    pub start_line: usize,
    pub end_line: usize,
}

/// The outline of a file.
pub struct OutlineResult {
    pub imports: Vec<ImportEntry>,
    pub exports: Vec<OutlineEntry>,
}

impl View for OutlineEntry {
    type V = (Seq<char>, usize, usize);

    open spec fn view(&self) -> (Seq<char>, usize, usize) {
        (self.signature@, self.start_line, self.end_line)
    }
}

impl View for ImportEntry {
    type V = (Seq<char>, usize, usize);

    open spec fn view(&self) -> (Seq<char>, usize, usize) {
        (self.source_text@, self.start_line, self.end_line)
    }
}

impl View for OutlineResult {
    type V = (Seq<(Seq<char>, usize, usize)>, Seq<(Seq<char>, usize, usize)>);

    open spec fn view(&self) -> Self::V {
        (
            self.imports@.map_values(|e: ImportEntry| e@),
            self.exports@.map_values(|e: OutlineEntry| e@),
        )
    }
}

} // verus!
