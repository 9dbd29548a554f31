//! Reading a Rust source file with the `syn` parser and converting its
//! syntax tree into the plain model that the outline is computed from.
//!
//! The parse and the conversion are trusted: Verus sees neither the syntax
//! tree nor the token printer. The conversion is one for one, node by node;
//! everything the outline decides is in the verified modules.
use vstd::prelude::*;
use crate::model::{
    AttrModel, FieldModel, FieldsModel, GenericParamModel, GenericsModel, ItemModel, LineSpan,
    OutlineResult, ParamModel, PatModel, SigModel, TraitItemModel, TypeModel, UseTreeModel,
    VariantModel, Vis,
};
use crate::outline::{outline_renderable, outline_spec, try_outline_of_items};

verus! {

// ---------------------------------------------------------------------------
// The parser's types, opaque to Verus
// ---------------------------------------------------------------------------

#[verifier::external_type_specification]
#[verifier::external_body]
pub struct ExItem(syn::Item);

#[verifier::external_type_specification]
#[verifier::external_body]
pub struct ExItemUse(syn::ItemUse);

#[verifier::external_type_specification]
#[verifier::external_body]
pub struct ExItemFn(syn::ItemFn);

#[verifier::external_type_specification]
#[verifier::external_body]
pub struct ExItemStruct(syn::ItemStruct);

#[verifier::external_type_specification]
#[verifier::external_body]
pub struct ExItemEnum(syn::ItemEnum);

#[verifier::external_type_specification]
#[verifier::external_body]
pub struct ExItemTrait(syn::ItemTrait);

#[verifier::external_type_specification]
#[verifier::external_body]
pub struct ExItemType(syn::ItemType);

#[verifier::external_type_specification]
#[verifier::external_body]
pub struct ExItemConst(syn::ItemConst);

#[verifier::external_type_specification]
#[verifier::external_body]
pub struct ExItemStatic(syn::ItemStatic);

#[verifier::external_type_specification]
#[verifier::external_body]
pub struct ExItemMod(syn::ItemMod);

#[verifier::external_type_specification]
#[verifier::external_body]
pub struct ExVisibility(syn::Visibility);

#[verifier::external_type_specification]
#[verifier::external_body]
pub struct ExUseTree(syn::UseTree);

#[verifier::external_type_specification]
#[verifier::external_body]
pub struct ExSignature(syn::Signature);

#[verifier::external_type_specification]
#[verifier::external_body]
pub struct ExGenerics(syn::Generics);

#[verifier::external_type_specification]
#[verifier::external_body]
pub struct ExGenericParam(syn::GenericParam);

#[verifier::external_type_specification]
#[verifier::external_body]
pub struct ExFnArg(syn::FnArg);

#[verifier::external_type_specification]
#[verifier::external_body]
pub struct ExPat(syn::Pat);

#[verifier::external_type_specification]
#[verifier::external_body]
pub struct ExType(syn::Type);

#[verifier::external_type_specification]
#[verifier::external_body]
pub struct ExTypePath(syn::TypePath);

#[verifier::external_type_specification]
#[verifier::external_body]
pub struct ExPath(syn::Path);

#[verifier::external_type_specification]
#[verifier::external_body]
pub struct ExField(syn::Field);

#[verifier::external_type_specification]
#[verifier::external_body]
pub struct ExFields(syn::Fields);

#[verifier::external_type_specification]
#[verifier::external_body]
pub struct ExVariant(syn::Variant);

#[verifier::external_type_specification]
#[verifier::external_body]
pub struct ExTraitItem(syn::TraitItem);

#[verifier::external_type_specification]
#[verifier::external_body]
pub struct ExAttribute(syn::Attribute);

#[verifier::external_type_specification]
#[verifier::external_body]
pub struct ExIdent(syn::Ident);

// ---------------------------------------------------------------------------
// The parse
// ---------------------------------------------------------------------------

/// The top-level items that `syn::parse_file` reads from `source`, each
/// converted into the library's model; `None` when the text does not parse.
/// The parser and the conversion are functions of the text alone.
pub uninterp spec fn parsed_items(source: Seq<char>) -> Option<Seq<ItemModel>>;

/// Calls `syn::parse_file` and converts the items of the file it returns
/// (`item_model`); `None` when it returns an error. The result is named
/// `parsed_items` of the text.
#[verifier::external_body]
pub fn parse_items(source: &str) -> (r: Option<Vec<ItemModel>>)
    ensures
        match r {
            Some(items) => parsed_items(source@) == Some(items@),
            None => parsed_items(source@) is None,
        },
{
    match syn::parse_file(source) {
        Ok(file) => Some(file.items.iter().map(item_model).collect()),
        Err(_) => None,
    }
}

// ---------------------------------------------------------------------------
// Reading the tokens and positions of a node
// ---------------------------------------------------------------------------

/// Calls `Ident::to_string` (through `Display`): the identifier as written.
#[verifier::external_body]
fn ident_text(ident: &syn::Ident) -> String {
    ident.to_string()
}

/// Calls `ToTokens::to_token_stream` and prints the stream with
/// `TokenStream::to_string`, as `quote!(#t).to_string()` does.
#[verifier::external_body]
fn tokens_text<T: quote::ToTokens>(t: &T) -> String {
    t.to_token_stream().to_string()
}

/// Calls `Spanned::span` and reads the lines of its start and end
/// (`Span::start`, `Span::end`); 0 when the parser recorded no positions.
#[verifier::external_body]
fn line_span<T: syn::spanned::Spanned>(t: &T) -> LineSpan {
    let span = t.span();
    LineSpan { start: span.start().line, end: span.end().line }
}

/// Collects the path of every `syn::TypePath` that the visitor meets.
struct PathCollector<'ast> {
    paths: Vec<&'ast syn::Path>,
}

impl<'ast> syn::visit::Visit<'ast> for PathCollector<'ast> {
    /// Records the path, then lets `syn::visit::visit_type_path` visit the
    /// types nested in it.
    #[verifier::external_body]
    fn visit_type_path(&mut self, node: &'ast syn::TypePath) {
        self.paths.push(&node.path);
        syn::visit::visit_type_path(self, node);
    }
}

/// Calls `Visit::visit_type` and converts each type path it meets into the
/// identifiers of its segments (field `segments`, `ident`), in the order
/// the visitor meets them.
#[verifier::external_body]
fn type_paths(ty: &syn::Type) -> Vec<Vec<String>> {
    let mut collector = PathCollector { paths: Vec::new() };
    syn::visit::Visit::visit_type(&mut collector, ty);
    collector.paths.iter().map(|p| p.segments.iter().map(|s| ident_text(&s.ident)).collect()).collect()
}

// ---------------------------------------------------------------------------
// Converting syntax nodes into the model, one for one
// ---------------------------------------------------------------------------

/// Converts a type: its printed tokens and its type paths.
#[verifier::external_body]
fn type_model(ty: &syn::Type) -> TypeModel {
    TypeModel { text: tokens_text(ty), paths: type_paths(ty) }
}

/// Converts the variants of `syn::Visibility`.
#[verifier::external_body]
fn vis_model(vis: &syn::Visibility) -> Vis {
    match vis {
        syn::Visibility::Public(_) => Vis::Public,
        syn::Visibility::Restricted(_) => Vis::Restricted,
        syn::Visibility::Inherited => Vis::Inherited,
    }
}

/// Converts a `syn::UseTree`, variant by variant: a renamed import by its
/// new name.
#[verifier::external_body]
fn use_tree_model(tree: &syn::UseTree) -> UseTreeModel {
    match tree {
        syn::UseTree::Path(p) => UseTreeModel::Path(Box::new(use_tree_model(&p.tree))),
        syn::UseTree::Name(n) => UseTreeModel::Name(ident_text(&n.ident)),
        syn::UseTree::Rename(r) => UseTreeModel::Rename(ident_text(&r.rename)),
        syn::UseTree::Glob(_) => UseTreeModel::Glob,
        syn::UseTree::Group(g) => UseTreeModel::Group(g.items.iter().map(use_tree_model).collect()),
    }
}

/// Converts an attribute: `Path::get_ident` of `Attribute::path`, and the
/// arguments as `Attribute::parse_args_with` with `Punctuated::parse_terminated`
/// reads comma-separated paths (`None` when they do not parse so).
#[verifier::external_body]
fn attr_model(attr: &syn::Attribute) -> AttrModel {
    let parser = syn::punctuated::Punctuated::<syn::Path, syn::token::Comma>::parse_terminated;
    AttrModel {
        path_ident: attr.path().get_ident().map(ident_text),
        arg_paths: match attr.parse_args_with(parser) {
            Ok(paths) => Some(paths.iter().map(|p| p.segments.iter().map(|s| ident_text(&s.ident)).collect()).collect()),
            Err(_) => None,
        },
    }
}

/// Converts the variants of `syn::GenericParam`; bounds by their printed
/// tokens, a const parameter by the printed tokens of the whole parameter.
#[verifier::external_body]
fn generic_param_model(param: &syn::GenericParam) -> GenericParamModel {
    match param {
        syn::GenericParam::Type(tp) => GenericParamModel::Type {
            name: ident_text(&tp.ident),
            bounds: tp.bounds.iter().map(tokens_text).collect(),
        },
        syn::GenericParam::Lifetime(lt) => GenericParamModel::Lifetime {
            name: ident_text(&lt.lifetime.ident),
        },
        syn::GenericParam::Const(c) => GenericParamModel::Const {
            name: ident_text(&c.ident),
            tokens: tokens_text(c),
        },
    }
}

/// Converts generics: the parameters, and the printed predicates of the
/// `where` clause when one is written.
#[verifier::external_body]
fn generics_model(generics: &syn::Generics) -> GenericsModel {
    GenericsModel {
        params: generics.params.iter().map(generic_param_model).collect(),
        where_predicates: generics.where_clause.as_ref().map(
            |w| w.predicates.iter().map(tokens_text).collect(),
        ),
    }
}

/// Converts the variants of `syn::Pat` that the outline tells apart.
#[verifier::external_body]
fn pat_model(pat: &syn::Pat) -> PatModel {
    match pat {
        syn::Pat::Ident(pi) => PatModel::Ident(ident_text(&pi.ident)),
        syn::Pat::Wild(_) => PatModel::Wild,
        other => PatModel::Other(tokens_text(other)),
    }
}

/// Converts the variants of `syn::FnArg`; for a receiver, whether it is a
/// reference, its lifetime (`Receiver::lifetime`, read from the reference),
/// and whether `mut` is written.
#[verifier::external_body]
fn param_model(arg: &syn::FnArg) -> ParamModel {
    match arg {
        syn::FnArg::Receiver(r) => ParamModel::Receiver {
            reference: r.reference.is_some(),
            lifetime: r.lifetime().map(|lt| ident_text(&lt.ident)),
            mutable: r.mutability.is_some(),
        },
        syn::FnArg::Typed(pt) => ParamModel::Typed { pat: pat_model(&pt.pat), ty: type_model(&pt.ty) },
    }
}

/// Converts a signature; `async` and `unsafe` by whether they are written,
/// the return type as `None` for the default `()`.
#[verifier::external_body]
fn sig_model(sig: &syn::Signature) -> SigModel {
    SigModel {
        is_async: sig.asyncness.is_some(),
        is_unsafe: sig.unsafety.is_some(),
        name: ident_text(&sig.ident),
        generics: generics_model(&sig.generics),
        params: sig.inputs.iter().map(param_model).collect(),
        output: match &sig.output {
            syn::ReturnType::Default => None,
            syn::ReturnType::Type(_, ty) => Some(type_model(ty)),
        },
    }
}

/// Converts a field: visibility, name (none for a tuple field), type, lines.
#[verifier::external_body]
fn field_model(field: &syn::Field) -> FieldModel {
    FieldModel {
        vis: vis_model(&field.vis),
        name: field.ident.as_ref().map(ident_text),
        ty: type_model(&field.ty),
        span: line_span(field),
    }
}

/// Converts the variants of `syn::Fields`.
#[verifier::external_body]
fn fields_model(fields: &syn::Fields) -> FieldsModel {
    match fields {
        syn::Fields::Named(f) => FieldsModel::Named(f.named.iter().map(field_model).collect()),
        syn::Fields::Unnamed(f) => FieldsModel::Unnamed(f.unnamed.iter().map(field_model).collect()),
        syn::Fields::Unit => FieldsModel::Unit,
    }
}

/// Converts an enum variant: its name and fields.
#[verifier::external_body]
fn variant_model(variant: &syn::Variant) -> VariantModel {
    VariantModel { name: ident_text(&variant.ident), fields: fields_model(&variant.fields) }
}

/// Converts a trait item: a method by its signature, anything else as
/// `Other`.
#[verifier::external_body]
fn trait_item_model(item: &syn::TraitItem) -> TraitItemModel {
    match item {
        syn::TraitItem::Fn(f) => TraitItemModel::Fn(sig_model(&f.sig)),
        _ => TraitItemModel::Other,
    }
}

/// Converts a `use` item.
#[verifier::external_body]
fn use_item_model(item: &syn::ItemUse) -> ItemModel {
    ItemModel::Use {
        vis: vis_model(&item.vis),
        tree: use_tree_model(&item.tree),
        tree_text: tokens_text(&item.tree),
        span: line_span(item),
    }
}

/// Converts a function item.
#[verifier::external_body]
fn fn_item_model(item: &syn::ItemFn) -> ItemModel {
    ItemModel::Fn { vis: vis_model(&item.vis), sig: sig_model(&item.sig), span: line_span(item) }
}

/// Converts a struct item.
#[verifier::external_body]
fn struct_item_model(item: &syn::ItemStruct) -> ItemModel {
    ItemModel::Struct {
        attrs: item.attrs.iter().map(attr_model).collect(),
        vis: vis_model(&item.vis),
        name: ident_text(&item.ident),
        fields: fields_model(&item.fields),
        span: line_span(item),
    }
}

/// Converts an enum item.
#[verifier::external_body]
fn enum_item_model(item: &syn::ItemEnum) -> ItemModel {
    ItemModel::Enum {
        attrs: item.attrs.iter().map(attr_model).collect(),
        vis: vis_model(&item.vis),
        name: ident_text(&item.ident),
        variants: item.variants.iter().map(variant_model).collect(),
        span: line_span(item),
    }
}

/// Converts a trait item of the file.
#[verifier::external_body]
fn trait_decl_model(item: &syn::ItemTrait) -> ItemModel {
    ItemModel::Trait {
        vis: vis_model(&item.vis),
        name: ident_text(&item.ident),
        generics: generics_model(&item.generics),
        items: item.items.iter().map(trait_item_model).collect(),
        span: line_span(item),
    }
}

/// Converts a type alias.
#[verifier::external_body]
fn type_alias_model(item: &syn::ItemType) -> ItemModel {
    ItemModel::Type {
        vis: vis_model(&item.vis),
        name: ident_text(&item.ident),
        generics: generics_model(&item.generics),
        span: line_span(item),
    }
}

/// Converts a constant.
#[verifier::external_body]
fn const_item_model(item: &syn::ItemConst) -> ItemModel {
    ItemModel::Const {
        vis: vis_model(&item.vis),
        name: ident_text(&item.ident),
        ty: type_model(&item.ty),
        span: line_span(item),
    }
}

/// Converts a static; its mutability by whether `mut` is written.
#[verifier::external_body]
fn static_item_model(item: &syn::ItemStatic) -> ItemModel {
    ItemModel::Static {
        vis: vis_model(&item.vis),
        is_mut: matches!(item.mutability, syn::StaticMutability::Mut(_)),
        name: ident_text(&item.ident),
        ty: type_model(&item.ty),
        span: line_span(item),
    }
}

/// Converts a module item.
#[verifier::external_body]
fn mod_item_model(item: &syn::ItemMod) -> ItemModel {
    ItemModel::Mod { vis: vis_model(&item.vis), name: ident_text(&item.ident), span: line_span(item) }
}

/// Converts the variants of `syn::Item`; the kinds the outline does not show
/// as `Other`.
#[verifier::external_body]
fn item_model(item: &syn::Item) -> ItemModel {
    match item {
        syn::Item::Use(i) => use_item_model(i),
        syn::Item::Fn(i) => fn_item_model(i),
        syn::Item::Struct(i) => struct_item_model(i),
        syn::Item::Enum(i) => enum_item_model(i),
        syn::Item::Trait(i) => trait_decl_model(i),
        syn::Item::Type(i) => type_alias_model(i),
        syn::Item::Const(i) => const_item_model(i),
        syn::Item::Static(i) => static_item_model(i),
        syn::Item::Mod(i) => mod_item_model(i),
        _ => ItemModel::Other,
    }
}

// ---------------------------------------------------------------------------
// The outline of a source file
// ---------------------------------------------------------------------------

/// The empty outline.
pub open spec fn no_outline() -> (Seq<(Seq<char>, usize, usize)>, Seq<(Seq<char>, usize, usize)>) {
    (Seq::empty(), Seq::empty())
}

/// What `extract_outline` gives for `source`: the outline of the items the
/// parser reads; the empty outline when the text does not parse, or when an
/// item read cannot be rendered (a named member of a shown enum without a
/// name, or an import whose lines lie outside the text: inputs on which the
/// rendering would fail).
pub open spec fn source_outline(source: Seq<char>) -> (Seq<(Seq<char>, usize, usize)>, Seq<(Seq<char>, usize, usize)>) {
    match parsed_items(source) {
        Some(items) => if outline_renderable(source, items) {
            outline_spec(source, items)
        } else {
            no_outline()
        },
        None => no_outline(),
    }
}

/// The outline of a Rust source file: the public items, in order, each as
/// its signature with the lines it covers, and the private `use` items that
/// those signatures refer to, with their source text.
pub fn extract_outline(source: &str) -> (r: OutlineResult)
    ensures
        r@ == source_outline(source@),
{
    let items = match parse_items(source) {
        Some(items) => items,
        None => {
            let r = OutlineResult { imports: Vec::new(), exports: Vec::new() };
            assert(r@ =~= no_outline());
            return r;
        },
    };
    match try_outline_of_items(source, &items) {
        Some(outline) => outline,
        None => {
            let r = OutlineResult { imports: Vec::new(), exports: Vec::new() };
            assert(r@ =~= no_outline());
            r
        },
    }
}

} // verus!
