//! Rendering of the items that an outline shows: derives, structs, enums,
//! traits, aliases, constants, statics, modules and `use` trees.
use vstd::prelude::*;
use crate::model::{
    AttrModel, FieldModel, FieldsModel, GenericsModel, LineSpan, OutlineEntry, SigModel,
    TraitItemModel, TypeModel, UseTreeModel, VariantModel, Vis,
};
use crate::signature::{
    adds, format_generics, format_sig, format_type, format_where_clause, generics_refs,
    generics_text, lemma_adds_chain, lemma_adds_nothing, sig_refs, sig_text, type_names,
    where_refs, where_text,
};
use crate::text::{join, join_strings, string_if, text_if, views};

verus! {

broadcast use vstd::seq::group_seq_axioms;

/// An outline line with the first and last source line it covers.
pub type Entry = (Seq<char>, usize, usize);

pub open spec fn entry_views(v: Seq<OutlineEntry>) -> Seq<Entry> {
    v.map_values(|e: OutlineEntry| e@)
}

pub open spec fn is_public(v: Vis) -> bool {
    v is Public
}

/// Whether the visibility is plain `pub`.
pub fn is_pub(vis: &Vis) -> (b: bool)
    ensures
        b == is_public(*vis),
{
    match vis {
        Vis::Public => true,
        _ => false,
    }
}

/// The lines an item covers; when the parser recorded no positions (both
/// 0), the whole source: line 1 to the number of lines.
pub open spec fn span_lines_of(span: LineSpan, line_count: usize) -> (usize, usize) {
    if span.start == 0 && span.end == 0 {
        (1, line_count)
    } else {
        (span.start, span.end)
    }
}

/// The first and last line of `span`, falling back to the whole source of
/// `line_count` lines when no position was recorded.
pub fn span_lines(span: &LineSpan, line_count: usize) -> (r: (usize, usize))
    ensures
        r == span_lines_of(*span, line_count),
{
    if span.start == 0 && span.end == 0 {
        return (1, line_count);
    }
    (span.start, span.end)
}

pub open spec fn entry_at(text: Seq<char>, span: LineSpan, line_count: usize) -> Entry {
    (text, span_lines_of(span, line_count).0, span_lines_of(span, line_count).1)
}

fn make_entry(signature: String, span: &LineSpan, line_count: usize) -> (r: OutlineEntry)
    ensures
        r@ == entry_at(signature@, *span, line_count),
{
    let (start, end) = span_lines(span, line_count);
    OutlineEntry { signature, start_line: start, end_line: end }
}

// ---------------------------------------------------------------------------
// Derives
// ---------------------------------------------------------------------------

/// A path written as its segments joined by `::`.
pub open spec fn path_text(p: Vec<String>) -> Seq<char> {
    join(views(p@), "::"@)
}

pub open spec fn paths_texts(ps: Seq<Vec<String>>) -> Seq<Seq<char>> {
    ps.map_values(|p: Vec<String>| path_text(p))
}

/// Whether the attribute's path is the identifier `derive`.
pub open spec fn attr_is_derive(a: AttrModel) -> bool {
    a.path_ident matches Some(name) && name@ == "derive"@
}

/// Whether the attribute's path is the identifier `derive`.
pub fn is_derive(attr: &AttrModel) -> (b: bool)
    ensures
        b == attr_is_derive(*attr),
{
    match &attr.path_ident {
        Some(name) => *name == String::from_str("derive"),
        None => false,
    }
}

/// The trait paths a `derive` attribute lists; nothing for other attributes
/// or for arguments that are no list of paths.
pub open spec fn attr_derives(a: AttrModel) -> Seq<Seq<char>> {
    if attr_is_derive(a) {
        match a.arg_paths {
            Some(ps) => paths_texts(ps@),
            None => Seq::empty(),
        }
    } else {
        Seq::empty()
    }
}

/// All derived trait paths, in the order written.
pub open spec fn derive_names(attrs: Seq<AttrModel>) -> Seq<Seq<char>>
    decreases attrs.len(),
{
    if attrs.len() == 0 {
        Seq::empty()
    } else {
        derive_names(attrs.drop_last()) + attr_derives(attrs.last())
    }
}

/// `#[derive(A, B)]` and a newline, or nothing when nothing is derived.
pub open spec fn derive_prefix(attrs: Seq<AttrModel>) -> Seq<char> {
    if derive_names(attrs).len() == 0 {
        Seq::empty()
    } else {
        "#[derive("@ + join(derive_names(attrs), ", "@) + ")]\n"@
    }
}

/// The trait paths listed by the `derive` attributes, in order.
pub fn extract_derives(attrs: &Vec<AttrModel>) -> (r: Vec<String>)
    ensures
        views(r@) == derive_names(attrs@),
{
    let mut derives: Vec<String> = Vec::new();
    let n = attrs.len();
    let mut i: usize = 0;
    proof {
        assert(attrs@.take(0) =~= Seq::<AttrModel>::empty());
        assert(views(derives@) =~= Seq::<Seq<char>>::empty());
    }
    while i < n
        invariant
            n == attrs@.len(),
            i <= n,
            views(derives@) == derive_names(attrs@.take(i as int)),
        decreases n - i,
    {
        let ghost before = views(derives@);
        let attr = &attrs[i];
        if is_derive(attr) {
            match &attr.arg_paths {
                Some(paths) => {
                    let m = paths.len();
                    let mut j: usize = 0;
                    proof {
                        assert(before + paths_texts(paths@.take(0)) =~= before);
                    }
                    while j < m
                        invariant
                            m == paths@.len(),
                            j <= m,
                            views(derives@) == before + paths_texts(paths@.take(j as int)),
                        decreases m - j,
                    {
                        let ghost old_d = derives@;
                        let name = join_strings(&paths[j], "::");
                        derives.push(name);
                        proof {
                            assert(views(derives@) =~= views(old_d).push(name@));
                            assert(paths_texts(paths@.take(j + 1)) =~= paths_texts(
                                paths@.take(j as int),
                            ).push(path_text(paths@[j as int])));
                            assert(views(derives@) =~= before + paths_texts(paths@.take(j + 1)));
                        }
                        j = j + 1;
                    }
                    proof {
                        assert(paths@.take(m as int) =~= paths@);
                    }
                },
                None => {
                    assert(before + Seq::<Seq<char>>::empty() =~= before);
                },
            }
        } else {
            assert(before + Seq::<Seq<char>>::empty() =~= before);
        }
        proof {
            assert(attrs@.take(i + 1).drop_last() =~= attrs@.take(i as int));
        }
        i = i + 1;
    }
    proof {
        assert(attrs@.take(n as int) =~= attrs@);
    }
    derives
}

fn derive_prefix_text(attrs: &Vec<AttrModel>) -> (r: String)
    ensures
        r@ == derive_prefix(attrs@),
{
    let derives = extract_derives(attrs);
    if derives.len() == 0 {
        String::new()
    } else {
        let joined = join_strings(&derives, ", ");
        let mut r = String::from_str("#[derive(");
        r.append(joined.as_str());
        r.append(")]\n");
        r
    }
}

// ---------------------------------------------------------------------------
// Structs
// ---------------------------------------------------------------------------

/// The outline line of a field: shown when it is `pub` and named.
pub open spec fn field_entry(f: FieldModel, line_count: usize) -> Seq<Entry> {
    match f.name {
        Some(name) => if is_public(f.vis) {
            seq![entry_at("  "@ + name@ + ": "@ + f.ty.text@, f.span, line_count)]
        } else {
            Seq::empty()
        },
        None => Seq::empty(),
    }
}

pub open spec fn field_entries(fs: Seq<FieldModel>, line_count: usize) -> Seq<Entry>
    decreases fs.len(),
{
    if fs.len() == 0 {
        Seq::empty()
    } else {
        field_entries(fs.drop_last(), line_count) + field_entry(fs.last(), line_count)
    }
}

/// The names that a shown field's type refers to.
pub open spec fn field_refs(f: FieldModel) -> Set<Seq<char>> {
    if is_public(f.vis) && f.name is Some {
        type_names(f.ty)
    } else {
        Set::empty()
    }
}

pub open spec fn fields_refs(fs: Seq<FieldModel>) -> Set<Seq<char>>
    decreases fs.len(),
{
    if fs.len() == 0 {
        Set::empty()
    } else {
        fields_refs(fs.drop_last()).union(field_refs(fs.last()))
    }
}

/// The named fields of a struct that the outline shows.
pub open spec fn shown_fields(fields: FieldsModel, line_count: usize) -> Seq<Entry> {
    match fields {
        FieldsModel::Named(fs) => field_entries(fs@, line_count),
        _ => Seq::empty(),
    }
}

pub open spec fn struct_refs(fields: FieldsModel) -> Set<Seq<char>> {
    match fields {
        FieldsModel::Named(fs) => fields_refs(fs@),
        _ => Set::empty(),
    }
}

/// A struct: one line `struct Name` when no field is shown, else a header
/// `struct Name {`, one line per shown field, and a closing `}` without
/// position.
pub open spec fn struct_entries(
    attrs: Seq<AttrModel>,
    name: Seq<char>,
    fields: FieldsModel,
    span: LineSpan,
    line_count: usize,
) -> Seq<Entry> {
    let shown = shown_fields(fields, line_count);
    let head = derive_prefix(attrs) + "struct "@ + name;
    if shown.len() == 0 {
        seq![entry_at(head, span, line_count)]
    } else {
        seq![entry_at(head + " {"@, span, line_count)] + shown + seq![("}"@, 0usize, 0usize)]
    }
}

fn closing_entry() -> (r: OutlineEntry)
    ensures
        r@ == ("}"@, 0usize, 0usize),
{
    OutlineEntry { signature: String::from_str("}"), start_line: 0, end_line: 0 }
}

/// The outline lines of a struct, recording the names its shown fields'
/// types refer to.
pub fn format_struct_entries(
    attrs: &Vec<AttrModel>,
    name: &String,
    fields: &FieldsModel,
    span: &LineSpan,
    line_count: usize,
    type_refs: &mut Vec<String>,
) -> (r: Vec<OutlineEntry>)
    ensures
        entry_views(r@) == struct_entries(attrs@, name@, *fields, *span, line_count),
        adds(old(type_refs)@, final(type_refs)@, struct_refs(*fields)),
{
    let derive_str = derive_prefix_text(attrs);
    let ghost start = type_refs@;
    let mut field_entries_v: Vec<OutlineEntry> = Vec::new();
    match fields {
        FieldsModel::Named(fs) => {
            let n = fs.len();
            let mut i: usize = 0;
            proof {
                assert(fs@.take(0) =~= Seq::<FieldModel>::empty());
                lemma_adds_nothing(start);
                assert(entry_views(field_entries_v@) =~= Seq::<Entry>::empty());
            }
            while i < n
                invariant
                    n == fs@.len(),
                    i <= n,
                    entry_views(field_entries_v@) == field_entries(fs@.take(i as int), line_count),
                    adds(start, type_refs@, fields_refs(fs@.take(i as int))),
                decreases n - i,
            {
                let ghost before_refs = type_refs@;
                let ghost before = field_entries_v@;
                let field = &fs[i];
                proof {
                    assert(fs@.take(i + 1).drop_last() =~= fs@.take(i as int));
                }
                if is_pub(&field.vis) {
                    match &field.name {
                        Some(ident) => {
                            let ty = format_type(&field.ty, type_refs);
                            let mut sig = String::from_str("  ");
                            sig.append(ident.as_str());
                            sig.append(": ");
                            sig.append(ty.as_str());
                            let e = make_entry(sig, &field.span, line_count);
                            field_entries_v.push(e);
                            proof {
                                assert(entry_views(field_entries_v@) =~= entry_views(before).push(
                                    e@,
                                ));
                            }
                        },
                        None => {
                            proof {
                                lemma_adds_nothing(before_refs);
                                assert(entry_views(before) + Seq::<Entry>::empty()
                                    =~= entry_views(before));
                            }
                        },
                    }
                } else {
                    proof {
                        lemma_adds_nothing(before_refs);
                        assert(entry_views(before) + Seq::<Entry>::empty() =~= entry_views(before));
                    }
                }
                proof {
                    lemma_adds_chain(
                        start,
                        before_refs,
                        type_refs@,
                        fields_refs(fs@.take(i as int)),
                        field_refs(fs@[i as int]),
                    );
                }
                i = i + 1;
            }
            proof {
                assert(fs@.take(n as int) =~= fs@);
            }
        },
        _ => {
            proof {
                lemma_adds_nothing(start);
                assert(entry_views(field_entries_v@) =~= Seq::<Entry>::empty());
            }
        },
    }
    let mut head = derive_str;
    head.append("struct ");
    head.append(name.as_str());
    let mut entries: Vec<OutlineEntry> = Vec::new();
    if field_entries_v.len() == 0 {
        let e = make_entry(head, span, line_count);
        entries.push(e);
        proof {
            assert(entry_views(entries@) =~= seq![e@]);
        }
    } else {
        head.append(" {");
        let e = make_entry(head, span, line_count);
        entries.push(e);
        let ghost shown = field_entries_v@;
        entries.append(&mut field_entries_v);
        let c = closing_entry();
        entries.push(c);
        proof {
            assert(entry_views(entries@) =~= seq![e@] + entry_views(shown) + seq![c@]);
        }
    }
    entries
}

// ---------------------------------------------------------------------------
// Enums
// ---------------------------------------------------------------------------

/// A named member of a variant; the parser always gives named fields a name.
pub open spec fn member_text(f: FieldModel) -> Seq<char> {
    match f.name {
        Some(name) => name@ + ": "@ + f.ty.text@,
        None => Seq::empty(),
    }
}

pub open spec fn field_type_texts(fs: Seq<FieldModel>) -> Seq<Seq<char>> {
    fs.map_values(|f: FieldModel| f.ty.text@)
}

pub open spec fn member_texts(fs: Seq<FieldModel>) -> Seq<Seq<char>> {
    fs.map_values(|f: FieldModel| member_text(f))
}

/// `(T1, T2)`, ` { a: T1, b: T2 }`, or nothing for a unit variant.
pub open spec fn variant_fields_text(fields: FieldsModel) -> Seq<char> {
    match fields {
        FieldsModel::Unit => Seq::empty(),
        FieldsModel::Unnamed(fs) => "("@ + join(field_type_texts(fs@), ", "@) + ")"@,
        FieldsModel::Named(fs) => " { "@ + join(member_texts(fs@), ", "@) + " }"@,
    }
}

/// The outline line of a variant, without position.
pub open spec fn variant_entry(v: VariantModel) -> Entry {
    ("  "@ + v.name@ + variant_fields_text(v.fields), 0usize, 0usize)
}

pub open spec fn variant_entries(vs: Seq<VariantModel>) -> Seq<Entry> {
    vs.map_values(|v: VariantModel| variant_entry(v))
}

/// The names that the types of all fields of `fs` refer to.
pub open spec fn field_types_refs(fs: Seq<FieldModel>) -> Set<Seq<char>>
    decreases fs.len(),
{
    if fs.len() == 0 {
        Set::empty()
    } else {
        field_types_refs(fs.drop_last()).union(type_names(fs.last().ty))
    }
}

pub open spec fn variant_refs(v: VariantModel) -> Set<Seq<char>> {
    match v.fields {
        FieldsModel::Unit => Set::empty(),
        FieldsModel::Unnamed(fs) => field_types_refs(fs@),
        FieldsModel::Named(fs) => field_types_refs(fs@),
    }
}

pub open spec fn variants_refs(vs: Seq<VariantModel>) -> Set<Seq<char>>
    decreases vs.len(),
{
    if vs.len() == 0 {
        Set::empty()
    } else {
        variants_refs(vs.drop_last()).union(variant_refs(vs.last()))
    }
}

/// A header `enum Name {`, one line per variant, and a closing `}`.
pub open spec fn enum_entries(
    attrs: Seq<AttrModel>,
    name: Seq<char>,
    variants: Seq<VariantModel>,
    span: LineSpan,
    line_count: usize,
) -> Seq<Entry> {
    seq![entry_at(derive_prefix(attrs) + "enum "@ + name + " {"@, span, line_count)]
        + variant_entries(variants) + seq![("}"@, 0usize, 0usize)]
}

/// Every named member of every variant has a name.
pub open spec fn members_named(variants: Seq<VariantModel>) -> bool {
    forall|j: int|
        0 <= j < variants.len() ==> match #[trigger] variants[j].fields {
            FieldsModel::Named(fs) => forall|k: int| 0 <= k < fs@.len() ==> (#[trigger] fs@[k]).name is Some,
            _ => true,
        }
}

/// Renders the types of `fs` (recording the names they refer to) and,
/// where `named`, prefixes each with its field name.
fn format_members(fs: &Vec<FieldModel>, named: bool, type_refs: &mut Vec<String>) -> (r: Vec<String>)
    requires
        named ==> forall|k: int| 0 <= k < fs@.len() ==> (#[trigger] fs@[k]).name is Some,
    ensures
        views(r@) == (if named {
            member_texts(fs@)
        } else {
            field_type_texts(fs@)
        }),
        adds(old(type_refs)@, final(type_refs)@, field_types_refs(fs@)),
{
    let ghost start = type_refs@;
    let mut parts: Vec<String> = Vec::new();
    let n = fs.len();
    let mut i: usize = 0;
    proof {
        assert(fs@.take(0) =~= Seq::<FieldModel>::empty());
        lemma_adds_nothing(start);
    }
    while i < n
        invariant
            n == fs@.len(),
            i <= n,
            named ==> forall|k: int| 0 <= k < fs@.len() ==> (#[trigger] fs@[k]).name is Some,
            views(parts@) == (if named {
                member_texts(fs@.take(i as int))
            } else {
                field_type_texts(fs@.take(i as int))
            }),
            adds(start, type_refs@, field_types_refs(fs@.take(i as int))),
        decreases n - i,
    {
        let ghost before_refs = type_refs@;
        let ghost old_parts = parts@;
        let f = &fs[i];
        let ty = format_type(&f.ty, type_refs);
        let part = if named {
            match &f.name {
                Some(ident) => {
                    let mut s = ident.clone();
                    s.append(": ");
                    s.append(ty.as_str());
                    s
                },
                None => String::new(),
            }
        } else {
            ty
        };
        parts.push(part);
        proof {
            let t1 = fs@.take(i + 1);
            assert(t1.drop_last() =~= fs@.take(i as int));
            assert(views(parts@) =~= views(old_parts).push(part@));
            assert(member_texts(t1) =~= member_texts(fs@.take(i as int)).push(
                member_text(fs@[i as int]),
            ));
            assert(field_type_texts(t1) =~= field_type_texts(fs@.take(i as int)).push(
                fs@[i as int].ty.text@,
            ));
            lemma_adds_chain(
                start,
                before_refs,
                type_refs@,
                field_types_refs(fs@.take(i as int)),
                type_names(fs@[i as int].ty),
            );
        }
        i = i + 1;
    }
    proof {
        assert(fs@.take(n as int) =~= fs@);
    }
    parts
}

fn format_variant(v: &VariantModel, type_refs: &mut Vec<String>) -> (r: OutlineEntry)
    requires
        match v.fields {
            FieldsModel::Named(fs) => forall|k: int| 0 <= k < fs@.len() ==> (#[trigger] fs@[k]).name is Some,
            _ => true,
        },
    ensures
        r@ == variant_entry(*v),
        adds(old(type_refs)@, final(type_refs)@, variant_refs(*v)),
{
    let fields_str = match &v.fields {
        FieldsModel::Unit => {
            proof {
                lemma_adds_nothing(type_refs@);
            }
            String::new()
        },
        FieldsModel::Unnamed(fs) => {
            let types = format_members(fs, false, type_refs);
            let joined = join_strings(&types, ", ");
            let mut s = String::from_str("(");
            s.append(joined.as_str());
            s.append(")");
            s
        },
        FieldsModel::Named(fs) => {
            let members = format_members(fs, true, type_refs);
            let joined = join_strings(&members, ", ");
            let mut s = String::from_str(" { ");
            s.append(joined.as_str());
            s.append(" }");
            s
        },
    };
    let mut sig = String::from_str("  ");
    sig.append(v.name.as_str());
    sig.append(fields_str.as_str());
    OutlineEntry { signature: sig, start_line: 0, end_line: 0 }
}

/// The outline lines of an enum, recording the names its variants' field
/// types refer to.
pub fn format_enum_entries(
    attrs: &Vec<AttrModel>,
    name: &String,
    variants: &Vec<VariantModel>,
    span: &LineSpan,
    line_count: usize,
    type_refs: &mut Vec<String>,
) -> (r: Vec<OutlineEntry>)
    requires
        members_named(variants@),
    ensures
        entry_views(r@) == enum_entries(attrs@, name@, variants@, *span, line_count),
        adds(old(type_refs)@, final(type_refs)@, variants_refs(variants@)),
{
    let derive_str = derive_prefix_text(attrs);
    let mut head = derive_str;
    head.append("enum ");
    head.append(name.as_str());
    head.append(" {");
    let mut entries: Vec<OutlineEntry> = Vec::new();
    let e = make_entry(head, span, line_count);
    entries.push(e);
    let ghost start = type_refs@;
    let n = variants.len();
    let mut i: usize = 0;
    proof {
        assert(variants@.take(0) =~= Seq::<VariantModel>::empty());
        lemma_adds_nothing(start);
        assert(entry_views(entries@) =~= seq![e@] + variant_entries(variants@.take(0)));
    }
    while i < n
        invariant
            n == variants@.len(),
            i <= n,
            members_named(variants@),
            entry_views(entries@) == seq![e@] + variant_entries(variants@.take(i as int)),
            adds(start, type_refs@, variants_refs(variants@.take(i as int))),
        decreases n - i,
    {
        let ghost before_refs = type_refs@;
        let ghost before = entries@;
        let v = &variants[i];
        proof {
            let vj = variants@[i as int];
            assert(match vj.fields {
                FieldsModel::Named(fs) => forall|k: int| 0 <= k < fs@.len() ==> (#[trigger] fs@[k]).name is Some,
                _ => true,
            });
        }
        let ve = format_variant(v, type_refs);
        entries.push(ve);
        proof {
            let t1 = variants@.take(i + 1);
            assert(t1.drop_last() =~= variants@.take(i as int));
            assert(variant_entries(t1) =~= variant_entries(variants@.take(i as int)).push(
                variant_entry(variants@[i as int]),
            ));
            assert(entry_views(entries@) =~= entry_views(before).push(ve@));
            assert(entry_views(entries@) =~= seq![e@] + variant_entries(t1));
            lemma_adds_chain(
                start,
                before_refs,
                type_refs@,
                variants_refs(variants@.take(i as int)),
                variant_refs(variants@[i as int]),
            );
        }
        i = i + 1;
    }
    proof {
        assert(variants@.take(n as int) =~= variants@);
    }
    let ghost before = entries@;
    let c = closing_entry();
    entries.push(c);
    proof {
        assert(entry_views(entries@) =~= entry_views(before).push(c@));
    }
    entries
}

// ---------------------------------------------------------------------------
// Traits
// ---------------------------------------------------------------------------

/// The method signatures among the items of a trait, in order.
pub open spec fn trait_methods(items: Seq<TraitItemModel>) -> Seq<SigModel>
    decreases items.len(),
{
    if items.len() == 0 {
        Seq::empty()
    } else {
        trait_methods(items.drop_last()) + match items.last() {
            TraitItemModel::Fn(sig) => seq![sig],
            TraitItemModel::Other => Seq::empty(),
        }
    }
}

pub open spec fn method_lines(ms: Seq<SigModel>) -> Seq<Seq<char>> {
    ms.map_values(|m: SigModel| "  "@ + sig_text(m) + ";"@)
}

pub open spec fn methods_refs(ms: Seq<SigModel>) -> Set<Seq<char>>
    decreases ms.len(),
{
    if ms.len() == 0 {
        Set::empty()
    } else {
        methods_refs(ms.drop_last()).union(sig_refs(ms.last()))
    }
}

/// `trait Name<G> where W`, followed, when the trait declares methods, by
/// ` {`, one indented `sig;` line per method, and `}`.
pub open spec fn trait_text(name: Seq<char>, generics: GenericsModel, items: Seq<TraitItemModel>) -> Seq<char> {
    let head = "trait "@ + name + generics_text(generics) + where_text(generics);
    if trait_methods(items).len() == 0 {
        head
    } else {
        head + " {\n"@ + join(method_lines(trait_methods(items)), "\n"@) + "\n}"@
    }
}

pub open spec fn trait_refs(generics: GenericsModel, items: Seq<TraitItemModel>) -> Set<Seq<char>> {
    generics_refs(generics).union(where_refs(generics)).union(methods_refs(trait_methods(items)))
}

/// Renders a trait with its method signatures, recording the names they
/// refer to.
pub fn format_trait_signature(
    name: &String,
    generics: &GenericsModel,
    items: &Vec<TraitItemModel>,
    type_refs: &mut Vec<String>,
) -> (r: String)
    ensures
        r@ == trait_text(name@, *generics, items@),
        adds(old(type_refs)@, final(type_refs)@, trait_refs(*generics, items@)),
{
    let ghost r0 = type_refs@;
    let generics_str = format_generics(generics, type_refs);
    let ghost r1 = type_refs@;
    let where_str = format_where_clause(generics, type_refs);
    let ghost r2 = type_refs@;
    let mut methods: Vec<String> = Vec::new();
    let n = items.len();
    let mut i: usize = 0;
    proof {
        assert(items@.take(0) =~= Seq::<TraitItemModel>::empty());
        lemma_adds_nothing(r2);
        assert(views(methods@) =~= method_lines(trait_methods(items@.take(0))));
    }
    while i < n
        invariant
            n == items@.len(),
            i <= n,
            views(methods@) == method_lines(trait_methods(items@.take(i as int))),
            adds(r2, type_refs@, methods_refs(trait_methods(items@.take(i as int)))),
        decreases n - i,
    {
        let ghost before_refs = type_refs@;
        let ghost before = methods@;
        let ghost t0 = items@.take(i as int);
        let ghost t1 = items@.take(i + 1);
        proof {
            assert(t1.drop_last() =~= t0);
        }
        match &items[i] {
            TraitItemModel::Fn(sig) => {
                let s = format_sig(sig, type_refs);
                let mut line = String::from_str("  ");
                line.append(s.as_str());
                line.append(";");
                methods.push(line);
                proof {
                    assert(trait_methods(t1) =~= trait_methods(t0).push(*sig));
                    assert(trait_methods(t1).drop_last() =~= trait_methods(t0));
                    assert(views(methods@) =~= views(before).push(line@));
                    assert(method_lines(trait_methods(t1)) =~= method_lines(trait_methods(t0)).push(
                        line@,
                    ));
                    lemma_adds_chain(
                        r2,
                        before_refs,
                        type_refs@,
                        methods_refs(trait_methods(t0)),
                        sig_refs(*sig),
                    );
                }
            },
            TraitItemModel::Other => {
                proof {
                    assert(trait_methods(t1) =~= trait_methods(t0));
                }
            },
        }
        i = i + 1;
    }
    proof {
        assert(items@.take(n as int) =~= items@);
        lemma_adds_chain(r0, r1, r2, generics_refs(*generics), where_refs(*generics));
        lemma_adds_chain(
            r0,
            r2,
            type_refs@,
            generics_refs(*generics).union(where_refs(*generics)),
            methods_refs(trait_methods(items@)),
        );
    }
    let mut r = String::from_str("trait ");
    r.append(name.as_str());
    r.append(generics_str.as_str());
    r.append(where_str.as_str());
    if methods.len() == 0 {
        r
    } else {
        let joined = join_strings(&methods, "\n");
        r.append(" {\n");
        r.append(joined.as_str());
        r.append("\n}");
        r
    }
}

// ---------------------------------------------------------------------------
// Aliases, constants, statics, modules
// ---------------------------------------------------------------------------

/// `type Name<G>`: the aliased type is not shown.
pub open spec fn type_alias_text(name: Seq<char>, generics: GenericsModel) -> Seq<char> {
    "type "@ + name + generics_text(generics)
}

/// Renders a type alias by its name and generics.
pub fn format_type_alias_signature(
    name: &String,
    generics: &GenericsModel,
    type_refs: &mut Vec<String>,
) -> (r: String)
    ensures
        r@ == type_alias_text(name@, *generics),
        adds(old(type_refs)@, final(type_refs)@, generics_refs(*generics)),
{
    let g = format_generics(generics, type_refs);
    let mut r = String::from_str("type ");
    r.append(name.as_str());
    r.append(g.as_str());
    r
}

/// `const NAME: T`
pub open spec fn const_text(name: Seq<char>, ty: TypeModel) -> Seq<char> {
    "const "@ + name + ": "@ + ty.text@
}

/// Renders a constant by its name and type.
pub fn format_const_signature(name: &String, ty: &TypeModel, type_refs: &mut Vec<String>) -> (r:
    String)
    ensures
        r@ == const_text(name@, *ty),
        adds(old(type_refs)@, final(type_refs)@, type_names(*ty)),
{
    let t = format_type(ty, type_refs);
    let mut r = String::from_str("const ");
    r.append(name.as_str());
    r.append(": ");
    r.append(t.as_str());
    r
}

/// `static mut NAME: T` (`mut ` only for a mutable static)
pub open spec fn static_text(is_mut: bool, name: Seq<char>, ty: TypeModel) -> Seq<char> {
    "static "@ + text_if(is_mut, "mut "@) + name + ": "@ + ty.text@
}

/// Renders a static by its mutability, name and type.
pub fn format_static_signature(
    is_mut: bool,
    name: &String,
    ty: &TypeModel,
    type_refs: &mut Vec<String>,
) -> (r: String)
    ensures
        r@ == static_text(is_mut, name@, *ty),
        adds(old(type_refs)@, final(type_refs)@, type_names(*ty)),
{
    let mutability = string_if(is_mut, "mut ");
    let t = format_type(ty, type_refs);
    let mut r = String::from_str("static ");
    r.append(mutability.as_str());
    r.append(name.as_str());
    r.append(": ");
    r.append(t.as_str());
    r
}

/// `mod name`
pub open spec fn mod_text(name: Seq<char>) -> Seq<char> {
    "mod "@ + name
}

/// Renders a module by its name.
pub fn format_mod_signature(name: &String) -> (r: String)
    ensures
        r@ == mod_text(name@),
{
    let mut r = String::from_str("mod ");
    r.append(name.as_str());
    r
}

// ---------------------------------------------------------------------------
// Use trees
// ---------------------------------------------------------------------------

pub open spec fn group_len(t: UseTreeModel) -> nat {
    match t {
        UseTreeModel::Group(items) => items@.len(),
        _ => 0,
    }
}

/// The names that a `use` tree brings into scope: each imported name, or
/// its new name when renamed; a glob brings none that can be told.
pub open spec fn use_names(t: UseTreeModel) -> Seq<Seq<char>>
    decreases t, group_len(t) + 1,
{
    match t {
        UseTreeModel::Path(sub) => use_names(*sub),
        UseTreeModel::Name(name) => seq![name@],
        UseTreeModel::Rename(rename) => seq![rename@],
        UseTreeModel::Glob => Seq::empty(),
        UseTreeModel::Group(items) => group_names(t, items@.len()),
    }
}

/// The names of the first `k` trees of a group.
pub open spec fn group_names(g: UseTreeModel, k: nat) -> Seq<Seq<char>>
    decreases g, k,
{
    match g {
        UseTreeModel::Group(items) => {
            if k == 0 || k > items@.len() {
                Seq::empty()
            } else {
                group_names(g, (k - 1) as nat) + use_names(items@[k - 1])
            }
        },
        _ => Seq::empty(),
    }
}

/// The names that `tree` brings into scope, in order.
pub fn collect_use_names(tree: &UseTreeModel) -> (r: Vec<String>)
    ensures
        views(r@) == use_names(*tree),
{
    let mut names: Vec<String> = Vec::new();
    assert(views(names@) =~= Seq::<Seq<char>>::empty());
    collect_use_names_inner(tree, &mut names);
    assert(Seq::<Seq<char>>::empty() + use_names(*tree) =~= use_names(*tree));
    names
}

/// Appends to `names` the names that `tree` brings into scope.
pub fn collect_use_names_inner(tree: &UseTreeModel, names: &mut Vec<String>)
    ensures
        views(final(names)@) == views(old(names)@) + use_names(*tree),
    decreases tree,
{
    let ghost start = views(names@);
    match tree {
        UseTreeModel::Path(sub) => {
            collect_use_names_inner(sub, names);
        },
        UseTreeModel::Name(name) => {
            names.push(name.clone());
            assert(views(names@) =~= start + use_names(*tree));
        },
        UseTreeModel::Rename(rename) => {
            names.push(rename.clone());
            assert(views(names@) =~= start + use_names(*tree));
        },
        UseTreeModel::Glob => {
            assert(views(names@) =~= start + use_names(*tree));
        },
        UseTreeModel::Group(items) => {
            let n = items.len();
            let mut i: usize = 0;
            assert(views(names@) =~= start + group_names(*tree, 0));
            while i < n
                invariant
                    n == items@.len(),
                    i <= n,
                    *tree == UseTreeModel::Group(*items),
                    views(names@) == start + group_names(*tree, i as nat),
                decreases n - i,
            {
                let ghost before = views(names@);
                proof {
                    assert(decreases_to!(*tree => items@[i as int]));
                }
                collect_use_names_inner(&items[i], names);
                assert(views(names@) =~= start + group_names(*tree, (i + 1) as nat));
                i = i + 1;
            }
            assert(views(names@) =~= start + use_names(*tree));
        },
    }
}

} // verus!
