//! The outline of a file: the entries of its public items, in source order,
//! and the private `use` items that the shown signatures refer to.
use vstd::prelude::*;
use crate::items::{
    collect_use_names, const_text, entry_at, entry_views, enum_entries, format_const_signature,
    format_enum_entries, format_mod_signature, format_static_signature, format_struct_entries,
    format_trait_signature, format_type_alias_signature, is_pub, is_public, members_named,
    mod_text, span_lines, static_text, struct_entries, struct_refs, trait_refs,
    trait_text, type_alias_text, use_names, variants_refs, Entry,
};
use crate::model::{
    FieldModel, FieldsModel, ImportEntry, ItemModel, LineSpan, OutlineEntry, OutlineResult, VariantModel,
};
use crate::signature::{
    adds, format_sig, generics_refs, lemma_adds_nothing, sig_refs, sig_text,
    type_names,
};
use crate::text::{join, join_strings, lines_of, source_lines, string_of_chars, string_set, views};

verus! {

broadcast use vstd::seq::group_seq_axioms;

// ---------------------------------------------------------------------------
// Exports
// ---------------------------------------------------------------------------

/// The outline entries of one item: nothing unless it is `pub`.
pub open spec fn item_exports(item: ItemModel, line_count: usize) -> Seq<Entry> {
    match item {
        ItemModel::Use { vis, tree, tree_text, span } => if is_public(vis) {
            seq![entry_at("use "@ + tree_text@, span, line_count)]
        } else {
            Seq::empty()
        },
        ItemModel::Fn { vis, sig, span } => if is_public(vis) {
            seq![entry_at(sig_text(sig), span, line_count)]
        } else {
            Seq::empty()
        },
        ItemModel::Struct { attrs, vis, name, fields, span } => if is_public(vis) {
            struct_entries(attrs@, name@, fields, span, line_count)
        } else {
            Seq::empty()
        },
        ItemModel::Enum { attrs, vis, name, variants, span } => if is_public(vis) {
            enum_entries(attrs@, name@, variants@, span, line_count)
        } else {
            Seq::empty()
        },
        ItemModel::Trait { vis, name, generics, items, span } => if is_public(vis) {
            seq![entry_at(trait_text(name@, generics, items@), span, line_count)]
        } else {
            Seq::empty()
        },
        ItemModel::Type { vis, name, generics, span } => if is_public(vis) {
            seq![entry_at(type_alias_text(name@, generics), span, line_count)]
        } else {
            Seq::empty()
        },
        ItemModel::Const { vis, name, ty, span } => if is_public(vis) {
            seq![entry_at(const_text(name@, ty), span, line_count)]
        } else {
            Seq::empty()
        },
        ItemModel::Static { vis, is_mut, name, ty, span } => if is_public(vis) {
            seq![entry_at(static_text(is_mut, name@, ty), span, line_count)]
        } else {
            Seq::empty()
        },
        ItemModel::Mod { vis, name, span } => if is_public(vis) {
            seq![entry_at(mod_text(name@), span, line_count)]
        } else {
            Seq::empty()
        },
        ItemModel::Other => Seq::empty(),
    }
}

/// The names that the shown signature of one item refers to: nothing unless
/// it is `pub`; a `use` or `mod` item refers to none.
pub open spec fn item_refs(item: ItemModel) -> Set<Seq<char>> {
    match item {
        ItemModel::Fn { vis, sig, span } => if is_public(vis) {
            sig_refs(sig)
        } else {
            Set::empty()
        },
        ItemModel::Struct { attrs, vis, name, fields, span } => if is_public(vis) {
            struct_refs(fields)
        } else {
            Set::empty()
        },
        ItemModel::Enum { attrs, vis, name, variants, span } => if is_public(vis) {
            variants_refs(variants@)
        } else {
            Set::empty()
        },
        ItemModel::Trait { vis, name, generics, items, span } => if is_public(vis) {
            trait_refs(generics, items@)
        } else {
            Set::empty()
        },
        ItemModel::Type { vis, name, generics, span } => if is_public(vis) {
            generics_refs(generics)
        } else {
            Set::empty()
        },
        ItemModel::Const { vis, name, ty, span } => if is_public(vis) {
            type_names(ty)
        } else {
            Set::empty()
        },
        ItemModel::Static { vis, is_mut, name, ty, span } => if is_public(vis) {
            type_names(ty)
        } else {
            Set::empty()
        },
        _ => Set::empty(),
    }
}

/// The entries of all items, in source order.
pub open spec fn exports_of(items: Seq<ItemModel>, line_count: usize) -> Seq<Entry>
    decreases items.len(),
{
    if items.len() == 0 {
        Seq::empty()
    } else {
        exports_of(items.drop_last(), line_count) + item_exports(items.last(), line_count)
    }
}

/// The names that the shown signatures of all items refer to.
pub open spec fn refs_of(items: Seq<ItemModel>) -> Set<Seq<char>>
    decreases items.len(),
{
    if items.len() == 0 {
        Set::empty()
    } else {
        refs_of(items.drop_last()).union(item_refs(items.last()))
    }
}

/// An item whose entries can be rendered: the members of a shown enum's
/// named variants have names (as the parser always gives them).
pub open spec fn item_renderable(item: ItemModel) -> bool {
    match item {
        ItemModel::Enum { attrs, vis, name, variants, span } => is_public(vis) ==> members_named(
            variants@,
        ),
        _ => true,
    }
}

fn item_entries(item: &ItemModel, line_count: usize, type_refs: &mut Vec<String>) -> (r: Vec<
    OutlineEntry,
>)
    requires
        item_renderable(*item),
    ensures
        entry_views(r@) == item_exports(*item, line_count),
        adds(old(type_refs)@, final(type_refs)@, item_refs(*item)),
{
    let mut entries: Vec<OutlineEntry> = Vec::new();
    let ghost start = type_refs@;
    match item {
        ItemModel::Use { vis, tree, tree_text, span } => {
            proof {
                lemma_adds_nothing(start);
            }
            if is_pub(vis) {
                let mut sig = String::from_str("use ");
                sig.append(tree_text.as_str());
                let (s, e) = span_lines(span, line_count);
                entries.push(OutlineEntry { signature: sig, start_line: s, end_line: e });
            }
        },
        ItemModel::Fn { vis, sig, span } => {
            if is_pub(vis) {
                let text = format_sig(sig, type_refs);
                let (s, e) = span_lines(span, line_count);
                entries.push(OutlineEntry { signature: text, start_line: s, end_line: e });
            } else {
                proof {
                    lemma_adds_nothing(start);
                }
            }
        },
        ItemModel::Struct { attrs, vis, name, fields, span } => {
            if is_pub(vis) {
                entries = format_struct_entries(attrs, name, fields, span, line_count, type_refs);
            } else {
                proof {
                    lemma_adds_nothing(start);
                }
            }
        },
        ItemModel::Enum { attrs, vis, name, variants, span } => {
            if is_pub(vis) {
                entries = format_enum_entries(attrs, name, variants, span, line_count, type_refs);
            } else {
                proof {
                    lemma_adds_nothing(start);
                }
            }
        },
        ItemModel::Trait { vis, name, generics, items, span } => {
            if is_pub(vis) {
                let text = format_trait_signature(name, generics, items, type_refs);
                let (s, e) = span_lines(span, line_count);
                entries.push(OutlineEntry { signature: text, start_line: s, end_line: e });
            } else {
                proof {
                    lemma_adds_nothing(start);
                }
            }
        },
        ItemModel::Type { vis, name, generics, span } => {
            if is_pub(vis) {
                let text = format_type_alias_signature(name, generics, type_refs);
                let (s, e) = span_lines(span, line_count);
                entries.push(OutlineEntry { signature: text, start_line: s, end_line: e });
            } else {
                proof {
                    lemma_adds_nothing(start);
                }
            }
        },
        ItemModel::Const { vis, name, ty, span } => {
            if is_pub(vis) {
                let text = format_const_signature(name, ty, type_refs);
                let (s, e) = span_lines(span, line_count);
                entries.push(OutlineEntry { signature: text, start_line: s, end_line: e });
            } else {
                proof {
                    lemma_adds_nothing(start);
                }
            }
        },
        ItemModel::Static { vis, is_mut, name, ty, span } => {
            if is_pub(vis) {
                let text = format_static_signature(*is_mut, name, ty, type_refs);
                let (s, e) = span_lines(span, line_count);
                entries.push(OutlineEntry { signature: text, start_line: s, end_line: e });
            } else {
                proof {
                    lemma_adds_nothing(start);
                }
            }
        },
        ItemModel::Mod { vis, name, span } => {
            proof {
                lemma_adds_nothing(start);
            }
            if is_pub(vis) {
                let text = format_mod_signature(name);
                let (s, e) = span_lines(span, line_count);
                entries.push(OutlineEntry { signature: text, start_line: s, end_line: e });
            }
        },
        ItemModel::Other => {
            proof {
                lemma_adds_nothing(start);
            }
        },
    }
    assert(entry_views(entries@) =~= item_exports(*item, line_count));
    entries
}

// ---------------------------------------------------------------------------
// Imports
// ---------------------------------------------------------------------------

/// Some name of `names` is among `refs`.
pub open spec fn names_referenced(names: Seq<Seq<char>>, refs: Set<Seq<char>>) -> bool {
    exists|k: int| 0 <= k < names.len() && refs.contains(#[trigger] names[k])
}

/// The text of lines `start ..= end` (1-based) of `lines`, clipped at the
/// last line and joined by newlines; nothing when no position was recorded.
pub open spec fn source_text(lines: Seq<Seq<char>>, span: LineSpan) -> Seq<char> {
    if span.start == 0 {
        Seq::empty()
    } else {
        let last = if span.end < lines.len() {
            span.end as int
        } else {
            lines.len() as int
        };
        join(lines.subrange(span.start - 1, last), "\n"@)
    }
}

/// The lines of `span` can be cut out of `line_count` lines: no position was
/// recorded, or the first line is at most one past both the last line and
/// the end of the text.
pub open spec fn span_in_lines(span: LineSpan, line_count: nat) -> bool {
    span.start == 0 || (span.start - 1 <= span.end && span.start - 1 <= line_count)
}

/// The import that one item gives: a private `use` item of which some
/// imported name is referenced by a shown signature.
pub open spec fn item_import(item: ItemModel, lines: Seq<Seq<char>>, refs: Set<Seq<char>>) -> Seq<
    Entry,
> {
    match item {
        ItemModel::Use { vis, tree, tree_text, span } => if !is_public(vis) && names_referenced(
            use_names(tree),
            refs,
        ) {
            seq![entry_at(source_text(lines, span), span, lines.len() as usize)]
        } else {
            Seq::empty()
        },
        _ => Seq::empty(),
    }
}

pub open spec fn imports_of(
    items: Seq<ItemModel>,
    lines: Seq<Seq<char>>,
    refs: Set<Seq<char>>,
) -> Seq<Entry>
    decreases items.len(),
{
    if items.len() == 0 {
        Seq::empty()
    } else {
        imports_of(items.drop_last(), lines, refs) + item_import(items.last(), lines, refs)
    }
}

/// An item whose import (if it gives one) can be cut out of the source.
pub open spec fn import_sliceable(item: ItemModel, line_count: nat, refs: Set<Seq<char>>) -> bool {
    match item {
        ItemModel::Use { vis, tree, tree_text, span } => (!is_public(vis) && names_referenced(
            use_names(tree),
            refs,
        )) ==> span_in_lines(span, line_count),
        _ => true,
    }
}

/// The text of the source lines that `span` covers, joined by newlines.
pub fn source_text_for_span(lines: &Vec<Vec<char>>, span: &LineSpan) -> (r: String)
    requires
        span_in_lines(*span, lines@.len()),
    ensures
        r@ == source_text(lines@.map_values(|l: Vec<char>| l@), *span),
{
    let ghost ls = lines@.map_values(|l: Vec<char>| l@);
    if span.start == 0 {
        return String::new();
    }
    let start_idx = span.start - 1;
    let end_idx = if span.end < lines.len() {
        span.end
    } else {
        lines.len()
    };
    let mut parts: Vec<String> = Vec::new();
    let mut k = start_idx;
    while k < end_idx
        invariant
            start_idx <= k <= end_idx <= lines@.len(),
            ls == lines@.map_values(|l: Vec<char>| l@),
            views(parts@) == ls.subrange(start_idx as int, k as int),
        decreases end_idx - k,
    {
        let ghost before = parts@;
        let part = string_of_chars(lines[k].as_slice());
        parts.push(part);
        assert(views(parts@) =~= views(before).push(part@));
        assert(ls[k as int] == lines@[k as int]@);
        assert(ls.subrange(start_idx as int, k + 1) =~= ls.subrange(start_idx as int, k as int).push(
            ls[k as int],
        ));
        k = k + 1;
    }
    join_strings(&parts, "\n")
}

/// Whether some name of `names` is among `type_refs`.
fn any_referenced(names: &Vec<String>, type_refs: &Vec<String>) -> (b: bool)
    ensures
        b == names_referenced(views(names@), string_set(type_refs@)),
{
    let n = names.len();
    let m = type_refs.len();
    let mut i: usize = 0;
    while i < n
        invariant
            n == names@.len(),
            m == type_refs@.len(),
            i <= n,
            forall|k: int| 0 <= k < i ==> !string_set(type_refs@).contains(#[trigger] views(names@)[k]),
        decreases n - i,
    {
        let mut j: usize = 0;
        while j < m
            invariant
                n == names@.len(),
                m == type_refs@.len(),
                i < n,
                j <= m,
                forall|l: int| 0 <= l < j ==> type_refs@[l]@ != names@[i as int]@,
            decreases m - j,
        {
            if names[i] == type_refs[j] {
                assert(string_set(type_refs@).contains(views(names@)[i as int]));
                return true;
            }
            j = j + 1;
        }
        assert(!string_set(type_refs@).contains(views(names@)[i as int]));
        i = i + 1;
    }
    false
}

// ---------------------------------------------------------------------------
// The outline
// ---------------------------------------------------------------------------

/// The outline of `source`, whose top-level items are `items`: the imports
/// (private `use` items that the shown signatures refer to) and the entries
/// of the public items, both in source order.
pub open spec fn outline_spec(source: Seq<char>, items: Seq<ItemModel>) -> (Seq<Entry>, Seq<Entry>) {
    let lines = source_lines(source);
    (imports_of(items, lines, refs_of(items)), exports_of(items, lines.len() as usize))
}

/// Every item can be rendered and every import it gives cut out of `source`.
pub open spec fn outline_renderable(source: Seq<char>, items: Seq<ItemModel>) -> bool {
    forall|i: int|
        0 <= i < items.len() ==> item_renderable(#[trigger] items[i]) && import_sliceable(
            items[i],
            source_lines(source).len(),
            refs_of(items),
        )
}

/// The entries of all items, in order, and the names their shown
/// signatures refer to.
fn render_exports(items: &Vec<ItemModel>, line_count: usize) -> (r: (Vec<OutlineEntry>, Vec<
    String,
>))
    requires
        forall|k: int| 0 <= k < items@.len() ==> item_renderable(#[trigger] items@[k]),
    ensures
        entry_views(r.0@) == exports_of(items@, line_count),
        string_set(r.1@) == refs_of(items@),
{
    let mut exports: Vec<OutlineEntry> = Vec::new();
    let mut type_refs: Vec<String> = Vec::new();
    let n = items.len();
    let mut i: usize = 0;
    proof {
        assert(items@.take(0) =~= Seq::<ItemModel>::empty());
        assert(entry_views(exports@) =~= Seq::<Entry>::empty());
        assert(string_set(type_refs@) =~= Set::<Seq<char>>::empty());
    }
    while i < n
        invariant
            n == items@.len(),
            i <= n,
            forall|k: int| 0 <= k < items@.len() ==> item_renderable(#[trigger] items@[k]),
            entry_views(exports@) == exports_of(items@.take(i as int), line_count),
            string_set(type_refs@) == refs_of(items@.take(i as int)),
        decreases n - i,
    {
        let ghost before = exports@;
        let mut entries = item_entries(&items[i], line_count, &mut type_refs);
        let ghost added = entries@;
        exports.append(&mut entries);
        proof {
            let t1 = items@.take(i + 1);
            assert(t1.drop_last() =~= items@.take(i as int));
            assert(entry_views(exports@) =~= entry_views(before) + entry_views(added));
            assert(string_set(type_refs@) =~= refs_of(t1));
        }
        i = i + 1;
    }
    proof {
        assert(items@.take(n as int) =~= items@);
    }
    (exports, type_refs)
}

/// The imports of all items, in order, given the referenced names.
fn render_imports(lines: &Vec<Vec<char>>, items: &Vec<ItemModel>, type_refs: &Vec<String>) -> (r:
    Vec<ImportEntry>)
    requires
        forall|k: int|
            0 <= k < items@.len() ==> import_sliceable(
                #[trigger] items@[k],
                lines@.len(),
                string_set(type_refs@),
            ),
    ensures
        r@.map_values(|e: ImportEntry| e@) == imports_of(
            items@,
            lines@.map_values(|l: Vec<char>| l@),
            string_set(type_refs@),
        ),
{
    let ghost ls = lines@.map_values(|l: Vec<char>| l@);
    let ghost refs = string_set(type_refs@);
    let line_count = lines.len();
    let n = items.len();
    let mut imports: Vec<ImportEntry> = Vec::new();
    let mut i: usize = 0;
    proof {
        assert(items@.take(0) =~= Seq::<ItemModel>::empty());
        assert(imports@.map_values(|e: ImportEntry| e@) =~= Seq::<Entry>::empty());
    }
    while i < n
        invariant
            n == items@.len(),
            i <= n,
            line_count == ls.len(),
            ls == lines@.map_values(|l: Vec<char>| l@),
            refs == string_set(type_refs@),
            forall|k: int|
                0 <= k < items@.len() ==> import_sliceable(#[trigger] items@[k], lines@.len(), refs),
            imports@.map_values(|e: ImportEntry| e@) == imports_of(items@.take(i as int), ls, refs),
        decreases n - i,
    {
        let ghost before = imports@;
        let item = &items[i];
        proof {
            assert(items@.take(i + 1).drop_last() =~= items@.take(i as int));
            assert(import_sliceable(items@[i as int], lines@.len(), refs));
        }
        match item {
            ItemModel::Use { vis, tree, tree_text, span } => {
                if !is_pub(vis) {
                    let names = collect_use_names(tree);
                    if any_referenced(&names, type_refs) {
                        let text = source_text_for_span(lines, span);
                        let (s, e) = span_lines(span, line_count);
                        let entry = ImportEntry { source_text: text, start_line: s, end_line: e };
                        imports.push(entry);
                        assert(imports@.map_values(|e: ImportEntry| e@) =~= before.map_values(
                            |e: ImportEntry| e@,
                        ).push(entry@));
                    } else {
                        assert(imports@.map_values(|e: ImportEntry| e@) =~= before.map_values(
                            |e: ImportEntry| e@,
                        ) + Seq::<Entry>::empty());
                    }
                } else {
                    assert(imports@.map_values(|e: ImportEntry| e@) =~= before.map_values(
                        |e: ImportEntry| e@,
                    ) + Seq::<Entry>::empty());
                }
            },
            _ => {
                assert(imports@.map_values(|e: ImportEntry| e@) =~= before.map_values(
                    |e: ImportEntry| e@,
                ) + Seq::<Entry>::empty());
            },
        }
        i = i + 1;
    }
    proof {
        assert(items@.take(n as int) =~= items@);
    }
    imports
}

/// Builds the outline of `source` from its top-level items.
pub fn outline_of_items(source: &str, items: &Vec<ItemModel>) -> (r: OutlineResult)
    requires
        outline_renderable(source@, items@),
    ensures
        r@ == outline_spec(source@, items@),
{
    let lines = lines_of(source);
    proof {
        assert(lines@.map_values(|l: Vec<char>| l@) =~= source_lines(source@));
        assert forall|k: int| 0 <= k < items@.len() implies item_renderable(#[trigger] items@[k]) by {
            assert(item_renderable(items@[k]));
        }
    }
    let (exports, type_refs) = render_exports(items, lines.len());
    let imports = render_imports(&lines, items, &type_refs);
    OutlineResult { imports, exports }
}

// ---------------------------------------------------------------------------
// Checked entry point
// ---------------------------------------------------------------------------

fn fields_have_names(fs: &Vec<FieldModel>) -> (b: bool)
    ensures
        b == forall|k: int| 0 <= k < fs@.len() ==> (#[trigger] fs@[k]).name is Some,
{
    let m = fs.len();
    let mut k: usize = 0;
    while k < m
        invariant
            m == fs@.len(),
            k <= m,
            forall|kk: int| 0 <= kk < k ==> (#[trigger] fs@[kk]).name is Some,
        decreases m - k,
    {
        if fs[k].name.is_none() {
            return false;
        }
        k = k + 1;
    }
    true
}

fn members_have_names(variants: &Vec<VariantModel>) -> (b: bool)
    ensures
        b == members_named(variants@),
{
    let n = variants.len();
    let mut j: usize = 0;
    while j < n
        invariant
            n == variants@.len(),
            j <= n,
            forall|jj: int|
                0 <= jj < j ==> match #[trigger] variants@[jj].fields {
                    FieldsModel::Named(fs) => forall|k: int| 0 <= k < fs@.len() ==> (#[trigger] fs@[k]).name is Some,
                    _ => true,
                },
        decreases n - j,
    {
        match &variants[j].fields {
            FieldsModel::Named(fs) => {
                if !fields_have_names(fs) {
                    return false;
                }
            },
            _ => {},
        }
        j = j + 1;
    }
    true
}

/// The outline of `source` from its top-level items, or `None` when an
/// entry cannot be rendered (a shown enum with an unnamed member of a named
/// variant) or an import's lines cannot be cut out of the source.
pub fn try_outline_of_items(source: &str, items: &Vec<ItemModel>) -> (r: Option<OutlineResult>)
    ensures
        r is Some <==> outline_renderable(source@, items@),
        r matches Some(o) ==> o@ == outline_spec(source@, items@),
{
    let n = items.len();
    let mut i: usize = 0;
    while i < n
        invariant
            n == items@.len(),
            i <= n,
            forall|k: int| 0 <= k < i ==> item_renderable(#[trigger] items@[k]),
        decreases n - i,
    {
        match &items[i] {
            ItemModel::Enum { attrs, vis, name, variants, span } => {
                if is_pub(vis) && !members_have_names(variants) {
                    assert(!item_renderable(items@[i as int]));
                    return None;
                }
            },
            _ => {},
        }
        i = i + 1;
    }
    let lines = lines_of(source);
    proof {
        assert(lines@.map_values(|l: Vec<char>| l@) =~= source_lines(source@));
    }
    let line_count = lines.len();
    let (exports, type_refs) = render_exports(items, line_count);
    let ghost refs = refs_of(items@);
    let mut i: usize = 0;
    while i < n
        invariant
            n == items@.len(),
            i <= n,
            line_count == source_lines(source@).len(),
            line_count == lines@.len(),
            string_set(type_refs@) == refs,
            refs == refs_of(items@),
            forall|k: int| 0 <= k < items@.len() ==> item_renderable(#[trigger] items@[k]),
            forall|k: int|
                0 <= k < i ==> import_sliceable(#[trigger] items@[k], source_lines(source@).len(), refs),
        decreases n - i,
    {
        match &items[i] {
            ItemModel::Use { vis, tree, tree_text, span } => {
                if !is_pub(vis) {
                    let names = collect_use_names(tree);
                    if any_referenced(&names, &type_refs) {
                        let fits = span.start == 0 || (span.start - 1 <= span.end && span.start - 1
                            <= line_count);
                        if !fits {
                            assert(!import_sliceable(items@[i as int], source_lines(source@).len(), refs));
                            return None;
                        }
                    }
                }
            },
            _ => {},
        }
        i = i + 1;
    }
    let imports = render_imports(&lines, items, &type_refs);
    Some(OutlineResult { imports, exports })
}

} // verus!
