//! Properties of the outline as a whole.
use vstd::prelude::*;
use crate::items::{
    entry_at, field_entries, field_types_refs, fields_refs, is_public, method_lines, methods_refs,
    shown_fields, struct_refs, trait_methods, trait_refs, trait_text, use_names, variant_entries,
    variant_refs, variants_refs, Entry,
};
use crate::model::{
    FieldModel, FieldsModel, GenericParamModel, GenericsModel, ItemModel, LineSpan, ParamModel,
    SigModel, TraitItemModel, TypeModel, VariantModel,
};
use crate::signature::{
    generic_param_refs, generic_params_refs, generics_text, param_refs, params_refs, path_heads,
    return_refs, sig_refs, strings_words, type_names, where_refs, where_text,
};
use crate::outline::{
    exports_of, imports_of, item_exports, item_import, item_refs, names_referenced, outline_spec,
    refs_of,
};
use crate::text::{
    capitalized_words, join, source_lines, string_set, uppercase_char, word_char, word_pieces,
};

verus! {

broadcast use vstd::seq::group_seq_axioms;

proof fn lemma_exports_concat(a: Seq<ItemModel>, b: Seq<ItemModel>, n: usize)
    ensures
        exports_of(a + b, n) == exports_of(a, n) + exports_of(b, n),
    decreases b.len(),
{
    if b.len() == 0 {
        assert(a + b =~= a);
        assert(exports_of(a, n) + exports_of(b, n) =~= exports_of(a, n));
    } else {
        assert((a + b).drop_last() =~= a + b.drop_last());
        assert((a + b).last() == b.last());
        lemma_exports_concat(a, b.drop_last(), n);
        assert(exports_of(a + b, n) =~= exports_of(a, n) + exports_of(b, n));
    }
}

proof fn lemma_refs_concat(a: Seq<ItemModel>, b: Seq<ItemModel>)
    ensures
        refs_of(a + b) == refs_of(a).union(refs_of(b)),
    decreases b.len(),
{
    if b.len() == 0 {
        assert(a + b =~= a);
        assert(refs_of(a).union(refs_of(b)) =~= refs_of(a));
    } else {
        assert((a + b).drop_last() =~= a + b.drop_last());
        assert((a + b).last() == b.last());
        lemma_refs_concat(a, b.drop_last());
        assert(refs_of(a + b) =~= refs_of(a).union(refs_of(b)));
    }
}

proof fn lemma_imports_concat(
    a: Seq<ItemModel>,
    b: Seq<ItemModel>,
    lines: Seq<Seq<char>>,
    refs: Set<Seq<char>>,
)
    ensures
        imports_of(a + b, lines, refs) == imports_of(a, lines, refs) + imports_of(b, lines, refs),
    decreases b.len(),
{
    if b.len() == 0 {
        assert(a + b =~= a);
        assert(imports_of(a, lines, refs) + imports_of(b, lines, refs) =~= imports_of(
            a,
            lines,
            refs,
        ));
    } else {
        assert((a + b).drop_last() =~= a + b.drop_last());
        assert((a + b).last() == b.last());
        lemma_imports_concat(a, b.drop_last(), lines, refs);
        assert(imports_of(a + b, lines, refs) =~= imports_of(a, lines, refs) + imports_of(
            b,
            lines,
            refs,
        ));
    }
}

/// An item that is neither `pub` nor a `use` item.
pub open spec fn private_non_use(item: ItemModel) -> bool {
    match item {
        ItemModel::Use { vis, tree, tree_text, span } => false,
        ItemModel::Fn { vis, sig, span } => !is_public(vis),
        ItemModel::Struct { attrs, vis, name, fields, span } => !is_public(vis),
        ItemModel::Enum { attrs, vis, name, variants, span } => !is_public(vis),
        ItemModel::Trait { vis, name, generics, items, span } => !is_public(vis),
        ItemModel::Type { vis, name, generics, span } => !is_public(vis),
        ItemModel::Const { vis, name, ty, span } => !is_public(vis),
        ItemModel::Static { vis, is_mut, name, ty, span } => !is_public(vis),
        ItemModel::Mod { vis, name, span } => !is_public(vis),
        ItemModel::Other => true,
    }
}

/// A private item other than a `use` item leaves the outline unchanged:
/// inserting one anywhere among the items changes neither the imports nor
/// the entries.
pub proof fn law_private_item_invisible(
    source: Seq<char>,
    items: Seq<ItemModel>,
    k: int,
    item: ItemModel,
)
    requires
        0 <= k <= items.len(),
        private_non_use(item),
    ensures
        outline_spec(source, items.insert(k, item)) == outline_spec(source, items),
{
    let a = items.take(k);
    let b = items.skip(k);
    let one = seq![item];
    let lines = source_lines(source);
    let n = #[verifier::truncate] (lines.len() as usize);
    assert(items.insert(k, item) =~= a + one + b);
    assert(items =~= a + b);
    assert(one.drop_last() =~= Seq::<ItemModel>::empty());
    assert(one.last() == item);
    assert(item_exports(item, n) =~= Seq::<Entry>::empty());
    assert(item_refs(item) =~= Set::<Seq<char>>::empty());
    assert(exports_of(one.drop_last(), n) == Seq::<Entry>::empty());
    assert(refs_of(one.drop_last()) == Set::<Seq<char>>::empty());
    assert(exports_of(one, n) =~= Seq::<Entry>::empty());
    assert(refs_of(one) =~= Set::<Seq<char>>::empty());
    lemma_exports_concat(a, one, n);
    lemma_exports_concat(a + one, b, n);
    lemma_exports_concat(a, b, n);
    lemma_refs_concat(a, one);
    lemma_refs_concat(a + one, b);
    lemma_refs_concat(a, b);
    assert(refs_of(a + one) =~= refs_of(a));
    let refs = refs_of(items);
    assert(refs_of(a + one + b) == refs);
    assert(item_import(item, lines, refs) =~= Seq::<Entry>::empty());
    assert(imports_of(one.drop_last(), lines, refs) == Seq::<Entry>::empty());
    assert(imports_of(one, lines, refs) =~= Seq::<Entry>::empty());
    lemma_imports_concat(a, one, lines, refs);
    lemma_imports_concat(a + one, b, lines, refs);
    lemma_imports_concat(a, b, lines, refs);
    assert(exports_of(a + one + b, n) =~= exports_of(items, n));
    assert(imports_of(a + one + b, lines, refs) =~= imports_of(items, lines, refs));
}

/// Entries follow the order of the items: the entries of `a + b` are those
/// of `a` followed by those of `b`, and so are its imports.
pub proof fn law_source_order(source: Seq<char>, a: Seq<ItemModel>, b: Seq<ItemModel>)
    ensures
        outline_spec(source, a + b).1 == exports_of(a, source_lines(source).len() as usize)
            + exports_of(b, source_lines(source).len() as usize),
        outline_spec(source, a + b).0 == imports_of(a, source_lines(source), refs_of(a + b))
            + imports_of(b, source_lines(source), refs_of(a + b)),
{
    lemma_exports_concat(a, b, source_lines(source).len() as usize);
    lemma_imports_concat(a, b, source_lines(source), refs_of(a + b));
}

/// When no shown signature refers to any name, nothing is imported.
pub proof fn law_no_references_no_imports(source: Seq<char>, items: Seq<ItemModel>)
    requires
        refs_of(items) == Set::<Seq<char>>::empty(),
    ensures
        outline_spec(source, items).0 == Seq::<Entry>::empty(),
{
    lemma_no_imports_without_refs(items, source_lines(source), refs_of(items));
}

proof fn lemma_no_imports_without_refs(
    items: Seq<ItemModel>,
    lines: Seq<Seq<char>>,
    refs: Set<Seq<char>>,
)
    requires
        refs == Set::<Seq<char>>::empty(),
    ensures
        imports_of(items, lines, refs) == Seq::<Entry>::empty(),
    decreases items.len(),
{
    if items.len() > 0 {
        lemma_no_imports_without_refs(items.drop_last(), lines, refs);
        match items.last() {
            ItemModel::Use { vis, tree, tree_text, span } => {
                if names_referenced(use_names(tree), refs) {
                    let k = choose|k: int|
                        0 <= k < use_names(tree).len() && refs.contains(#[trigger] use_names(tree)[k]);
                    assert(refs.contains(use_names(tree)[k]));
                }
            },
            _ => {},
        }
        assert(imports_of(items, lines, refs) =~= Seq::<Entry>::empty());
    }
}

/// A `pub use` item is shown as an entry `use <tree>` and is never an
/// import; a private `use` item is never an entry.
pub proof fn law_use_items(item: ItemModel, lines: Seq<Seq<char>>, refs: Set<Seq<char>>, n: usize)
    requires
        item is Use,
    ensures
        is_public(item->Use_vis) ==> item_import(item, lines, refs) == Seq::<Entry>::empty()
            && item_exports(item, n) == seq![
            entry_at("use "@ + item->Use_tree_text@, item->Use_span, n),
        ],
        !is_public(item->Use_vis) ==> item_exports(item, n) == Seq::<Entry>::empty(),
{
}

/// A `use` item gives an import exactly when it is private and one of the
/// names it brings into scope is referenced by a shown signature; the
/// import is its source text with its lines.
pub proof fn law_import_iff_referenced(item: ItemModel, lines: Seq<Seq<char>>, refs: Set<Seq<char>>)
    ensures
        item_import(item, lines, refs).len() == 1 <==> (item is Use && !is_public(item->Use_vis)
            && names_referenced(use_names(item->Use_tree), refs)),
        item_import(item, lines, refs).len() == 1 ==> item_import(item, lines, refs)[0] == entry_at(
            crate::outline::source_text(lines, item->Use_span),
            item->Use_span,
            lines.len() as usize,
        ),
        item_import(item, lines, refs).len() <= 1,
{
}

/// The number of entries of a shown item: one for a function, trait, alias,
/// constant, static, module or `use`; a header, one line per variant and a
/// closing line for an enum; for a struct, one line when no field is shown,
/// else a header, one line per shown field and a closing line.
pub proof fn law_entry_counts(item: ItemModel, n: usize)
    ensures
        match item {
            ItemModel::Enum { attrs, vis, name, variants, span } => is_public(vis) ==> item_exports(
                item,
                n,
            ).len() == variants@.len() + 2,
            ItemModel::Struct { attrs, vis, name, fields, span } => is_public(vis) ==> item_exports(
                item,
                n,
            ).len() == if shown_fields(fields, n).len() == 0 {
                1
            } else {
                shown_fields(fields, n).len() + 2
            },
            ItemModel::Other => item_exports(item, n).len() == 0,
            _ => item_exports(item, n).len() == (if is_public(item_vis(item)) {
                1int
            } else {
                0int
            }),
        },
{
    match item {
        ItemModel::Enum { attrs, vis, name, variants, span } => {
            assert(variant_entries(variants@).len() == variants@.len());
        },
        _ => {},
    }
}

/// The visibility of an item that has one.
pub open spec fn item_vis(item: ItemModel) -> crate::model::Vis {
    match item {
        ItemModel::Use { vis, tree, tree_text, span } => vis,
        ItemModel::Fn { vis, sig, span } => vis,
        ItemModel::Struct { attrs, vis, name, fields, span } => vis,
        ItemModel::Enum { attrs, vis, name, variants, span } => vis,
        ItemModel::Trait { vis, name, generics, items, span } => vis,
        ItemModel::Type { vis, name, generics, span } => vis,
        ItemModel::Const { vis, name, ty, span } => vis,
        ItemModel::Static { vis, is_mut, name, ty, span } => vis,
        ItemModel::Mod { vis, name, span } => vis,
        ItemModel::Other => crate::model::Vis::Inherited,
    }
}

/// The span of an item that has one.
pub open spec fn item_span(item: ItemModel) -> LineSpan {
    match item {
        ItemModel::Use { vis, tree, tree_text, span } => span,
        ItemModel::Fn { vis, sig, span } => span,
        ItemModel::Struct { attrs, vis, name, fields, span } => span,
        ItemModel::Enum { attrs, vis, name, variants, span } => span,
        ItemModel::Trait { vis, name, generics, items, span } => span,
        ItemModel::Type { vis, name, generics, span } => span,
        ItemModel::Const { vis, name, ty, span } => span,
        ItemModel::Static { vis, is_mut, name, ty, span } => span,
        ItemModel::Mod { vis, name, span } => span,
        ItemModel::Other => LineSpan { start: 0, end: 0 },
    }
}

/// The first entry of a shown item covers the item's lines as the parser
/// recorded them, or, when it recorded none, line 1 to the last line.
pub proof fn law_first_entry_lines(item: ItemModel, n: usize)
    requires
        item_exports(item, n).len() > 0,
    ensures
        item_exports(item, n)[0].1 == (if item_span(item).start == 0 && item_span(item).end == 0 {
            1
        } else {
            item_span(item).start
        }),
        item_exports(item, n)[0].2 == (if item_span(item).start == 0 && item_span(item).end == 0 {
            n
        } else {
            item_span(item).end
        }),
{
}

proof fn lemma_word_pieces_chars(s: Seq<char>)
    ensures
        forall|k: int, j: int|
            0 <= k < word_pieces(s).len() && 0 <= j < word_pieces(s)[k].len() ==> word_char(
                #[trigger] word_pieces(s)[k][j],
            ),
    decreases s.len(),
{
    if s.len() > 0 {
        lemma_word_pieces_chars(s.drop_last());
        crate::text::lemma_word_pieces_nonempty(s.drop_last());
        let p = word_pieces(s.drop_last());
        assert forall|k: int, j: int|
            0 <= k < word_pieces(s).len() && 0 <= j < word_pieces(s)[k].len() implies word_char(
            #[trigger] word_pieces(s)[k][j],
        ) by {
            if word_char(s.last()) {
                if k == p.len() - 1 {
                    if j < p[k].len() {
                        assert(word_pieces(s)[k][j] == p[k][j]);
                    }
                } else {
                    assert(word_pieces(s)[k] == p[k]);
                }
            } else {
                if k < p.len() {
                    assert(word_pieces(s)[k] == p[k]);
                }
            }
        }
    }
}

/// Every name taken from a text is a non-empty run of word characters
/// (alphanumeric or `_`) that starts with an uppercase character.
pub proof fn law_type_names_are_capitalized_words(s: Seq<char>, w: Seq<char>)
    requires
        capitalized_words(s).contains(w),
    ensures
        w.len() > 0,
        uppercase_char(w[0]),
        forall|j: int| 0 <= j < w.len() ==> word_char(#[trigger] w[j]),
{
    lemma_word_pieces_chars(s);
    let k = choose|k: int|
        0 <= k < word_pieces(s).len() && #[trigger] word_pieces(s)[k] == w
            && crate::text::capitalized(w);
    assert forall|j: int| 0 <= j < w.len() implies word_char(#[trigger] w[j]) by {
        assert(word_pieces(s)[k][j] == w[j]);
    }
}

proof fn lemma_word_pieces_concat(a: Seq<char>, sep: char, b: Seq<char>)
    requires
        !word_char(sep),
    ensures
        word_pieces(a + seq![sep] + b) == word_pieces(a) + word_pieces(b),
    decreases b.len(),
{
    let x = a + seq![sep];
    crate::text::lemma_word_pieces_nonempty(a);
    if b.len() == 0 {
        assert(x + b =~= x);
        assert(x.drop_last() =~= a);
        assert(word_pieces(x) =~= word_pieces(a) + word_pieces(b));
    } else {
        let b0 = b.drop_last();
        let c = b.last();
        assert((x + b).drop_last() =~= x + b0);
        assert((x + b).last() == c);
        lemma_word_pieces_concat(a, sep, b0);
        crate::text::lemma_word_pieces_nonempty(b0);
        let pa = word_pieces(a);
        let pb = word_pieces(b0);
        if word_char(c) {
            assert((pa + pb).update((pa + pb).len() - 1, (pa + pb).last().push(c)) =~= pa + pb.update(
                pb.len() - 1,
                pb.last().push(c),
            ));
        } else {
            assert((pa + pb).push(Seq::<char>::empty()) =~= pa + pb.push(Seq::<char>::empty()));
        }
    }
}

/// Scanning a text in two parts separated by a non-word character finds
/// the names of the two parts: `capitalized_words(a + sep + b)` is the union
/// of the capitalized words of `a` and of `b`. A space is such a separator.
pub proof fn law_scan_in_parts(a: Seq<char>, sep: char, b: Seq<char>)
    requires
        !word_char(sep),
    ensures
        capitalized_words(a + seq![sep] + b) == capitalized_words(a).union(capitalized_words(b)),
{
    lemma_word_pieces_concat(a, sep, b);
    let pa = word_pieces(a);
    let pb = word_pieces(b);
    let q = pa + pb;
    assert forall|w: Seq<char>| #[trigger] capitalized_words(a + seq![sep] + b).contains(w)
        implies capitalized_words(a).union(capitalized_words(b)).contains(w) by {
        let k = choose|k: int| 0 <= k < q.len() && #[trigger] q[k] == w && crate::text::capitalized(w);
        if k < pa.len() {
            assert(pa[k] == w);
        } else {
            assert(pb[k - pa.len()] == w);
        }
    }
    assert forall|w: Seq<char>| #[trigger] capitalized_words(a).union(capitalized_words(b)).contains(w)
        implies capitalized_words(a + seq![sep] + b).contains(w) by {
        if capitalized_words(a).contains(w) {
            let k = choose|k: int| 0 <= k < pa.len() && #[trigger] pa[k] == w && crate::text::capitalized(w);
            assert(q[k] == w);
        } else {
            let k = choose|k: int| 0 <= k < pb.len() && #[trigger] pb[k] == w && crate::text::capitalized(w);
            assert(q[pa.len() + k] == w);
        }
    }
    assert(capitalized_words(a + seq![sep] + b) =~= capitalized_words(a).union(capitalized_words(b)));
}

/// Recording the names of `a` and then those of `b` gives the same names as
/// recording those of `a`, a space and `b` in one scan, and the same as
/// recording `b` first and then `a`: each call adds what `collect_type_refs_from_str`
/// states.
pub proof fn law_scan_order_free(
    a: Seq<char>,
    b: Seq<char>,
    start: Seq<String>,
    after_a: Seq<String>,
    after_ab: Seq<String>,
    after_b: Seq<String>,
    after_ba: Seq<String>,
    joined: Seq<String>,
)
    requires
        string_set(after_a) == string_set(start).union(capitalized_words(a)),
        string_set(after_ab) == string_set(after_a).union(capitalized_words(b)),
        string_set(after_b) == string_set(start).union(capitalized_words(b)),
        string_set(after_ba) == string_set(after_b).union(capitalized_words(a)),
        string_set(joined) == string_set(start).union(capitalized_words(a + seq![' '] + b)),
    ensures
        string_set(after_ab) == string_set(joined),
        string_set(after_ba) == string_set(joined),
{
    law_scan_in_parts(a, ' ', b);
    assert(string_set(after_ab) =~= string_set(joined));
    assert(string_set(after_ba) =~= string_set(joined));
}

/// `w` is the run of characters of `s` from position `i`.
pub open spec fn stands_at(s: Seq<char>, w: Seq<char>, i: int) -> bool {
    0 <= i && i + w.len() <= s.len() && s.subrange(i, i + w.len()) == w
}

/// `w` is a run of characters of `s` at some position.
pub open spec fn stands_in(s: Seq<char>, w: Seq<char>) -> bool {
    exists|i: int| #[trigger] stands_at(s, w, i)
}

proof fn lemma_word_pieces_in_text(s: Seq<char>)
    ensures
        forall|k: int| 0 <= k < word_pieces(s).len() ==> stands_in(s, #[trigger] word_pieces(s)[k]),
        stands_at(s, word_pieces(s).last(), s.len() - word_pieces(s).last().len()),
    decreases s.len(),
{
    crate::text::lemma_word_pieces_nonempty(s);
    if s.len() == 0 {
        assert(word_pieces(s)[0] =~= Seq::<char>::empty());
        assert(s.subrange(0, 0) =~= word_pieces(s)[0]);
        assert(stands_at(s, word_pieces(s)[0], 0));
    } else {
        let t = s.drop_last();
        let c = s.last();
        lemma_word_pieces_in_text(t);
        crate::text::lemma_word_pieces_nonempty(t);
        let p = word_pieces(t);
        let q = word_pieces(s);
        let pl = p.last();
        assert(stands_at(t, pl, t.len() - pl.len()));
        assert forall|k: int| 0 <= k < q.len() implies stands_in(s, #[trigger] q[k]) by {
            if k < p.len() - 1 || (k == p.len() - 1 && !word_char(c)) {
                assert(q[k] == p[k]);
                assert(stands_in(t, p[k]));
                let i = choose|i: int| #[trigger] stands_at(t, p[k], i);
                assert(s.subrange(i, i + q[k].len()) =~= t.subrange(i, i + p[k].len()));
                assert(stands_at(s, q[k], i));
            } else if word_char(c) {
                let i = t.len() - pl.len();
                assert(q[k] == pl.push(c));
                assert(s.subrange(i, i + q[k].len()) =~= t.subrange(i, t.len() as int).push(c));
                assert(stands_at(s, q[k], i));
            } else {
                assert(q[k] =~= Seq::<char>::empty());
                assert(s.subrange(0, 0) =~= q[k]);
                assert(stands_at(s, q[k], 0));
            }
        }
        if word_char(c) {
            let i = t.len() - pl.len();
            assert(q.last() == pl.push(c));
            assert(s.subrange(i, s.len() as int) =~= t.subrange(i, t.len() as int).push(c));
        } else {
            assert(q.last() =~= Seq::<char>::empty());
            assert(s.subrange(s.len() as int, s.len() as int) =~= q.last());
        }
    }
}

/// Every name taken from a text stands in the text: it is the run of
/// characters at some position of `s`.
pub proof fn law_type_names_stand_in_text(s: Seq<char>, w: Seq<char>)
    requires
        capitalized_words(s).contains(w),
    ensures
        stands_in(s, w),
{
    lemma_word_pieces_in_text(s);
    let k = choose|k: int|
        0 <= k < word_pieces(s).len() && #[trigger] word_pieces(s)[k] == w
            && crate::text::capitalized(w);
    assert(stands_in(s, word_pieces(s)[k]));
}


// ---------------------------------------------------------------------------
// The names that a shown type or signature records
// ---------------------------------------------------------------------------

/// `w` is the first segment of the path `p`.
pub open spec fn path_head_is(p: Vec<String>, w: Seq<char>) -> bool {
    p@.len() > 0 && p@[0]@ == w
}

proof fn lemma_path_heads(ps: Seq<Vec<String>>, w: Seq<char>)
    ensures
        path_heads(ps).contains(w) <==> exists|k: int|
            0 <= k < ps.len() && #[trigger] path_head_is(ps[k], w),
    decreases ps.len(),
{
    if ps.len() > 0 {
        let rest = ps.drop_last();
        lemma_path_heads(rest, w);
        if path_heads(rest).contains(w) {
            let k = choose|k: int| 0 <= k < rest.len() && #[trigger] path_head_is(rest[k], w);
            assert(ps[k] == rest[k]);
            assert(path_head_is(ps[k], w));
        }
        if path_head_is(ps.last(), w) {
            assert(path_head_is(ps[ps.len() - 1], w));
        }
        if exists|k: int| 0 <= k < ps.len() && #[trigger] path_head_is(ps[k], w) {
            let k = choose|k: int| 0 <= k < ps.len() && #[trigger] path_head_is(ps[k], w);
            if k < ps.len() - 1 {
                assert(rest[k] == ps[k]);
                assert(path_head_is(rest[k], w));
            }
        }
    }
}

/// A type records the first segment of each of its type paths that has a
/// segment, and nothing else: `io::Result<Vec<u8>>` records `io`, `Vec` and
/// `u8`, never `Result`.
pub proof fn law_type_names_are_path_heads(t: TypeModel, w: Seq<char>)
    ensures
        type_names(t).contains(w) <==> exists|k: int|
            0 <= k < t.paths@.len() && #[trigger] path_head_is(t.paths@[k], w),
        forall|k: int|
            0 <= k < t.paths@.len() && t.paths@[k]@.len() > 0 ==> type_names(t).contains(
                #[trigger] t.paths@[k]@[0]@,
            ),
{
    lemma_path_heads(t.paths@, w);
    assert forall|k: int|
        0 <= k < t.paths@.len() && t.paths@[k]@.len() > 0 implies type_names(t).contains(
        #[trigger] t.paths@[k]@[0]@,
    ) by {
        lemma_path_heads(t.paths@, t.paths@[k]@[0]@);
        assert(path_head_is(t.paths@[k], t.paths@[k]@[0]@));
    }
}

/// The type of a typed parameter; a receiver has none.
pub open spec fn param_type(p: ParamModel) -> Option<TypeModel> {
    match p {
        ParamModel::Typed { pat, ty } => Some(ty),
        ParamModel::Receiver { reference, lifetime, mutable } => None,
    }
}

/// The bounds written on a type parameter; other parameters have none.
pub open spec fn param_bounds(p: GenericParamModel) -> Seq<String> {
    match p {
        GenericParamModel::Type { name, bounds } => bounds@,
        _ => Seq::empty(),
    }
}

/// The predicates of the `where` clause; none when no clause is written.
pub open spec fn where_list(g: GenericsModel) -> Seq<String> {
    match g.where_predicates {
        Some(ps) => ps@,
        None => Seq::empty(),
    }
}

/// `w` is a capitalized word of one of the texts `ss`.
pub open spec fn word_of_some(ss: Seq<String>, w: Seq<char>) -> bool {
    exists|i: int| 0 <= i < ss.len() && #[trigger] capitalized_words(ss[i]@).contains(w)
}

/// `w` is recorded for the type `t`, if there is one.
pub open spec fn names_in(t: Option<TypeModel>, w: Seq<char>) -> bool {
    match t {
        Some(ty) => type_names(ty).contains(w),
        None => false,
    }
}

proof fn lemma_strings_words(ss: Seq<String>, w: Seq<char>)
    ensures
        strings_words(ss).contains(w) <==> word_of_some(ss, w),
    decreases ss.len(),
{
    if ss.len() > 0 {
        let rest = ss.drop_last();
        lemma_strings_words(rest, w);
        if word_of_some(rest, w) {
            let i = choose|i: int| 0 <= i < rest.len() && #[trigger] capitalized_words(rest[i]@).contains(w);
            assert(ss[i] == rest[i]);
            assert(capitalized_words(ss[i]@).contains(w));
        }
        if capitalized_words(ss.last()@).contains(w) {
            assert(capitalized_words(ss[ss.len() - 1]@).contains(w));
        }
        if word_of_some(ss, w) {
            let i = choose|i: int| 0 <= i < ss.len() && #[trigger] capitalized_words(ss[i]@).contains(w);
            if i < ss.len() - 1 {
                assert(rest[i] == ss[i]);
                assert(capitalized_words(rest[i]@).contains(w));
            }
        }
    }
}

proof fn lemma_generic_params_refs(ps: Seq<GenericParamModel>, w: Seq<char>)
    ensures
        generic_params_refs(ps).contains(w) <==> exists|i: int|
            0 <= i < ps.len() && word_of_some(#[trigger] param_bounds(ps[i]), w),
    decreases ps.len(),
{
    if ps.len() > 0 {
        let rest = ps.drop_last();
        lemma_generic_params_refs(rest, w);
        lemma_strings_words(param_bounds(ps.last()), w);
        assert(generic_param_refs(ps.last()) == strings_words(param_bounds(ps.last())));
        if exists|i: int| 0 <= i < rest.len() && word_of_some(#[trigger] param_bounds(rest[i]), w) {
            let i = choose|i: int| 0 <= i < rest.len() && word_of_some(#[trigger] param_bounds(rest[i]), w);
            assert(ps[i] == rest[i]);
            assert(word_of_some(param_bounds(ps[i]), w));
        }
        if word_of_some(param_bounds(ps.last()), w) {
            assert(word_of_some(param_bounds(ps[ps.len() - 1]), w));
        }
        if exists|i: int| 0 <= i < ps.len() && word_of_some(#[trigger] param_bounds(ps[i]), w) {
            let i = choose|i: int| 0 <= i < ps.len() && word_of_some(#[trigger] param_bounds(ps[i]), w);
            if i < ps.len() - 1 {
                assert(rest[i] == ps[i]);
                assert(word_of_some(param_bounds(rest[i]), w));
            }
        }
    }
}

proof fn lemma_params_refs(ps: Seq<ParamModel>, w: Seq<char>)
    ensures
        params_refs(ps).contains(w) <==> exists|i: int|
            0 <= i < ps.len() && names_in(#[trigger] param_type(ps[i]), w),
    decreases ps.len(),
{
    if ps.len() > 0 {
        let rest = ps.drop_last();
        lemma_params_refs(rest, w);
        assert(param_refs(ps.last()).contains(w) == names_in(param_type(ps.last()), w));
        if exists|i: int| 0 <= i < rest.len() && names_in(#[trigger] param_type(rest[i]), w) {
            let i = choose|i: int| 0 <= i < rest.len() && names_in(#[trigger] param_type(rest[i]), w);
            assert(ps[i] == rest[i]);
            assert(names_in(param_type(ps[i]), w));
        }
        if names_in(param_type(ps.last()), w) {
            assert(names_in(param_type(ps[ps.len() - 1]), w));
        }
        if exists|i: int| 0 <= i < ps.len() && names_in(#[trigger] param_type(ps[i]), w) {
            let i = choose|i: int| 0 <= i < ps.len() && names_in(#[trigger] param_type(ps[i]), w);
            if i < ps.len() - 1 {
                assert(rest[i] == ps[i]);
                assert(names_in(param_type(rest[i]), w));
            }
        }
    }
}

/// The names a shown signature records are exactly: those of the type of
/// each typed parameter and of the return type, the capitalized words of
/// each bound of a type parameter, and the capitalized words of each
/// predicate of its `where` clause. In `fn show<T>(t: T) where T: Debug`,
/// `Debug` is recorded.
pub proof fn law_signature_names(s: SigModel, w: Seq<char>)
    ensures
        sig_refs(s).contains(w) <==> {
            ||| exists|i: int|
                0 <= i < s.params@.len() && names_in(#[trigger] param_type(s.params@[i]), w)
            ||| names_in(s.output, w)
            ||| exists|i: int|
                0 <= i < s.generics.params@.len() && word_of_some(
                    #[trigger] param_bounds(s.generics.params@[i]),
                    w,
                )
            ||| word_of_some(where_list(s.generics), w)
        },
        forall|j: int|
            0 <= j < where_list(s.generics).len() ==> capitalized_words(
                #[trigger] where_list(s.generics)[j]@,
            ).subset_of(sig_refs(s)),
{
    lemma_params_refs(s.params@, w);
    lemma_generic_params_refs(s.generics.params@, w);
    lemma_strings_words(where_list(s.generics), w);
    assert(where_refs(s.generics) == strings_words(where_list(s.generics)));
    assert(return_refs(s.output).contains(w) == names_in(s.output, w));
    assert forall|j: int| 0 <= j < where_list(s.generics).len() implies capitalized_words(
        #[trigger] where_list(s.generics)[j]@,
    ).subset_of(sig_refs(s)) by {
        assert forall|x: Seq<char>| capitalized_words(where_list(s.generics)[j]@).contains(
            x,
        ) implies sig_refs(s).contains(x) by {
            lemma_strings_words(where_list(s.generics), x);
            assert(word_of_some(where_list(s.generics), x));
        }
    }
}

// ---------------------------------------------------------------------------
// Traits, structs and enums
// ---------------------------------------------------------------------------

/// No item of a trait is a method exactly when the trait lists no method.
proof fn lemma_trait_methods_empty(items: Seq<TraitItemModel>)
    ensures
        trait_methods(items).len() == 0 <==> forall|i: int|
            0 <= i < items.len() ==> #[trigger] items[i] is Other,
    decreases items.len(),
{
    if items.len() > 0 {
        let rest = items.drop_last();
        lemma_trait_methods_empty(rest);
        if trait_methods(items).len() == 0 {
            assert forall|i: int| 0 <= i < items.len() implies #[trigger] items[i] is Other by {
                if i < items.len() - 1 {
                    assert(rest[i] == items[i]);
                }
            }
        }
        if forall|i: int| 0 <= i < items.len() ==> #[trigger] items[i] is Other {
            assert forall|i: int| 0 <= i < rest.len() implies #[trigger] rest[i] is Other by {
                assert(rest[i] == items[i]);
            }
            assert(items[items.len() - 1] is Other);
        }
    }
}

/// The text of a trait begins with `trait `, its name, its generics and its
/// `where` clause, whether or not it declares methods. When no item of the
/// trait is a method that is the whole text; otherwise ` {` and a line break
/// follow it.
pub proof fn law_trait_header(name: Seq<char>, g: GenericsModel, items: Seq<TraitItemModel>)
    ensures
        ({
            let head = "trait "@ + name + generics_text(g) + where_text(g);
            let t = trait_text(name, g, items);
            &&& head.len() <= t.len()
            &&& t.subrange(0, head.len() as int) == head
            &&& (forall|i: int| 0 <= i < items.len() ==> #[trigger] items[i] is Other) ==> t
                == head
            &&& (exists|i: int| 0 <= i < items.len() && #[trigger] items[i] is Fn) ==> (head.len()
                + " {\n"@.len() <= t.len() && t.subrange(
                head.len() as int,
                (head.len() + " {\n"@.len()) as int,
            ) == " {\n"@)
        }),
{
    lemma_trait_methods_empty(items);
    let head = "trait "@ + name + generics_text(g) + where_text(g);
    let t = trait_text(name, g, items);
    if trait_methods(items).len() == 0 {
        assert(t == head);
        assert(t.subrange(0, head.len() as int) =~= head);
    } else {
        let body = join(method_lines(trait_methods(items)), "\n"@) + "\n}"@;
        assert(t =~= head + (" {\n"@ + body));
        assert(t.subrange(0, head.len() as int) =~= head);
        assert(t.subrange(head.len() as int, (head.len() + " {\n"@.len()) as int) =~= " {\n"@);
    }
}

/// The line of a named field: two spaces, its name, `: ` and its type's
/// text, at the field's lines.
pub open spec fn field_line(f: FieldModel, n: usize) -> Entry {
    entry_at("  "@ + f.name->0@ + ": "@ + f.ty.text@, f.span, n)
}

/// `e` is the line of the named field `f`.
pub open spec fn is_line_of(e: Entry, f: FieldModel, n: usize) -> bool {
    e == field_line(f, n)
}

/// Each of `entries` is the line of a field of `fs` that is plain `pub` and
/// named.
pub open spec fn lines_of_public_fields(entries: Seq<Entry>, fs: Seq<FieldModel>, n: usize) -> bool {
    forall|i: int|
        0 <= i < entries.len() ==> exists|k: int|
            0 <= k < fs.len() && public_named(#[trigger] fs[k]) && is_line_of(
                #[trigger] entries[i],
                fs[k],
                n,
            )
}

/// A field with plain `pub` visibility and a name.
pub open spec fn public_named(f: FieldModel) -> bool {
    f.vis is Public && f.name is Some
}

proof fn lemma_field_entries(fs: Seq<FieldModel>, n: usize)
    ensures
        field_entries(fs, n) == fs.filter_map(
            |f: FieldModel|
                if public_named(f) {
                    Some(field_line(f, n))
                } else {
                    None
                },
        ),
    decreases fs.len(),
{
    if fs.len() > 0 {
        lemma_field_entries(fs.drop_last(), n);
    }
}

proof fn lemma_fields_refs(fs: Seq<FieldModel>, w: Seq<char>)
    ensures
        fields_refs(fs).contains(w) <==> exists|k: int|
            0 <= k < fs.len() && public_named(#[trigger] fs[k]) && type_names(fs[k].ty).contains(w),
    decreases fs.len(),
{
    if fs.len() > 0 {
        let rest = fs.drop_last();
        lemma_fields_refs(rest, w);
        if exists|k: int|
            0 <= k < rest.len() && public_named(#[trigger] rest[k]) && type_names(rest[k].ty).contains(w) {
            let k = choose|k: int|
                0 <= k < rest.len() && public_named(#[trigger] rest[k]) && type_names(rest[k].ty).contains(w);
            assert(fs[k] == rest[k]);
        }
        if public_named(fs.last()) && type_names(fs.last().ty).contains(w) {
            assert(public_named(fs[fs.len() - 1]));
        }
        if exists|k: int|
            0 <= k < fs.len() && public_named(#[trigger] fs[k]) && type_names(fs[k].ty).contains(w) {
            let k = choose|k: int|
                0 <= k < fs.len() && public_named(#[trigger] fs[k]) && type_names(fs[k].ty).contains(w);
            if k < fs.len() - 1 {
                assert(rest[k] == fs[k]);
                assert(public_named(rest[k]));
            }
        }
    }
}

proof fn lemma_field_entries_from_public(fs: Seq<FieldModel>, n: usize)
    ensures
        lines_of_public_fields(field_entries(fs, n), fs, n),
    decreases fs.len(),
{
    if fs.len() > 0 {
        let rest = fs.drop_last();
        lemma_field_entries_from_public(rest, n);
        let a = field_entries(rest, n);
        assert forall|i: int| 0 <= i < field_entries(fs, n).len() implies exists|k: int|
            0 <= k < fs.len() && public_named(#[trigger] fs[k])
                && is_line_of(#[trigger] field_entries(fs, n)[i], fs[k], n) by {
            if i < a.len() {
                assert(field_entries(fs, n)[i] == a[i]);
                let k = choose|k: int|
                    0 <= k < rest.len() && public_named(#[trigger] rest[k]) && is_line_of(
                        #[trigger] a[i],
                        rest[k],
                        n,
                    );
                assert(fs[k] == rest[k]);
            } else {
                let k = fs.len() - 1;
                assert(fs[k] == fs.last());
                assert(public_named(fs[k]));
                assert(is_line_of(field_entries(fs, n)[i], fs[k], n));
            }
        }
    }
}

/// A struct with named fields shows exactly those of its fields that are
/// plain `pub`, in order, each as `  name: Type`; a `pub(crate)`,
/// `pub(super)` or private field is never shown. The names it records are
/// those of the types of the fields it shows, and no others.
pub proof fn law_struct_shows_public_fields(fs: Vec<FieldModel>, n: usize, w: Seq<char>)
    ensures
        shown_fields(FieldsModel::Named(fs), n) == fs@.filter_map(
            |f: FieldModel|
                if public_named(f) {
                    Some(field_line(f, n))
                } else {
                    None
                },
        ),
        lines_of_public_fields(shown_fields(FieldsModel::Named(fs), n), fs@, n),
        struct_refs(FieldsModel::Named(fs)).contains(w) <==> exists|k: int|
            0 <= k < fs@.len() && public_named(#[trigger] fs@[k]) && type_names(fs@[k].ty).contains(
                w,
            ),
{
    lemma_field_entries(fs@, n);
    lemma_fields_refs(fs@, w);
    lemma_field_entries_from_public(fs@, n);
    assert(shown_fields(FieldsModel::Named(fs), n) == field_entries(fs@, n));
}

/// The fields of a variant: none for a unit variant, else its tuple fields
/// or its named fields.
pub open spec fn variant_field_list(v: VariantModel) -> Seq<FieldModel> {
    match v.fields {
        FieldsModel::Unit => Seq::empty(),
        FieldsModel::Unnamed(fs) => fs@,
        FieldsModel::Named(fs) => fs@,
    }
}

proof fn lemma_field_types_refs(fs: Seq<FieldModel>, w: Seq<char>)
    ensures
        field_types_refs(fs).contains(w) <==> exists|k: int|
            0 <= k < fs.len() && type_names(#[trigger] fs[k].ty).contains(w),
    decreases fs.len(),
{
    if fs.len() > 0 {
        let rest = fs.drop_last();
        lemma_field_types_refs(rest, w);
        if exists|k: int| 0 <= k < rest.len() && type_names(#[trigger] rest[k].ty).contains(w) {
            let k = choose|k: int| 0 <= k < rest.len() && type_names(#[trigger] rest[k].ty).contains(w);
            assert(fs[k] == rest[k]);
        }
        if type_names(fs.last().ty).contains(w) {
            assert(type_names(fs[fs.len() - 1].ty).contains(w));
        }
        if exists|k: int| 0 <= k < fs.len() && type_names(#[trigger] fs[k].ty).contains(w) {
            let k = choose|k: int| 0 <= k < fs.len() && type_names(#[trigger] fs[k].ty).contains(w);
            if k < fs.len() - 1 {
                assert(rest[k] == fs[k]);
                assert(type_names(rest[k].ty).contains(w));
            }
        }
    }
}

/// The names an enum records are those of the type of every field of every
/// variant, tuple variants and struct-like variants alike, and no others:
/// `Leaf(Rc<u8>)` records `Rc` and `u8`.
pub proof fn law_enum_names(vs: Seq<VariantModel>, w: Seq<char>)
    ensures
        variants_refs(vs).contains(w) <==> exists|j: int, k: int|
            #![trigger variant_field_list(vs[j])[k]]
            0 <= j < vs.len() && 0 <= k < variant_field_list(vs[j]).len() && type_names(
                variant_field_list(vs[j])[k].ty,
            ).contains(w),
    decreases vs.len(),
{
    if vs.len() > 0 {
        let rest = vs.drop_last();
        let v = vs.last();
        law_enum_names(rest, w);
        lemma_field_types_refs(variant_field_list(v), w);
        assert(variant_refs(v) == field_types_refs(variant_field_list(v)));
        if exists|j: int, k: int|
            #![trigger variant_field_list(rest[j])[k]]
            0 <= j < rest.len() && 0 <= k < variant_field_list(rest[j]).len() && type_names(
                variant_field_list(rest[j])[k].ty,
            ).contains(w) {
            let (j, k) = choose|j: int, k: int|
                #![trigger variant_field_list(rest[j])[k]]
                0 <= j < rest.len() && 0 <= k < variant_field_list(rest[j]).len() && type_names(
                    variant_field_list(rest[j])[k].ty,
                ).contains(w);
            assert(vs[j] == rest[j]);
            assert(type_names(variant_field_list(vs[j])[k].ty).contains(w));
        }
        if exists|k: int|
            0 <= k < variant_field_list(v).len() && type_names(
                #[trigger] variant_field_list(v)[k].ty,
            ).contains(w) {
            let k = choose|k: int|
                0 <= k < variant_field_list(v).len() && type_names(
                    #[trigger] variant_field_list(v)[k].ty,
                ).contains(w);
            assert(vs[vs.len() - 1] == v);
            assert(type_names(variant_field_list(vs[vs.len() - 1])[k].ty).contains(w));
        }
        if exists|j: int, k: int|
            #![trigger variant_field_list(vs[j])[k]]
            0 <= j < vs.len() && 0 <= k < variant_field_list(vs[j]).len() && type_names(
                variant_field_list(vs[j])[k].ty,
            ).contains(w) {
            let (j, k) = choose|j: int, k: int|
                #![trigger variant_field_list(vs[j])[k]]
                0 <= j < vs.len() && 0 <= k < variant_field_list(vs[j]).len() && type_names(
                    variant_field_list(vs[j])[k].ty,
                ).contains(w);
            if j < vs.len() - 1 {
                assert(rest[j] == vs[j]);
                assert(type_names(variant_field_list(rest[j])[k].ty).contains(w));
            } else {
                assert(type_names(variant_field_list(v)[k].ty).contains(w));
            }
        }
    }
}

// ---------------------------------------------------------------------------
// The names that a shown item, and a whole file, records
// ---------------------------------------------------------------------------

/// `w` is recorded by the item `it` of a trait: a method records the names
/// of its signature; any other item records nothing.
pub open spec fn trait_item_names(it: TraitItemModel, w: Seq<char>) -> bool {
    match it {
        TraitItemModel::Fn(sig) => sig_refs(sig).contains(w),
        TraitItemModel::Other => false,
    }
}

proof fn lemma_trait_methods_refs(items: Seq<TraitItemModel>, w: Seq<char>)
    ensures
        methods_refs(trait_methods(items)).contains(w) <==> exists|i: int|
            0 <= i < items.len() && trait_item_names(#[trigger] items[i], w),
    decreases items.len(),
{
    if items.len() > 0 {
        let rest = items.drop_last();
        lemma_trait_methods_refs(rest, w);
        match items.last() {
            TraitItemModel::Fn(sig) => {
                assert(trait_methods(items) =~= trait_methods(rest).push(sig));
                assert(trait_methods(items).drop_last() =~= trait_methods(rest));
            },
            TraitItemModel::Other => {
                assert(trait_methods(items) =~= trait_methods(rest));
            },
        }
        if exists|i: int| 0 <= i < rest.len() && trait_item_names(#[trigger] rest[i], w) {
            let i = choose|i: int| 0 <= i < rest.len() && trait_item_names(#[trigger] rest[i], w);
            assert(items[i] == rest[i]);
            assert(trait_item_names(items[i], w));
        }
        if trait_item_names(items.last(), w) {
            assert(trait_item_names(items[items.len() - 1], w));
        }
        if exists|i: int| 0 <= i < items.len() && trait_item_names(#[trigger] items[i], w) {
            let i = choose|i: int| 0 <= i < items.len() && trait_item_names(#[trigger] items[i], w);
            if i < items.len() - 1 {
                assert(rest[i] == items[i]);
                assert(trait_item_names(rest[i], w));
            }
        }
    }
}

/// `w` is a capitalized word of a bound of one of the type parameters of `g`.
pub open spec fn bound_word(g: GenericsModel, w: Seq<char>) -> bool {
    exists|i: int| 0 <= i < g.params@.len() && word_of_some(#[trigger] param_bounds(g.params@[i]), w)
}

/// The names a shown trait records are exactly: the capitalized words of
/// the bounds of its type parameters and of the predicates of its `where`
/// clause, and the names each of its method signatures records.
pub proof fn law_trait_names(g: GenericsModel, items: Seq<TraitItemModel>, w: Seq<char>)
    ensures
        trait_refs(g, items).contains(w) <==> {
            ||| bound_word(g, w)
            ||| word_of_some(where_list(g), w)
            ||| exists|i: int| 0 <= i < items.len() && trait_item_names(#[trigger] items[i], w)
        },
{
    lemma_generic_params_refs(g.params@, w);
    lemma_strings_words(where_list(g), w);
    assert(where_refs(g) == strings_words(where_list(g)));
    lemma_trait_methods_refs(items, w);
}

/// `w` is recorded by the item `item` of a file. Only a `pub` item records
/// names: a function those of its signature; a struct those of the types of
/// its plain `pub` named fields; an enum those of the types of all fields
/// of its variants; a trait those of its bounds, `where` predicates and
/// methods; a type alias the capitalized words of its bounds; a constant or
/// static those of its type. A module or `use` item records none.
pub open spec fn item_names(item: ItemModel, w: Seq<char>) -> bool {
    match item {
        ItemModel::Fn { vis, sig, span } => vis is Public && sig_refs(sig).contains(w),
        ItemModel::Struct { attrs, vis, name, fields, span } => vis is Public && match fields {
            FieldsModel::Named(fs) => exists|k: int|
                0 <= k < fs@.len() && public_named(#[trigger] fs@[k]) && type_names(
                    fs@[k].ty,
                ).contains(w),
            _ => false,
        },
        ItemModel::Enum { attrs, vis, name, variants, span } => vis is Public && exists|
            j: int,
            k: int,
        |
            #![trigger variant_field_list(variants@[j])[k]]
            0 <= j < variants@.len() && 0 <= k < variant_field_list(variants@[j]).len()
                && type_names(variant_field_list(variants@[j])[k].ty).contains(w),
        ItemModel::Trait { vis, name, generics, items, span } => vis is Public && {
            ||| bound_word(generics, w)
            ||| word_of_some(where_list(generics), w)
            ||| exists|i: int|
                0 <= i < items@.len() && trait_item_names(#[trigger] items@[i], w)
        },
        ItemModel::Type { vis, name, generics, span } => vis is Public && bound_word(generics, w),
        ItemModel::Const { vis, name, ty, span } => vis is Public && type_names(ty).contains(w),
        ItemModel::Static { vis, is_mut, name, ty, span } => vis is Public && type_names(
            ty,
        ).contains(w),
        _ => false,
    }
}

/// What each item of a file records, by kind; see `item_names`. A
/// restricted or private item records nothing, whatever it contains.
pub proof fn law_item_names(item: ItemModel, w: Seq<char>)
    ensures
        item_refs(item).contains(w) <==> item_names(item, w),
{
    match item {
        ItemModel::Struct { attrs, vis, name, fields, span } => {
            match fields {
                FieldsModel::Named(fs) => {
                    law_struct_shows_public_fields(fs, 0, w);
                },
                _ => {},
            }
        },
        ItemModel::Enum { attrs, vis, name, variants, span } => {
            law_enum_names(variants@, w);
        },
        ItemModel::Trait { vis, name, generics, items, span } => {
            law_trait_names(generics, items@, w);
        },
        ItemModel::Type { vis, name, generics, span } => {
            lemma_generic_params_refs(generics.params@, w);
        },
        _ => {},
    }
}

/// The names referenced by a file are those that some item of it records:
/// every item counts, wherever it stands.
pub proof fn law_file_names(items: Seq<ItemModel>, w: Seq<char>)
    ensures
        refs_of(items).contains(w) <==> exists|i: int|
            0 <= i < items.len() && item_names(#[trigger] items[i], w),
    decreases items.len(),
{
    if items.len() > 0 {
        let rest = items.drop_last();
        law_file_names(rest, w);
        law_item_names(items.last(), w);
        if exists|i: int| 0 <= i < rest.len() && item_names(#[trigger] rest[i], w) {
            let i = choose|i: int| 0 <= i < rest.len() && item_names(#[trigger] rest[i], w);
            assert(items[i] == rest[i]);
            assert(item_names(items[i], w));
        }
        if item_names(items.last(), w) {
            assert(item_names(items[items.len() - 1], w));
        }
        if exists|i: int| 0 <= i < items.len() && item_names(#[trigger] items[i], w) {
            let i = choose|i: int| 0 <= i < items.len() && item_names(#[trigger] items[i], w);
            if i < items.len() - 1 {
                assert(rest[i] == items[i]);
                assert(item_names(rest[i], w));
            }
        }
    }
}

} // verus!
