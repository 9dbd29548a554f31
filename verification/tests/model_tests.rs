use zat_rust_viewer::collect_type_refs_from_str;
use zat_rust_viewer::model::{
    AttrModel, FieldModel, FieldsModel, GenericParamModel, GenericsModel, ItemModel, LineSpan,
    ParamModel, PatModel, SigModel, TraitItemModel, TypeModel, UseTreeModel, VariantModel, Vis,
};
use zat_rust_viewer::outline::{outline_of_items, try_outline_of_items};
use zat_rust_viewer::OutlineResult;

fn s(x: &str) -> String {
    x.to_string()
}

fn span(start: usize, end: usize) -> LineSpan {
    LineSpan { start, end }
}

fn ty(text: &str, paths: &[&[&str]]) -> TypeModel {
    TypeModel {
        text: s(text),
        paths: paths.iter().map(|p| p.iter().map(|x| s(x)).collect()).collect(),
    }
}

fn no_generics() -> GenericsModel {
    GenericsModel { params: Vec::new(), where_predicates: None }
}

fn sig(name: &str, params: Vec<ParamModel>, output: Option<TypeModel>) -> SigModel {
    SigModel {
        is_async: false,
        is_unsafe: false,
        name: s(name),
        generics: no_generics(),
        params,
        output,
    }
}

fn use_item(vis: Vis, tree: UseTreeModel, text: &str, sp: LineSpan) -> ItemModel {
    ItemModel::Use { vis, tree, tree_text: s(text), span: sp }
}

fn path(segments: &[&str], last: UseTreeModel) -> UseTreeModel {
    let mut t = last;
    for _ in segments {
        t = UseTreeModel::Path(Box::new(t));
    }
    t
}

fn rows(r: &OutlineResult) -> Vec<(String, usize, usize)> {
    r.exports.iter().map(|e| (e.signature.clone(), e.start_line, e.end_line)).collect()
}

fn import_rows(r: &OutlineResult) -> Vec<(String, usize, usize)> {
    r.imports.iter().map(|e| (e.source_text.clone(), e.start_line, e.end_line)).collect()
}

#[test]
fn full_signature_rendering() {
    let generics = GenericsModel {
        params: vec![
            GenericParamModel::Lifetime { name: s("a") },
            GenericParamModel::Type { name: s("T"), bounds: vec![s("Clone"), s("Into < Out >")] },
            GenericParamModel::Const { name: s("N"), tokens: s("const N : usize") },
        ],
        where_predicates: Some(vec![s("T : Send"), s("Out : Sync")]),
    };
    let f = SigModel {
        is_async: true,
        is_unsafe: true,
        name: s("go"),
        generics,
        params: vec![
            ParamModel::Receiver { reference: true, lifetime: Some(s("a")), mutable: true },
            ParamModel::Typed { pat: PatModel::Ident(s("x")), ty: ty("T", &[&["T"]]) },
            ParamModel::Typed { pat: PatModel::Wild, ty: ty("u8", &[&["u8"]]) },
            ParamModel::Typed { pat: PatModel::Other(s("(a , b)")), ty: ty("(u8 , u8)", &[]) },
        ],
        output: Some(ty("Out", &[&["Out"]])),
    };
    let items = vec![ItemModel::Fn { vis: Vis::Public, sig: f, span: span(1, 3) }];
    let r = outline_of_items("a\nb\nc\n", &items);
    assert_eq!(
        rows(&r),
        vec![(
            s("async unsafe fn go<'a, T: Clone + Into < Out >, const N: const N : usize . ty>(&'a mut self, x: T, _: u8, (a , b): (u8 , u8)) -> Out where T : Send, Out : Sync"),
            1,
            3
        )]
    );
}

#[test]
fn receivers_by_value_and_reference() {
    let f = sig(
        "m",
        vec![
            ParamModel::Receiver { reference: false, lifetime: None, mutable: true },
        ],
        None,
    );
    let g = sig(
        "n",
        vec![ParamModel::Receiver { reference: true, lifetime: None, mutable: false }],
        None,
    );
    let items = vec![
        ItemModel::Fn { vis: Vis::Public, sig: f, span: span(1, 1) },
        ItemModel::Fn { vis: Vis::Public, sig: g, span: span(2, 2) },
    ];
    let r = outline_of_items("x\ny\n", &items);
    assert_eq!(rows(&r), vec![(s("fn m(mut self)"), 1, 1), (s("fn n(&self)"), 2, 2)]);
}

#[test]
fn positions_fall_back_to_whole_source() {
    let items = vec![ItemModel::Mod { vis: Vis::Public, name: s("m"), span: span(0, 0) }];
    let r = outline_of_items("one\ntwo\r\nthree", &items);
    assert_eq!(rows(&r), vec![(s("mod m"), 1, 3)]);
}

#[test]
fn struct_entries_from_model() {
    let attrs = vec![
        AttrModel { path_ident: Some(s("doc")), arg_paths: Some(vec![vec![s("X")]]) },
        AttrModel { path_ident: None, arg_paths: Some(vec![vec![s("Y")]]) },
        AttrModel { path_ident: Some(s("derive")), arg_paths: Some(vec![vec![s("a"), s("B")], vec![s("C")]]) },
        AttrModel { path_ident: Some(s("derive")), arg_paths: None },
    ];
    let fields = FieldsModel::Named(vec![
        FieldModel { vis: Vis::Public, name: Some(s("x")), ty: ty("u8", &[&["u8"]]), span: span(3, 3) },
        FieldModel { vis: Vis::Inherited, name: Some(s("y")), ty: ty("u8", &[]), span: span(4, 4) },
        FieldModel { vis: Vis::Public, name: None, ty: ty("u8", &[]), span: span(5, 5) },
    ]);
    let items = vec![ItemModel::Struct {
        attrs,
        vis: Vis::Public,
        name: s("S"),
        fields,
        span: span(1, 6),
    }];
    let r = outline_of_items("", &items);
    assert_eq!(
        rows(&r),
        vec![
            (s("#[derive(a::B, C)]\nstruct S {"), 1, 6),
            (s("  x: u8"), 3, 3),
            (s("}"), 0, 0),
        ]
    );
}

#[test]
fn unit_and_tuple_structs_are_one_line() {
    let items = vec![
        ItemModel::Struct {
            attrs: Vec::new(),
            vis: Vis::Public,
            name: s("U"),
            fields: FieldsModel::Unit,
            span: span(1, 1),
        },
        ItemModel::Struct {
            attrs: Vec::new(),
            vis: Vis::Public,
            name: s("T"),
            fields: FieldsModel::Unnamed(vec![FieldModel {
                vis: Vis::Public,
                name: None,
                ty: ty("u8", &[]),
                span: span(2, 2),
            }]),
            span: span(2, 2),
        },
    ];
    let r = outline_of_items("u\nt\n", &items);
    assert_eq!(rows(&r), vec![(s("struct U"), 1, 1), (s("struct T"), 2, 2)]);
}

#[test]
fn enum_entries_from_model() {
    let variants = vec![
        VariantModel { name: s("A"), fields: FieldsModel::Unit },
        VariantModel {
            name: s("B"),
            fields: FieldsModel::Unnamed(vec![
                FieldModel { vis: Vis::Inherited, name: None, ty: ty("u8", &[]), span: span(0, 0) },
                FieldModel { vis: Vis::Inherited, name: None, ty: ty("Foo", &[&["Foo"]]), span: span(0, 0) },
            ]),
        },
        VariantModel {
            name: s("C"),
            fields: FieldsModel::Named(vec![FieldModel {
                vis: Vis::Inherited,
                name: Some(s("k")),
                ty: ty("Bar", &[&["Bar"]]),
                span: span(0, 0),
            }]),
        },
    ];
    let items = vec![
        use_item(Vis::Inherited, path(&["m"], UseTreeModel::Name(s("Bar"))), "m :: Bar", span(1, 1)),
        ItemModel::Enum { attrs: Vec::new(), vis: Vis::Public, name: s("E"), variants, span: span(2, 6) },
    ];
    let r = outline_of_items("use m::Bar;\npub enum E {\n A,\n B(u8, Foo),\n C { k: Bar },\n}\n", &items);
    assert_eq!(
        rows(&r),
        vec![
            (s("enum E {"), 2, 6),
            (s("  A"), 0, 0),
            (s("  B(u8, Foo)"), 0, 0),
            (s("  C { k: Bar }"), 0, 0),
            (s("}"), 0, 0),
        ]
    );
    assert_eq!(import_rows(&r), vec![(s("use m::Bar;"), 1, 1)]);
}

#[test]
fn unnamed_member_of_shown_enum_cannot_be_rendered() {
    let variants = vec![VariantModel {
        name: s("C"),
        fields: FieldsModel::Named(vec![FieldModel {
            vis: Vis::Inherited,
            name: None,
            ty: ty("u8", &[]),
            span: span(0, 0),
        }]),
    }];
    let items = vec![ItemModel::Enum {
        attrs: Vec::new(),
        vis: Vis::Public,
        name: s("E"),
        variants,
        span: span(1, 1),
    }];
    assert!(try_outline_of_items("x", &items).is_none());
}

#[test]
fn import_outside_source_lines_is_refused() {
    let items = vec![
        use_item(Vis::Inherited, UseTreeModel::Name(s("Foo")), "Foo", span(5, 2)),
        ItemModel::Const { vis: Vis::Public, name: s("C"), ty: ty("Foo", &[&["Foo"]]), span: span(1, 1) },
    ];
    assert!(try_outline_of_items("a\nb\n", &items).is_none());
    let fine = vec![
        use_item(Vis::Inherited, UseTreeModel::Name(s("Foo")), "Foo", span(2, 9)),
        ItemModel::Const { vis: Vis::Public, name: s("C"), ty: ty("Foo", &[&["Foo"]]), span: span(1, 1) },
    ];
    let r = try_outline_of_items("a\nb\n", &fine).unwrap();
    assert_eq!(import_rows(&r), vec![(s("b"), 2, 9)]);
}

#[test]
fn import_without_positions_has_no_text() {
    let items = vec![
        use_item(Vis::Inherited, UseTreeModel::Rename(s("Alias")), "X as Alias", span(0, 0)),
        ItemModel::Static {
            vis: Vis::Public,
            is_mut: false,
            name: s("S"),
            ty: ty("Alias", &[&["Alias"]]),
            span: span(0, 0),
        },
    ];
    let r = outline_of_items("l1\nl2\n", &items);
    assert_eq!(import_rows(&r), vec![(s(""), 1, 2)]);
    assert_eq!(rows(&r), vec![(s("static S: Alias"), 1, 2)]);
}

#[test]
fn group_and_glob_trees() {
    let tree = UseTreeModel::Group(vec![
        UseTreeModel::Glob,
        path(&["x"], UseTreeModel::Name(s("Want"))),
    ]);
    let glob_only = UseTreeModel::Glob;
    let items = vec![
        use_item(Vis::Inherited, tree, "{ * , x :: Want }", span(1, 1)),
        use_item(Vis::Inherited, glob_only, "*", span(2, 2)),
        ItemModel::Type {
            vis: Vis::Public,
            name: s("A"),
            generics: GenericsModel {
                params: vec![GenericParamModel::Type { name: s("T"), bounds: vec![s("Want")] }],
                where_predicates: None,
            },
            span: span(3, 3),
        },
    ];
    let r = outline_of_items("use {*, x::Want};\nuse *;\npub type A<T: Want> = T;\n", &items);
    assert_eq!(import_rows(&r), vec![(s("use {*, x::Want};"), 1, 1)]);
    assert_eq!(rows(&r), vec![(s("type A<T: Want>"), 3, 3)]);
}

#[test]
fn trait_entries_from_model() {
    let items_of_trait = vec![
        TraitItemModel::Other,
        TraitItemModel::Fn(sig("a", Vec::new(), None)),
        TraitItemModel::Fn(sig("b", Vec::new(), Some(ty("Ret", &[&["Ret"]])))),
    ];
    let items = vec![
        use_item(Vis::Restricted, UseTreeModel::Name(s("Ret")), "Ret", span(1, 1)),
        ItemModel::Trait {
            vis: Vis::Public,
            name: s("Tr"),
            generics: no_generics(),
            items: items_of_trait,
            span: span(2, 5),
        },
        ItemModel::Trait {
            vis: Vis::Public,
            name: s("Empty"),
            generics: GenericsModel { params: Vec::new(), where_predicates: Some(Vec::new()) },
            items: vec![TraitItemModel::Other],
            span: span(6, 6),
        },
    ];
    let r = outline_of_items("use Ret;\n\n\n\n\n\n", &items);
    assert_eq!(
        rows(&r),
        vec![(s("trait Tr {\n  fn a();\n  fn b() -> Ret;\n}"), 2, 5), (s("trait Empty where "), 6, 6)]
    );
    assert_eq!(import_rows(&r), vec![(s("use Ret;"), 1, 1)]);
}

#[test]
fn collect_type_refs_from_str_words() {
    let mut refs: Vec<String> = vec![s("Keep")];
    collect_type_refs_from_str("T: Into<Vec<my_Type>> + Ärger + _X + a::B9_c", &mut refs);
    assert_eq!(refs[0], "Keep");
    let mut got = refs.clone();
    got.sort();
    assert_eq!(got, vec![s("B9_c"), s("Into"), s("Keep"), s("T"), s("Vec"), s("Ärger")]);
}

#[test]
fn collect_type_refs_from_empty_and_separator_only() {
    let mut refs: Vec<String> = Vec::new();
    collect_type_refs_from_str("", &mut refs);
    collect_type_refs_from_str(" <> :: , ", &mut refs);
    assert!(refs.is_empty());
}
