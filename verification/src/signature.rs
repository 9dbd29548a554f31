//! Rendering of types, generics, parameters and function signatures, and
//! the type names that each of them refers to.
use vstd::prelude::*;
use crate::model::{GenericParamModel, GenericsModel, ParamModel, PatModel, SigModel, TypeModel};
use crate::text::{
    capitalized_words, collect_type_refs_from_str, join, join_strings, lemma_string_set_push,
    string_set, string_if, views, text_if,
};

verus! {

broadcast use vstd::seq::group_seq_axioms;

// ---------------------------------------------------------------------------
// Referenced type names
// ---------------------------------------------------------------------------

/// The names in `after` are those in `before` and those of `refs`.
pub open spec fn adds(before: Seq<String>, after: Seq<String>, refs: Set<Seq<char>>) -> bool {
    string_set(after) == string_set(before).union(refs)
}

pub proof fn lemma_adds_chain(
    a: Seq<String>,
    b: Seq<String>,
    c: Seq<String>,
    x: Set<Seq<char>>,
    y: Set<Seq<char>>,
)
    requires
        adds(a, b, x),
        adds(b, c, y),
    ensures
        adds(a, c, x.union(y)),
{
    assert(string_set(c) =~= string_set(a).union(x.union(y)));
}

pub proof fn lemma_adds_nothing(a: Seq<String>)
    ensures
        adds(a, a, Set::empty()),
{
    assert(string_set(a) =~= string_set(a).union(Set::empty()));
}

/// The first segment of each path that has one: the name by which a type
/// path refers to a type (or to the module or crate it starts from).
pub open spec fn path_heads(ps: Seq<Vec<String>>) -> Set<Seq<char>>
    decreases ps.len(),
{
    if ps.len() == 0 {
        Set::empty()
    } else {
        path_heads(ps.drop_last()).union(
            if ps.last()@.len() > 0 {
                set![ps.last()@[0]@]
            } else {
                Set::empty()
            },
        )
    }
}

/// The names that a type refers to.
pub open spec fn type_names(t: TypeModel) -> Set<Seq<char>> {
    path_heads(t.paths@)
}

/// The capitalized words of all the strings of `ss`.
pub open spec fn strings_words(ss: Seq<String>) -> Set<Seq<char>>
    decreases ss.len(),
{
    if ss.len() == 0 {
        Set::empty()
    } else {
        strings_words(ss.drop_last()).union(capitalized_words(ss.last()@))
    }
}

/// Records the names that `ty` refers to and returns its text.
pub fn format_type(ty: &TypeModel, type_refs: &mut Vec<String>) -> (r: String)
    ensures
        r@ == ty.text@,
        adds(old(type_refs)@, final(type_refs)@, type_names(*ty)),
{
    let ghost start = type_refs@;
    let n = ty.paths.len();
    let mut i: usize = 0;
    proof {
        assert(ty.paths@.take(0) =~= Seq::<Vec<String>>::empty());
        lemma_adds_nothing(start);
    }
    while i < n
        invariant
            n == ty.paths@.len(),
            i <= n,
            adds(start, type_refs@, path_heads(ty.paths@.take(i as int))),
        decreases n - i,
    {
        let ghost before = type_refs@;
        let path = &ty.paths[i];
        if path.len() > 0 {
            type_refs.push(path[0].clone());
            proof {
                lemma_string_set_push(before, path@[0]);
                assert(type_refs@ =~= before.push(path@[0]));
                assert(string_set(before).insert(path@[0]@) =~= string_set(before).union(
                    set![path@[0]@],
                ));
            }
        } else {
            proof {
                lemma_adds_nothing(before);
            }
        }
        proof {
            let t1 = ty.paths@.take(i + 1);
            assert(t1.drop_last() =~= ty.paths@.take(i as int));
            lemma_adds_chain(
                start,
                before,
                type_refs@,
                path_heads(ty.paths@.take(i as int)),
                if path@.len() > 0 {
                    set![path@[0]@]
                } else {
                    Set::empty()
                },
            );
        }
        i = i + 1;
    }
    proof {
        assert(ty.paths@.take(n as int) =~= ty.paths@);
    }
    ty.text.clone()
}

/// Records the capitalized words of every string of `ss`.
fn collect_words_of_all(ss: &Vec<String>, type_refs: &mut Vec<String>)
    ensures
        adds(old(type_refs)@, final(type_refs)@, strings_words(ss@)),
{
    let ghost start = type_refs@;
    let n = ss.len();
    let mut i: usize = 0;
    proof {
        assert(ss@.take(0) =~= Seq::<String>::empty());
        lemma_adds_nothing(start);
    }
    while i < n
        invariant
            n == ss@.len(),
            i <= n,
            adds(start, type_refs@, strings_words(ss@.take(i as int))),
        decreases n - i,
    {
        let ghost before = type_refs@;
        collect_type_refs_from_str(ss[i].as_str(), type_refs);
        proof {
            let t1 = ss@.take(i + 1);
            assert(t1.drop_last() =~= ss@.take(i as int));
            lemma_adds_chain(
                start,
                before,
                type_refs@,
                strings_words(ss@.take(i as int)),
                capitalized_words(ss@[i as int]@),
            );
        }
        i = i + 1;
    }
    proof {
        assert(ss@.take(n as int) =~= ss@);
    }
}

// ---------------------------------------------------------------------------
// Generics
// ---------------------------------------------------------------------------

pub open spec fn generic_param_text(p: GenericParamModel) -> Seq<char> {
    match p {
        GenericParamModel::Type { name, bounds } => {
            if bounds@.len() == 0 {
                name@
            } else {
                name@ + ": "@ + join(views(bounds@), " + "@)
            }
        },
        GenericParamModel::Lifetime { name } => "'"@ + name@,
        GenericParamModel::Const { name, tokens } => "const "@ + name@ + ": "@ + tokens@ + " . ty"@,
    }
}

pub open spec fn generic_param_refs(p: GenericParamModel) -> Set<Seq<char>> {
    match p {
        GenericParamModel::Type { name, bounds } => strings_words(bounds@),
        _ => Set::empty(),
    }
}

pub open spec fn generic_params_refs(ps: Seq<GenericParamModel>) -> Set<Seq<char>>
    decreases ps.len(),
{
    if ps.len() == 0 {
        Set::empty()
    } else {
        generic_params_refs(ps.drop_last()).union(generic_param_refs(ps.last()))
    }
}

pub open spec fn generic_params_texts(ps: Seq<GenericParamModel>) -> Seq<Seq<char>> {
    ps.map_values(|p: GenericParamModel| generic_param_text(p))
}

/// `<P1, P2, ...>`, or nothing when there are no parameters.
pub open spec fn generics_text(g: GenericsModel) -> Seq<char> {
    if g.params@.len() == 0 {
        Seq::empty()
    } else {
        "<"@ + join(generic_params_texts(g.params@), ", "@) + ">"@
    }
}

pub open spec fn generics_refs(g: GenericsModel) -> Set<Seq<char>> {
    generic_params_refs(g.params@)
}

/// ` where P1, P2, ...` when a `where` clause is written.
pub open spec fn where_text(g: GenericsModel) -> Seq<char> {
    match g.where_predicates {
        Some(ps) => " where "@ + join(views(ps@), ", "@),
        None => Seq::empty(),
    }
}

pub open spec fn where_refs(g: GenericsModel) -> Set<Seq<char>> {
    match g.where_predicates {
        Some(ps) => strings_words(ps@),
        None => Set::empty(),
    }
}

fn format_generic_param(p: &GenericParamModel, type_refs: &mut Vec<String>) -> (r: String)
    ensures
        r@ == generic_param_text(*p),
        adds(old(type_refs)@, final(type_refs)@, generic_param_refs(*p)),
{
    match p {
        GenericParamModel::Type { name, bounds } => {
            collect_words_of_all(bounds, type_refs);
            if bounds.len() == 0 {
                name.clone()
            } else {
                let joined = join_strings(bounds, " + ");
                let mut r = name.clone();
                r.append(": ");
                r.append(joined.as_str());
                r
            }
        },
        GenericParamModel::Lifetime { name } => {
            proof {
                lemma_adds_nothing(type_refs@);
            }
            let mut r = String::from_str("'");
            r.append(name.as_str());
            r
        },
        GenericParamModel::Const { name, tokens } => {
            proof {
                lemma_adds_nothing(type_refs@);
            }
            let mut r = String::from_str("const ");
            r.append(name.as_str());
            r.append(": ");
            r.append(tokens.as_str());
            r.append(" . ty");
            r
        },
    }
}

/// Renders the generic parameters as `<...>` (nothing when there are none),
/// recording the capitalized words of their bounds.
pub fn format_generics(generics: &GenericsModel, type_refs: &mut Vec<String>) -> (r: String)
    ensures
        r@ == generics_text(*generics),
        adds(old(type_refs)@, final(type_refs)@, generics_refs(*generics)),
{
    let ghost start = type_refs@;
    let n = generics.params.len();
    if n == 0 {
        proof {
            lemma_adds_nothing(start);
        }
        return String::new();
    }
    let mut parts: Vec<String> = Vec::new();
    let mut i: usize = 0;
    proof {
        assert(generics.params@.take(0) =~= Seq::<GenericParamModel>::empty());
        lemma_adds_nothing(start);
    }
    while i < n
        invariant
            n == generics.params@.len(),
            i <= n,
            views(parts@) == generic_params_texts(generics.params@.take(i as int)),
            adds(start, type_refs@, generic_params_refs(generics.params@.take(i as int))),
        decreases n - i,
    {
        let ghost before = type_refs@;
        let ghost old_parts = parts@;
        let part = format_generic_param(&generics.params[i], type_refs);
        parts.push(part);
        proof {
            let t1 = generics.params@.take(i + 1);
            assert(t1.drop_last() =~= generics.params@.take(i as int));
            assert(views(parts@) =~= views(old_parts).push(parts@[i as int]@));
            assert(generic_params_texts(t1) =~= generic_params_texts(
                generics.params@.take(i as int),
            ).push(generic_param_text(generics.params@[i as int])));
            lemma_adds_chain(
                start,
                before,
                type_refs@,
                generic_params_refs(generics.params@.take(i as int)),
                generic_param_refs(generics.params@[i as int]),
            );
        }
        i = i + 1;
    }
    proof {
        assert(generics.params@.take(n as int) =~= generics.params@);
    }
    let joined = join_strings(&parts, ", ");
    let mut r = String::from_str("<");
    r.append(joined.as_str());
    r.append(">");
    r
}

/// Renders the `where` clause as ` where ...` (nothing when none is
/// written), recording the capitalized words of its predicates.
pub fn format_where_clause(generics: &GenericsModel, type_refs: &mut Vec<String>) -> (r: String)
    ensures
        r@ == where_text(*generics),
        adds(old(type_refs)@, final(type_refs)@, where_refs(*generics)),
{
    match &generics.where_predicates {
        Some(preds) => {
            collect_words_of_all(preds, type_refs);
            let joined = join_strings(preds, ", ");
            let mut r = String::from_str(" where ");
            r.append(joined.as_str());
            r
        },
        None => {
            proof {
                lemma_adds_nothing(type_refs@);
            }
            String::new()
        },
    }
}

// ---------------------------------------------------------------------------
// Parameters and return type
// ---------------------------------------------------------------------------

pub open spec fn pat_text(p: PatModel) -> Seq<char> {
    match p {
        PatModel::Ident(name) => name@,
        PatModel::Wild => "_"@,
        PatModel::Other(text) => text@,
    }
}

pub open spec fn lifetime_text(l: Option<String>) -> Seq<char> {
    match l {
        Some(name) => "'"@ + name@ + " "@,
        None => Seq::empty(),
    }
}

pub open spec fn param_text(p: ParamModel) -> Seq<char> {
    match p {
        ParamModel::Receiver { reference, lifetime, mutable } => text_if(reference, "&"@)
            + lifetime_text(lifetime) + text_if(mutable, "mut "@) + "self"@,
        ParamModel::Typed { pat, ty } => pat_text(pat) + ": "@ + ty.text@,
    }
}

pub open spec fn param_refs(p: ParamModel) -> Set<Seq<char>> {
    match p {
        ParamModel::Typed { pat, ty } => type_names(ty),
        _ => Set::empty(),
    }
}

pub open spec fn params_refs(ps: Seq<ParamModel>) -> Set<Seq<char>>
    decreases ps.len(),
{
    if ps.len() == 0 {
        Set::empty()
    } else {
        params_refs(ps.drop_last()).union(param_refs(ps.last()))
    }
}

pub open spec fn params_texts(ps: Seq<ParamModel>) -> Seq<Seq<char>> {
    ps.map_values(|p: ParamModel| param_text(p))
}

/// The parameters separated by `", "`.
pub open spec fn params_text(ps: Seq<ParamModel>) -> Seq<char> {
    join(params_texts(ps), ", "@)
}

pub open spec fn return_text(output: Option<TypeModel>) -> Seq<char> {
    match output {
        Some(t) => " -> "@ + t.text@,
        None => Seq::empty(),
    }
}

pub open spec fn return_refs(output: Option<TypeModel>) -> Set<Seq<char>> {
    match output {
        Some(t) => type_names(t),
        None => Set::empty(),
    }
}

fn format_param(p: &ParamModel, type_refs: &mut Vec<String>) -> (r: String)
    ensures
        r@ == param_text(*p),
        adds(old(type_refs)@, final(type_refs)@, param_refs(*p)),
{
    match p {
        ParamModel::Receiver { reference, lifetime, mutable } => {
            proof {
                lemma_adds_nothing(type_refs@);
            }
            let lt = match lifetime {
                Some(name) => {
                    let mut t = String::from_str("'");
                    t.append(name.as_str());
                    t.append(" ");
                    t
                },
                None => String::new(),
            };
            let mutability = string_if(*mutable, "mut ");
            let mut r = string_if(*reference, "&");
            r.append(lt.as_str());
            r.append(mutability.as_str());
            r.append("self");
            r
        },
        ParamModel::Typed { pat, ty } => {
            let name = match pat {
                PatModel::Ident(n) => n.clone(),
                PatModel::Wild => String::from_str("_"),
                PatModel::Other(text) => text.clone(),
            };
            let t = format_type(ty, type_refs);
            let mut r = name;
            r.append(": ");
            r.append(t.as_str());
            r
        },
    }
}

/// Renders the parameters separated by `", "`, recording the names their
/// types refer to.
pub fn format_fn_params(params: &Vec<ParamModel>, type_refs: &mut Vec<String>) -> (r: String)
    ensures
        r@ == params_text(params@),
        adds(old(type_refs)@, final(type_refs)@, params_refs(params@)),
{
    let ghost start = type_refs@;
    let n = params.len();
    let mut parts: Vec<String> = Vec::new();
    let mut i: usize = 0;
    proof {
        assert(params@.take(0) =~= Seq::<ParamModel>::empty());
        lemma_adds_nothing(start);
    }
    while i < n
        invariant
            n == params@.len(),
            i <= n,
            views(parts@) == params_texts(params@.take(i as int)),
            adds(start, type_refs@, params_refs(params@.take(i as int))),
        decreases n - i,
    {
        let ghost before = type_refs@;
        let ghost old_parts = parts@;
        let part = format_param(&params[i], type_refs);
        parts.push(part);
        proof {
            let t1 = params@.take(i + 1);
            assert(t1.drop_last() =~= params@.take(i as int));
            assert(views(parts@) =~= views(old_parts).push(parts@[i as int]@));
            assert(params_texts(t1) =~= params_texts(params@.take(i as int)).push(
                param_text(params@[i as int]),
            ));
            lemma_adds_chain(
                start,
                before,
                type_refs@,
                params_refs(params@.take(i as int)),
                param_refs(params@[i as int]),
            );
        }
        i = i + 1;
    }
    proof {
        assert(params@.take(n as int) =~= params@);
    }
    join_strings(&parts, ", ")
}

/// Renders the return type as ` -> T` (nothing for the default `()`).
pub fn format_return_type(output: &Option<TypeModel>, type_refs: &mut Vec<String>) -> (r: String)
    ensures
        r@ == return_text(*output),
        adds(old(type_refs)@, final(type_refs)@, return_refs(*output)),
{
    match output {
        Some(ty) => {
            let t = format_type(ty, type_refs);
            let mut r = String::from_str(" -> ");
            r.append(t.as_str());
            r
        },
        None => {
            proof {
                lemma_adds_nothing(type_refs@);
            }
            String::new()
        },
    }
}

// ---------------------------------------------------------------------------
// Signatures
// ---------------------------------------------------------------------------

/// `async unsafe fn name<G>(params) -> R where W`, each part only as written.
pub open spec fn sig_text(s: SigModel) -> Seq<char> {
    text_if(s.is_async, "async "@) + text_if(s.is_unsafe, "unsafe "@) + "fn "@ + s.name@ + generics_text(
        s.generics,
    ) + "("@ + params_text(s.params@) + ")"@ + return_text(s.output) + where_text(s.generics)
}

/// The names a signature refers to: the capitalized words of its bounds and
/// predicates, and the type names of its parameter and return types.
pub open spec fn sig_refs(s: SigModel) -> Set<Seq<char>> {
    generics_refs(s.generics).union(params_refs(s.params@)).union(return_refs(s.output)).union(
        where_refs(s.generics),
    )
}

/// Renders a signature, recording the names it refers to.
pub fn format_sig(sig: &SigModel, type_refs: &mut Vec<String>) -> (r: String)
    ensures
        r@ == sig_text(*sig),
        adds(old(type_refs)@, final(type_refs)@, sig_refs(*sig)),
{
    let ghost r0 = type_refs@;
    let generics = format_generics(&sig.generics, type_refs);
    let ghost r1 = type_refs@;
    let params = format_fn_params(&sig.params, type_refs);
    let ghost r2 = type_refs@;
    let ret = format_return_type(&sig.output, type_refs);
    let ghost r3 = type_refs@;
    let where_clause = format_where_clause(&sig.generics, type_refs);
    proof {
        lemma_adds_chain(r0, r1, r2, generics_refs(sig.generics), params_refs(sig.params@));
        lemma_adds_chain(
            r0,
            r2,
            r3,
            generics_refs(sig.generics).union(params_refs(sig.params@)),
            return_refs(sig.output),
        );
        lemma_adds_chain(
            r0,
            r3,
            type_refs@,
            generics_refs(sig.generics).union(params_refs(sig.params@)).union(
                return_refs(sig.output),
            ),
            where_refs(sig.generics),
        );
    }
    let unsafe_prefix = string_if(sig.is_unsafe, "unsafe ");
    let mut r = string_if(sig.is_async, "async ");
    r.append(unsafe_prefix.as_str());
    r.append("fn ");
    r.append(sig.name.as_str());
    r.append(generics.as_str());
    r.append("(");
    r.append(params.as_str());
    r.append(")");
    r.append(ret.as_str());
    r.append(where_clause.as_str());
    r
}

} // verus!
