//! Plain text helpers: joining, splitting a source into lines, and the
//! identifier-word scan that finds type names in rendered token text.
use vstd::prelude::*;

verus! {

broadcast use vstd::seq::group_seq_axioms;

// ---------------------------------------------------------------------------
// Joining
// ---------------------------------------------------------------------------

/// The views of a sequence of strings.
pub open spec fn views(s: Seq<String>) -> Seq<Seq<char>> {
    s.map_values(|x: String| x@)
}

/// `parts` joined with `sep` between consecutive parts (as `[T]::join`).
pub open spec fn join(parts: Seq<Seq<char>>, sep: Seq<char>) -> Seq<char>
    decreases parts.len(),
{
    if parts.len() == 0 {
        Seq::empty()
    } else if parts.len() == 1 {
        parts[0]
    } else {
        join(parts.drop_last(), sep) + sep + parts.last()
    }
}

/// Joins the strings of `parts`, placing `sep` between consecutive ones.
pub fn join_strings(parts: &Vec<String>, sep: &str) -> (r: String)
    ensures
        r@ == join(views(parts@), sep@),
{
    let mut r = String::new();
    let n = parts.len();
    let mut i: usize = 0;
    while i < n
        invariant
            n == parts@.len(),
            i <= n,
            r@ == join(views(parts@).take(i as int), sep@),
        decreases n - i,
    {
        let ghost before = views(parts@).take(i as int);
        if i > 0 {
            r.append(sep);
        }
        r.append(parts[i].as_str());
        proof {
            let after = views(parts@).take(i + 1);
            assert(after.drop_last() =~= before);
            if i == 0 {
                assert(r@ =~= after[0]);
            }
        }
        i = i + 1;
    }
    assert(views(parts@).take(n as int) =~= views(parts@));
    r
}

/// `s` when `b` holds, else nothing.
pub open spec fn text_if(b: bool, s: Seq<char>) -> Seq<char> {
    if b {
        s
    } else {
        Seq::empty()
    }
}

/// A string holding `s` when `b` holds, else the empty string.
pub fn string_if(b: bool, s: &str) -> (r: String)
    ensures
        r@ == text_if(b, s@),
{
    if b {
        String::from_str(s)
    } else {
        String::new()
    }
}

// ---------------------------------------------------------------------------
// Characters
// ---------------------------------------------------------------------------

/// The characters of `s`, in order.
pub fn chars_of(s: &str) -> (r: Vec<char>)
    ensures
        r@ == s@,
{
    broadcast use vstd::string::axiom_spec_iter;

    let mut v: Vec<char> = Vec::new();
    for c in it: s.chars()
        invariant
            it.seq() == s@,
            v@ == s@.take(it.index()),
    {
        v.push(c);
    }
    v
}

/// Whether `char::is_alphanumeric` holds of `c` (Unicode Alphabetic or Numeric).
pub uninterp spec fn alphanumeric(c: char) -> bool;

/// Whether `char::is_uppercase` holds of `c` (Unicode Uppercase).
pub uninterp spec fn uppercase(c: char) -> bool;

/// An ASCII letter or digit.
pub open spec fn ascii_alphanumeric(c: char) -> bool {
    (48 <= c as u32 && c as u32 <= 57) || (65 <= c as u32 && c as u32 <= 90) || (97 <= c as u32
        && c as u32 <= 122)
}

/// An ASCII uppercase letter.
pub open spec fn ascii_uppercase(c: char) -> bool {
    65 <= c as u32 && c as u32 <= 90
}

/// Calls `char::is_alphanumeric`; its result is named `alphanumeric(c)`. On
/// ASCII it holds exactly of the letters and digits (the Unicode Alphabetic
/// and Numeric properties that the documentation refers to).
#[verifier::external_body]
pub fn char_is_alphanumeric(c: char) -> (b: bool)
    ensures
        b == alphanumeric(c),
        (c as u32) < 128 ==> b == ascii_alphanumeric(c),
{
    c.is_alphanumeric()
}

/// Calls `char::is_uppercase`; its result is named `uppercase(c)`. On ASCII
/// it holds exactly of `A` to `Z` (the Unicode Uppercase property that the
/// documentation refers to).
#[verifier::external_body]
pub fn char_is_uppercase(c: char) -> (b: bool)
    ensures
        b == uppercase(c),
        (c as u32) < 128 ==> b == ascii_uppercase(c),
{
    c.is_uppercase()
}

/// Calls `String::push`, which appends one character to the string.
#[verifier::external_body]
pub fn push_char(s: &mut String, c: char)
    ensures
        final(s)@ == old(s)@.push(c),
{
    s.push(c);
}

/// A `String` holding exactly the characters of `cs`.
pub fn string_of_chars(cs: &[char]) -> (r: String)
    ensures
        r@ == cs@,
{
    let mut r = String::new();
    let n = cs.len();
    let mut i: usize = 0;
    while i < n
        invariant
            n == cs@.len(),
            i <= n,
            r@ == cs@.take(i as int),
        decreases n - i,
    {
        push_char(&mut r, cs[i]);
        assert(cs@.take(i + 1) =~= cs@.take(i as int).push(cs@[i as int]));
        i = i + 1;
    }
    assert(cs@.take(n as int) =~= cs@);
    r
}

// ---------------------------------------------------------------------------
// Lines (as `str::lines`)
// ---------------------------------------------------------------------------

/// The pieces of `s` between `'\n'` characters (as `str::split('\n')`):
/// always at least one piece.
pub open spec fn newline_pieces(s: Seq<char>) -> Seq<Seq<char>>
    decreases s.len(),
{
    if s.len() == 0 {
        seq![Seq::empty()]
    } else {
        let p = newline_pieces(s.drop_last());
        if s.last() == '\n' {
            p.push(Seq::empty())
        } else {
            p.update(p.len() - 1, p.last().push(s.last()))
        }
    }
}

/// A line that ended with `'\n'` loses one trailing `'\r'`.
pub open spec fn strip_cr(l: Seq<char>) -> Seq<char> {
    if l.len() > 0 && l.last() == '\r' {
        l.drop_last()
    } else {
        l
    }
}

/// The lines of `s` as `str::lines` yields them: split at `'\n'`, a `"\r\n"`
/// ending counts as one, and a final empty piece is no line.
pub open spec fn source_lines(s: Seq<char>) -> Seq<Seq<char>> {
    let p = newline_pieces(s);
    let ended = p.drop_last().map_values(|l: Seq<char>| strip_cr(l));
    if p.last().len() == 0 {
        ended
    } else {
        ended.push(p.last())
    }
}

pub proof fn lemma_newline_pieces_nonempty(s: Seq<char>)
    ensures
        newline_pieces(s).len() >= 1,
        newline_pieces(s).len() <= s.len() + 1,
    decreases s.len(),
{
    if s.len() > 0 {
        lemma_newline_pieces_nonempty(s.drop_last());
    }
}

/// The lines of `source`, each as its characters.
pub fn lines_of(source: &str) -> (r: Vec<Vec<char>>)
    ensures
        r@.len() == source_lines(source@).len(),
        forall|i: int| 0 <= i < r@.len() ==> #[trigger] r@[i]@ == source_lines(source@)[i],
{
    let cs = chars_of(source);
    let n = cs.len();
    let mut lines: Vec<Vec<char>> = Vec::new();
    let mut cur: Vec<char> = Vec::new();
    let mut i: usize = 0;
    proof {
        assert(cs@.take(0) =~= Seq::<char>::empty());
    }
    while i < n
        invariant
            n == cs@.len(),
            cs@ == source@,
            i <= n,
            lines@.len() + 1 == newline_pieces(cs@.take(i as int)).len(),
            forall|k: int|
                0 <= k < lines@.len() ==> #[trigger] lines@[k]@ == strip_cr(
                    newline_pieces(cs@.take(i as int))[k],
                ),
            cur@ == newline_pieces(cs@.take(i as int)).last(),
        decreases n - i,
    {
        let c = cs[i];
        let ghost t = cs@.take(i + 1);
        proof {
            assert(t.drop_last() =~= cs@.take(i as int));
            assert(t.last() == c);
            lemma_newline_pieces_nonempty(cs@.take(i as int));
        }
        if c == '\n' {
            let len = cur.len();
            if len > 0 && cur[len - 1] == '\r' {
                cur.pop();
                assert(cur@ =~= strip_cr(newline_pieces(cs@.take(i as int)).last()));
            }
            lines.push(cur);
            cur = Vec::new();
            proof {
                let p = newline_pieces(cs@.take(i as int));
                assert forall|k: int| 0 <= k < lines@.len() implies #[trigger] lines@[k]@
                    == strip_cr(newline_pieces(t)[k]) by {
                    if k < lines@.len() - 1 {
                        assert(newline_pieces(t)[k] == p[k]);
                    }
                }
            }
        } else {
            cur.push(c);
            proof {
                let p = newline_pieces(cs@.take(i as int));
                assert forall|k: int| 0 <= k < lines@.len() implies #[trigger] lines@[k]@
                    == strip_cr(newline_pieces(t)[k]) by {
                    assert(newline_pieces(t)[k] == p[k]);
                }
            }
        }
        i = i + 1;
    }
    proof {
        assert(cs@.take(n as int) =~= source@);
    }
    let ghost p = newline_pieces(source@);
    let ghost ended = p.drop_last().map_values(|l: Seq<char>| strip_cr(l));
    assert(lines@.len() == ended.len());
    if cur.len() > 0 {
        lines.push(cur);
        assert forall|k: int| 0 <= k < lines@.len() implies #[trigger] lines@[k]@
            == source_lines(source@)[k] by {
            if k < lines@.len() - 1 {
                assert(ended[k] == strip_cr(p[k]));
            }
        }
    } else {
        assert forall|k: int| 0 <= k < lines@.len() implies #[trigger] lines@[k]@
            == source_lines(source@)[k] by {
            assert(ended[k] == strip_cr(p[k]));
        }
    }
    lines
}

// ---------------------------------------------------------------------------
// Identifier words
// ---------------------------------------------------------------------------

/// A character that belongs to an identifier word: alphanumeric or `'_'`.
pub open spec fn word_char(c: char) -> bool {
    if (c as u32) < 128 {
        ascii_alphanumeric(c) || c == '_'
    } else {
        alphanumeric(c)
    }
}

/// A character that `char::is_uppercase` accepts.
pub open spec fn uppercase_char(c: char) -> bool {
    if (c as u32) < 128 {
        ascii_uppercase(c)
    } else {
        uppercase(c)
    }
}

/// The pieces of `s` between non-word characters (as `str::split` with a
/// predicate): always at least one piece, possibly empty ones.
pub open spec fn word_pieces(s: Seq<char>) -> Seq<Seq<char>>
    decreases s.len(),
{
    if s.len() == 0 {
        seq![Seq::empty()]
    } else {
        let p = word_pieces(s.drop_last());
        if word_char(s.last()) {
            p.update(p.len() - 1, p.last().push(s.last()))
        } else {
            p.push(Seq::empty())
        }
    }
}

/// A piece that names a type by the heuristic: non-empty, starting with an
/// uppercase character.
pub open spec fn capitalized(w: Seq<char>) -> bool {
    w.len() > 0 && uppercase_char(w[0])
}

/// The capitalized pieces among `ps`.
pub open spec fn capitalized_among(ps: Seq<Seq<char>>) -> Set<Seq<char>> {
    Set::new(
        |w: Seq<char>| exists|k: int| 0 <= k < ps.len() && #[trigger] ps[k] == w && capitalized(w),
    )
}

/// The capitalized words of `s`.
pub open spec fn capitalized_words(s: Seq<char>) -> Set<Seq<char>> {
    capitalized_among(word_pieces(s))
}

/// The set of the views of the strings in `v`.
pub open spec fn string_set(v: Seq<String>) -> Set<Seq<char>> {
    Set::new(|w: Seq<char>| exists|k: int| 0 <= k < v.len() && #[trigger] v[k]@ == w)
}

pub proof fn lemma_word_pieces_nonempty(s: Seq<char>)
    ensures
        word_pieces(s).len() >= 1,
    decreases s.len(),
{
    if s.len() > 0 {
        lemma_word_pieces_nonempty(s.drop_last());
    }
}

pub proof fn lemma_capitalized_among_push(ps: Seq<Seq<char>>, x: Seq<char>)
    ensures
        capitalized_among(ps.push(x)) == (if capitalized(x) {
            capitalized_among(ps).insert(x)
        } else {
            capitalized_among(ps)
        }),
{
    let q = ps.push(x);
    assert forall|w: Seq<char>| #[trigger]
        capitalized_among(q).contains(w) implies capitalized_among(ps).contains(w) || (w == x
            && capitalized(x)) by {
        let k = choose|k: int| 0 <= k < q.len() && #[trigger] q[k] == w && capitalized(w);
        if k < ps.len() {
            assert(ps[k] == w);
        }
    }
    assert forall|w: Seq<char>| #[trigger]
        capitalized_among(ps).contains(w) implies capitalized_among(q).contains(w) by {
        let k = choose|k: int| 0 <= k < ps.len() && #[trigger] ps[k] == w && capitalized(w);
        assert(q[k] == w);
    }
    if capitalized(x) {
        assert(q[ps.len() as int] == x);
        assert(capitalized_among(q).contains(x));
    }
    assert(capitalized_among(q) =~= (if capitalized(x) {
        capitalized_among(ps).insert(x)
    } else {
        capitalized_among(ps)
    }));
}

pub proof fn lemma_string_set_push(v: Seq<String>, x: String)
    ensures
        string_set(v.push(x)) == string_set(v).insert(x@),
{
    let q = v.push(x);
    assert forall|w: Seq<char>| #[trigger]
        string_set(q).contains(w) implies string_set(v).contains(w) || w == x@ by {
        let k = choose|k: int| 0 <= k < q.len() && #[trigger] q[k]@ == w;
        if k < v.len() {
            assert(v[k]@ == w);
        }
    }
    assert forall|w: Seq<char>| #[trigger] string_set(v).contains(w) implies string_set(q).contains(
        w,
    ) by {
        let k = choose|k: int| 0 <= k < v.len() && #[trigger] v[k]@ == w;
        assert(q[k]@ == w);
    }
    assert(q[v.len() as int]@ == x@);
    assert(string_set(q) =~= string_set(v).insert(x@));
}

/// Adds to `type_refs` every word of `s` (maximal run of alphanumeric
/// characters and `'_'`) that starts with an uppercase character.
pub fn collect_type_refs_from_str(s: &str, type_refs: &mut Vec<String>)
    ensures
        string_set(final(type_refs)@) == string_set(old(type_refs)@).union(capitalized_words(s@)),
        final(type_refs)@.len() >= old(type_refs)@.len(),
        forall|k: int| 0 <= k < old(type_refs)@.len() ==> #[trigger] final(type_refs)@[k] == old(
            type_refs,
        )@[k],
        forall|k: int|
            old(type_refs)@.len() <= k < final(type_refs)@.len() ==> capitalized_words(s@).contains(
                #[trigger] final(type_refs)@[k]@,
            ),
        capitalized_words(s@) == Set::<Seq<char>>::empty() ==> final(type_refs)@ == old(
            type_refs,
        )@,
{
    let cs = chars_of(s);
    let n = cs.len();
    let ghost start = type_refs@;
    let mut word = String::new();
    let mut first: char = ' ';
    let mut i: usize = 0;
    proof {
        assert(cs@.take(0) =~= Seq::<char>::empty());
        assert(string_set(start).union(capitalized_among(Seq::empty())) =~= string_set(start));
    }
    while i < n
        invariant
            n == cs@.len(),
            cs@ == s@,
            i <= n,
            word@ == word_pieces(cs@.take(i as int)).last(),
            word@.len() > 0 ==> word@[0] == first,
            type_refs@.len() >= start.len(),
            forall|k: int| 0 <= k < start.len() ==> #[trigger] type_refs@[k] == start[k],
            string_set(type_refs@) == string_set(start).union(
                capitalized_among(word_pieces(cs@.take(i as int)).drop_last()),
            ),
            forall|k: int|
                start.len() <= k < type_refs@.len() ==> capitalized_among(
                    word_pieces(cs@.take(i as int)).drop_last(),
                ).contains(#[trigger] type_refs@[k]@),
        decreases n - i,
    {
        let c = cs[i];
        let ghost prev = cs@.take(i as int);
        let ghost t = cs@.take(i + 1);
        let ghost old_refs = type_refs@;
        proof {
            assert(t.drop_last() =~= prev);
            lemma_word_pieces_nonempty(prev);
        }
        let ghost p = word_pieces(prev);
        let is_word = char_is_alphanumeric(c) || c == '_';
        if is_word {
            if word.as_str().is_empty() {
                first = c;
            }
            push_char(&mut word, c);
            proof {
                assert(word_pieces(t).drop_last() =~= p.drop_last());
            }
        } else {
            let ghost finished = word@;
            let keep = !word.as_str().is_empty() && char_is_uppercase(first);
            if keep {
                type_refs.push(word);
                proof {
                    lemma_string_set_push(old_refs, type_refs@.last());
                    assert(type_refs@ =~= old_refs.push(type_refs@.last()));
                }
            }
            word = String::new();
            proof {
                assert(word_pieces(t).drop_last() =~= p.drop_last().push(finished));
                lemma_capitalized_among_push(p.drop_last(), finished);
                assert(capitalized(finished) == keep);
                assert(string_set(type_refs@) =~= string_set(start).union(
                    capitalized_among(word_pieces(t).drop_last()),
                ));
                assert forall|k: int| start.len() <= k < type_refs@.len() implies capitalized_among(
                    word_pieces(t).drop_last(),
                ).contains(#[trigger] type_refs@[k]@) by {
                    if k < old_refs.len() {
                        assert(type_refs@[k] == old_refs[k]);
                        assert(capitalized_among(p.drop_last()).contains(old_refs[k]@));
                    }
                }
            }
        }
        i = i + 1;
    }
    // The last piece is finished by the end of the text.
    let ghost p = word_pieces(s@);
    let ghost finished = word@;
    let ghost old_refs = type_refs@;
    proof {
        assert(cs@.take(n as int) =~= s@);
        lemma_word_pieces_nonempty(s@);
        assert(p =~= p.drop_last().push(finished));
        lemma_capitalized_among_push(p.drop_last(), finished);
    }
    let keep = !word.as_str().is_empty() && char_is_uppercase(first);
    if keep {
        type_refs.push(word);
        proof {
            lemma_string_set_push(old_refs, type_refs@.last());
            assert(type_refs@ =~= old_refs.push(type_refs@.last()));
        }
    }
    proof {
        assert(capitalized(finished) == keep);
        assert(string_set(type_refs@) =~= string_set(start).union(capitalized_words(s@)));
        assert forall|k: int| start.len() <= k < type_refs@.len() implies capitalized_words(
            s@,
        ).contains(#[trigger] type_refs@[k]@) by {
            if k < old_refs.len() {
                assert(type_refs@[k] == old_refs[k]);
                assert(capitalized_among(p.drop_last()).contains(old_refs[k]@));
            }
        }
        if capitalized_words(s@) == Set::<Seq<char>>::empty() {
            if type_refs@.len() > start.len() {
                assert(capitalized_words(s@).contains(type_refs@[start.len() as int]@));
            }
            assert(type_refs@ =~= start);
        }
    }
}

} // verus!
