//! Character-level text handling of tag strings: whitespace trimming,
//! splitting on a separator, and cleaning lists of terms.
use vstd::prelude::*;

verus! {

broadcast use vstd::string::group_string_axioms;

/// The Unicode `White_Space` property, which is what `str::trim` removes.
pub open spec fn is_white_space(c: char) -> bool {
    ||| '\u{9}' <= c <= '\u{d}'
    ||| c == ' '
    ||| c == '\u{85}'
    ||| c == '\u{a0}'
    ||| c == '\u{1680}'
    ||| '\u{2000}' <= c <= '\u{200a}'
    ||| c == '\u{2028}'
    ||| c == '\u{2029}'
    ||| c == '\u{202f}'
    ||| c == '\u{205f}'
    ||| c == '\u{3000}'
}

/// Drops leading white space.
pub open spec fn trim_start(s: Seq<char>) -> Seq<char>
    decreases s.len(),
{
    if s.len() > 0 && is_white_space(s[0]) {
        trim_start(s.drop_first())
    } else {
        s
    }
}

/// Drops trailing white space.
pub open spec fn trim_end(s: Seq<char>) -> Seq<char>
    decreases s.len(),
{
    if s.len() > 0 && is_white_space(s.last()) {
        trim_end(s.drop_last())
    } else {
        s
    }
}

/// `s` without its leading and trailing white space.
pub open spec fn trim(s: Seq<char>) -> Seq<char> {
    trim_end(trim_start(s))
}

/// The pieces of `s` between occurrences of `sep` (always at least one piece).
pub open spec fn split_on(s: Seq<char>, sep: char) -> Seq<Seq<char>>
    decreases s.len(),
{
    if s.len() == 0 {
        seq![Seq::<char>::empty()]
    } else {
        let p = split_on(s.drop_last(), sep);
        if s.last() == sep {
            p.push(Seq::<char>::empty())
        } else {
            p.update(p.len() - 1, p.last().push(s.last()))
        }
    }
}

/// Each term trimmed, with the terms that are then empty left out.
pub open spec fn clean_terms(terms: Seq<Seq<char>>) -> Seq<Seq<char>>
    decreases terms.len(),
{
    if terms.len() == 0 {
        Seq::empty()
    } else {
        let rest = clean_terms(terms.drop_last());
        let t = trim(terms.last());
        if t.len() > 0 {
            rest.push(t)
        } else {
            rest
        }
    }
}

/// The character view of each string.
pub open spec fn string_views(v: Seq<String>) -> Seq<Seq<char>> {
    v.map_values(|s: String| s@)
}

pub proof fn lemma_split_on_nonempty(s: Seq<char>, sep: char)
    ensures
        split_on(s, sep).len() >= 1,
    decreases s.len(),
{
    if s.len() > 0 {
        lemma_split_on_nonempty(s.drop_last(), sep);
    }
}

/// Every cleaned term is non-empty and has no white space at either end.
pub proof fn lemma_clean_terms_trimmed(terms: Seq<Seq<char>>)
    ensures
        forall|i: int|
            0 <= i < clean_terms(terms).len() ==> {
                let t = #[trigger] clean_terms(terms)[i];
                &&& t.len() > 0
                &&& !is_white_space(t[0])
                &&& !is_white_space(t.last())
            },
    decreases terms.len(),
{
    if terms.len() > 0 {
        let rest = clean_terms(terms.drop_last());
        let t = trim(terms.last());
        lemma_clean_terms_trimmed(terms.drop_last());
        lemma_trim_ends(terms.last());
        if t.len() > 0 {
            assert forall|i: int| 0 <= i < clean_terms(terms).len() implies {
                let u = #[trigger] clean_terms(terms)[i];
                &&& u.len() > 0
                &&& !is_white_space(u[0])
                &&& !is_white_space(u.last())
            } by {
                if i < rest.len() {
                    assert(clean_terms(terms)[i] == rest[i]);
                } else {
                    assert(clean_terms(terms)[i] == t);
                }
            }
        }
    }
}

pub proof fn lemma_trim_start_shape(s: Seq<char>)
    ensures
        trim_start(s).len() > 0 ==> !is_white_space(trim_start(s)[0]),
        trim_start(s).len() <= s.len(),
        trim_start(s) =~= s.subrange(s.len() - trim_start(s).len(), s.len() as int),
    decreases s.len(),
{
    if s.len() > 0 && is_white_space(s[0]) {
        lemma_trim_start_shape(s.drop_first());
    }
}

pub proof fn lemma_trim_end_shape(s: Seq<char>)
    ensures
        trim_end(s).len() > 0 ==> !is_white_space(trim_end(s).last()),
        trim_end(s).len() <= s.len(),
        trim_end(s) =~= s.subrange(0, trim_end(s).len() as int),
    decreases s.len(),
{
    if s.len() > 0 && is_white_space(s.last()) {
        lemma_trim_end_shape(s.drop_last());
    }
}

/// A trimmed text that is not empty starts and ends with a non-white-space character.
pub proof fn lemma_trim_ends(s: Seq<char>)
    ensures
        trim(s).len() > 0 ==> !is_white_space(trim(s)[0]) && !is_white_space(trim(s).last()),
{
    let a = trim_start(s);
    lemma_trim_start_shape(s);
    lemma_trim_end_shape(a);
    if trim(s).len() > 0 {
        assert(trim(s)[0] == a[0]);
    }
}

/// Whether `c` has the Unicode `White_Space` property.
pub fn is_white_space_char(c: char) -> (r: bool)
    ensures
        r == is_white_space(c),
{
    ('\u{9}' <= c && c <= '\u{d}') || c == ' ' || c == '\u{85}' || c == '\u{a0}' || c
        == '\u{1680}' || ('\u{2000}' <= c && c <= '\u{200a}') || c == '\u{2028}' || c
        == '\u{2029}' || c == '\u{202f}' || c == '\u{205f}' || c == '\u{3000}'
}

/// The characters of `s`, in order.
pub fn chars_of(s: &str) -> (r: Vec<char>)
    ensures
        r@ == s@,
{
    let mut out: Vec<char> = Vec::new();
    for c in it: s.chars()
        invariant
            out@ == it.seq().take(it.index() as int),
            it.seq() == s@,
    {
        out.push(c);
    }
    out
}

/// `s` without leading and trailing white space.
pub fn trim_text(s: &str) -> (r: String)
    ensures
        r@ == trim(s@),
{
    let cs = chars_of(s);
    let n = cs.len();
    let mut a: usize = 0;
    assert(s@.skip(0) =~= s@);
    while a < n && is_white_space_char(cs[a])
        invariant
            cs@ == s@,
            n == cs@.len(),
            a <= n,
            trim_start(s@) == trim_start(s@.skip(a as int)),
        decreases n - a,
    {
        assert(s@.skip(a as int).drop_first() =~= s@.skip(a + 1));
        a = a + 1;
    }
    assert(trim_start(s@) == s@.skip(a as int)) by {
        if a < n {
            assert(s@.skip(a as int)[0] == s@[a as int]);
        } else {
            assert(s@.skip(a as int).len() == 0);
        }
    }
    let ghost t = s@.skip(a as int);
    let mut b: usize = n;
    while b > a && is_white_space_char(cs[b - 1])
        invariant
            cs@ == s@,
            n == cs@.len(),
            a <= b <= n,
            t == s@.skip(a as int),
            trim_end(t) == trim_end(s@.subrange(a as int, b as int)),
        decreases b - a,
    {
        assert(s@.subrange(a as int, b as int).drop_last() =~= s@.subrange(a as int, b - 1));
        b = b - 1;
    }
    assert(trim_end(t) == s@.subrange(a as int, b as int)) by {
        assert(t =~= s@.subrange(a as int, n as int));
        if b > a {
            assert(s@.subrange(a as int, b as int).last() == s@[b - 1]);
        }
    }
    let piece = s.substring_char(a, b);
    piece.to_owned()
}

/// Whether `s` contains the character `c`.
pub fn text_contains(s: &str, c: char) -> (r: bool)
    ensures
        r == s@.contains(c),
{
    let cs = chars_of(s);
    let mut i: usize = 0;
    while i < cs.len()
        invariant
            cs@ == s@,
            i <= cs@.len(),
            forall|k: int| 0 <= k < i ==> cs@[k] != c,
        decreases cs.len() - i,
    {
        if cs[i] == c {
            return true;
        }
        i = i + 1;
    }
    false
}

/// The pieces of `s` between the occurrences of `sep`, each trimmed, with
/// the pieces that are then empty left out.
pub fn split_clean(s: &str, sep: char) -> (r: Vec<String>)
    ensures
        string_views(r@) == clean_terms(split_on(s@, sep)),
{
    let cs = chars_of(s);
    let n = cs.len();
    let mut out: Vec<String> = Vec::new();
    let mut start: usize = 0;
    let mut i: usize = 0;
    while i < n
        invariant
            cs@ == s@,
            n == cs@.len(),
            start <= i <= n,
            split_on(s@.take(i as int), sep).len() >= 1,
            split_on(s@.take(i as int), sep).last() == s@.subrange(start as int, i as int),
            string_views(out@) == clean_terms(split_on(s@.take(i as int), sep).drop_last()),
        decreases n - i,
    {
        let ghost p = split_on(s@.take(i as int), sep);
        assert(s@.take(i + 1).drop_last() =~= s@.take(i as int));
        assert(s@.take(i + 1).last() == s@[i as int]);
        if cs[i] == sep {
            let piece = trim_text(s.substring_char(start, i));
            let ghost before = out@;
            if !piece.as_str().is_empty() {
                out.push(piece);
            }
            proof {
                let q = split_on(s@.take(i + 1), sep);
                assert(q == p.push(Seq::<char>::empty()));
                assert(q.drop_last() =~= p);
                assert(string_views(before.push(piece)) =~= string_views(before).push(piece@));
                assert(q.last() =~= s@.subrange(i + 1, i + 1));
            }
            start = i + 1;
        } else {
            proof {
                let q = split_on(s@.take(i + 1), sep);
                assert(q == p.update(p.len() - 1, p.last().push(s@[i as int])));
                assert(q.drop_last() =~= p.drop_last());
                assert(q.last() =~= s@.subrange(start as int, i + 1));
            }
        }
        i = i + 1;
    }
    assert(s@.take(n as int) =~= s@);
    let piece = trim_text(s.substring_char(start, n));
    let ghost before = out@;
    if !piece.as_str().is_empty() {
        out.push(piece);
    }
    assert(string_views(before.push(piece)) =~= string_views(before).push(piece@));
    out
}

/// Each string trimmed, with the strings that are then empty left out.
pub fn clean_strings(v: &Vec<String>) -> (r: Vec<String>)
    ensures
        string_views(r@) == clean_terms(string_views(v@)),
{
    let mut out: Vec<String> = Vec::new();
    let mut i: usize = 0;
    while i < v.len()
        invariant
            i <= v@.len(),
            string_views(out@) == clean_terms(string_views(v@.take(i as int))),
        decreases v.len() - i,
    {
        let piece = trim_text(v[i].as_str());
        let ghost before = out@;
        if !piece.as_str().is_empty() {
            out.push(piece);
        }
        proof {
            assert(string_views(v@.take(i + 1)).drop_last() =~= string_views(v@.take(i as int)));
            assert(string_views(v@.take(i + 1)).last() == v@[i as int]@);
            assert(string_views(before.push(piece)) =~= string_views(before).push(piece@));
        }
        i = i + 1;
    }
    assert(v@.take(v@.len() as int) =~= v@);
    out
}


/// The characters with the Unicode `White_Space` property, listed one by one.
pub open spec fn white_space_chars() -> Seq<char> {
    seq![
        '\u{9}', '\u{a}', '\u{b}', '\u{c}', '\u{d}', ' ', '\u{85}', '\u{a0}', '\u{1680}',
        '\u{2000}', '\u{2001}', '\u{2002}', '\u{2003}', '\u{2004}', '\u{2005}', '\u{2006}',
        '\u{2007}', '\u{2008}', '\u{2009}', '\u{200a}', '\u{2028}', '\u{2029}', '\u{202f}',
        '\u{205f}', '\u{3000}',
    ]
}

proof fn lemma_white_space_is_listed(c: char)
    ensures
        is_white_space(c) <==> white_space_chars().contains(c),
{
    let ws = white_space_chars();
    if is_white_space(c) {
        if '\u{9}' <= c <= '\u{d}' {
            if c == '\u{9}' { assert(ws[0] == c); }
            else if c == '\u{a}' { assert(ws[1] == c); }
            else if c == '\u{b}' { assert(ws[2] == c); }
            else if c == '\u{c}' { assert(ws[3] == c); }
            else { assert(ws[4] == c); }
        } else if '\u{2000}' <= c <= '\u{200a}' {
            if c == '\u{2000}' { assert(ws[9] == c); }
            else if c == '\u{2001}' { assert(ws[10] == c); }
            else if c == '\u{2002}' { assert(ws[11] == c); }
            else if c == '\u{2003}' { assert(ws[12] == c); }
            else if c == '\u{2004}' { assert(ws[13] == c); }
            else if c == '\u{2005}' { assert(ws[14] == c); }
            else if c == '\u{2006}' { assert(ws[15] == c); }
            else if c == '\u{2007}' { assert(ws[16] == c); }
            else if c == '\u{2008}' { assert(ws[17] == c); }
            else if c == '\u{2009}' { assert(ws[18] == c); }
            else { assert(ws[19] == c); }
        } else if c == ' ' { assert(ws[5] == c); }
        else if c == '\u{85}' { assert(ws[6] == c); }
        else if c == '\u{a0}' { assert(ws[7] == c); }
        else if c == '\u{1680}' { assert(ws[8] == c); }
        else if c == '\u{2028}' { assert(ws[20] == c); }
        else if c == '\u{2029}' { assert(ws[21] == c); }
        else if c == '\u{202f}' { assert(ws[22] == c); }
        else if c == '\u{205f}' { assert(ws[23] == c); }
        else { assert(ws[24] == c); }
    }
    if ws.contains(c) {
        let i = choose|i: int| 0 <= i < ws.len() && ws[i] == c;
        assert(is_white_space(ws[i]));
    }
}

proof fn lemma_trim_start_push(s: Seq<char>, c: char)
    ensures
        trim_start(s.push(c)) == if trim_start(s).len() == 0 {
            trim_start(seq![c])
        } else {
            trim_start(s).push(c)
        },
    decreases s.len(),
{
    if s.len() == 0 {
        assert(s.push(c) =~= seq![c]);
    } else {
        assert(s.push(c)[0] == s[0]);
        if is_white_space(s[0]) {
            assert(s.push(c).drop_first() =~= s.drop_first().push(c));
            lemma_trim_start_push(s.drop_first(), c);
        }
    }
}

/// Leading and trailing characters with the Unicode `White_Space` property
/// (tab, line feed, vertical tab, form feed, carriage return, space, NEL,
/// no-break space, ..., ideographic space) are removed: prefixing or suffixing
/// a text with any one of them does not change its trimmed form.
pub proof fn law_trim_removes_white_space(s: Seq<char>, i: int)
    requires
        0 <= i < white_space_chars().len(),
    ensures
        trim(seq![white_space_chars()[i]] + s) == trim(s),
        trim(s.push(white_space_chars()[i])) == trim(s),
{
    let c = white_space_chars()[i];
    lemma_white_space_is_listed(c);
    assert(is_white_space(c));
    assert((seq![c] + s).drop_first() =~= s);
    assert((seq![c] + s)[0] == c);
    lemma_trim_start_push(s, c);
    assert(seq![c].drop_first() =~= Seq::<char>::empty());
    if trim_start(s).len() != 0 {
        assert(trim_start(s).push(c).drop_last() =~= trim_start(s));
    } else {
        assert(trim_start(seq![c]) == trim_start(Seq::<char>::empty()));
    }
}

/// A non-empty text that starts and ends with characters outside the
/// Unicode `White_Space` list is its own trimmed form.
pub proof fn law_trim_keeps_other_ends(s: Seq<char>)
    requires
        s.len() > 0,
        !white_space_chars().contains(s[0]),
        !white_space_chars().contains(s.last()),
    ensures
        trim(s) == s,
{
    lemma_white_space_is_listed(s[0]);
    lemma_white_space_is_listed(s.last());
}

proof fn lemma_trim_start_removed(s: Seq<char>)
    ensures
        forall|i: int| 0 <= i < s.len() - trim_start(s).len() ==> is_white_space(#[trigger] s[i]),
    decreases s.len(),
{
    lemma_trim_start_shape(s);
    if s.len() > 0 && is_white_space(s[0]) {
        lemma_trim_start_removed(s.drop_first());
        assert forall|i: int| 0 <= i < s.len() - trim_start(s).len() implies is_white_space(
            #[trigger] s[i],
        ) by {
            if i > 0 {
                assert(s.drop_first()[i - 1] == s[i]);
            }
        }
    }
}

proof fn lemma_trim_end_removed(s: Seq<char>)
    ensures
        forall|i: int| trim_end(s).len() <= i < s.len() ==> is_white_space(#[trigger] s[i]),
    decreases s.len(),
{
    lemma_trim_end_shape(s);
    if s.len() > 0 && is_white_space(s.last()) {
        lemma_trim_end_removed(s.drop_last());
        lemma_trim_end_shape(s.drop_last());
        assert forall|i: int| trim_end(s).len() <= i < s.len() implies is_white_space(
            #[trigger] s[i],
        ) by {
            if i < s.len() - 1 {
                assert(s.drop_last()[i] == s[i]);
            }
        }
    }
}

/// The trimmed form of a text is the contiguous middle of it left after
/// cutting off its leading and trailing Unicode white space: everything cut
/// off is white space, and what is left is empty or starts and ends with a
/// character that is not. Returns where the middle starts.
pub proof fn law_trim_cuts_white_space_ends(s: Seq<char>) -> (a: int)
    ensures
        0 <= a,
        a + trim(s).len() <= s.len(),
        trim(s) == s.subrange(a, a + trim(s).len()),
        forall|i: int| 0 <= i < a ==> white_space_chars().contains(#[trigger] s[i]),
        forall|i: int| a + trim(s).len() <= i < s.len() ==> white_space_chars().contains(#[trigger] s[i]),
        trim(s).len() > 0 ==> !white_space_chars().contains(trim(s)[0]) && !white_space_chars().contains(
            trim(s).last(),
        ),
{
    let u = trim_start(s);
    let a = s.len() - u.len();
    lemma_trim_start_shape(s);
    lemma_trim_end_shape(u);
    lemma_trim_start_removed(s);
    lemma_trim_end_removed(u);
    lemma_trim_ends(s);
    let t = trim(s);
    assert(t =~= s.subrange(a, a + t.len()));
    assert forall|i: int| 0 <= i < a implies white_space_chars().contains(#[trigger] s[i]) by {
        lemma_white_space_is_listed(s[i]);
    }
    assert forall|i: int| a + t.len() <= i < s.len() implies white_space_chars().contains(
        #[trigger] s[i],
    ) by {
        assert(u[i - a] == s[i]);
        lemma_white_space_is_listed(s[i]);
    }
    if t.len() > 0 {
        lemma_white_space_is_listed(t[0]);
        lemma_white_space_is_listed(t.last());
    }
    a
}

/// The pieces joined back together with the separator between them.
pub open spec fn join_with(pieces: Seq<Seq<char>>, sep: char) -> Seq<char>
    decreases pieces.len(),
{
    if pieces.len() == 0 {
        Seq::empty()
    } else if pieces.len() == 1 {
        pieces[0]
    } else {
        join_with(pieces.drop_last(), sep).push(sep) + pieces.last()
    }
}

proof fn lemma_join_extend_last(p: Seq<Seq<char>>, sep: char, c: char)
    requires
        p.len() >= 1,
    ensures
        join_with(p.update(p.len() - 1, p.last().push(c)), sep) == join_with(p, sep).push(c),
{
    let q = p.update(p.len() - 1, p.last().push(c));
    if p.len() == 1 {
        assert(q[0] == p[0].push(c));
    } else {
        assert(q.drop_last() =~= p.drop_last());
        assert(join_with(q, sep) =~= join_with(p, sep).push(c));
    }
}

/// Splitting a text on a separator cuts it into pieces that hold no
/// separator and that give the text back when joined with the separator.
pub proof fn law_split_rejoins(s: Seq<char>, sep: char)
    ensures
        join_with(split_on(s, sep), sep) == s,
        forall|i: int, j: int|
            0 <= i < split_on(s, sep).len() && 0 <= j < split_on(s, sep)[i].len() ==> #[trigger] split_on(
                s,
                sep,
            )[i][j] != sep,
    decreases s.len(),
{
    if s.len() == 0 {
        assert(join_with(split_on(s, sep), sep) =~= s);
    } else {
        let p = split_on(s.drop_last(), sep);
        law_split_rejoins(s.drop_last(), sep);
        lemma_split_on_nonempty(s.drop_last(), sep);
        if s.last() == sep {
            let q = p.push(Seq::<char>::empty());
            assert(q.drop_last() =~= p);
            assert(join_with(q, sep) =~= s);
            assert forall|i: int, j: int|
                0 <= i < q.len() && 0 <= j < q[i].len() implies #[trigger] q[i][j] != sep by {
                assert(i < p.len());
            }
        } else {
            let q = p.update(p.len() - 1, p.last().push(s.last()));
            lemma_join_extend_last(p, sep, s.last());
            assert(join_with(q, sep) =~= s);
            assert forall|i: int, j: int|
                0 <= i < q.len() && 0 <= j < q[i].len() implies #[trigger] q[i][j] != sep by {
                if i == p.len() - 1 && j == p.last().len() {
                } else {
                    assert(q[i][j] == p[i][j]);
                }
            }
        }
    }
}

/// Cleaning a list of terms trims each term and keeps, in order, exactly the
/// trimmed terms that are not empty.
pub proof fn law_clean_terms_is_trim_then_filter(terms: Seq<Seq<char>>)
    ensures
        clean_terms(terms) == terms.map_values(|t: Seq<char>| trim(t)).filter(
            |t: Seq<char>| t.len() > 0,
        ),
    decreases terms.len(),
{
    reveal(Seq::filter);
    let m = terms.map_values(|t: Seq<char>| trim(t));
    if terms.len() == 0 {
        assert(m =~= Seq::<Seq<char>>::empty());
    } else {
        law_clean_terms_is_trim_then_filter(terms.drop_last());
        assert(m.drop_last() =~= terms.drop_last().map_values(|t: Seq<char>| trim(t)));
        assert(m.last() == trim(terms.last()));
    }
}

} // verus!
