use vstd::prelude::*;

verus! {

/// `String::push` puts one character behind the ones that are there.
pub assume_specification[ String::push ](s: &mut String, ch: char)
    ensures
        final(s)@ == old(s)@.push(ch),
;

/// The characters of `s`, in order.
pub fn chars_of(s: &str) -> (v: Vec<char>)
    ensures
        v@ == s@,
{
    let mut v: Vec<char> = Vec::new();
    for c in it: s.chars()
        invariant
            v@ == s@.take(it.index()),
            it.seq() == s@,
    {
        v.push(c);
    }
    v
}

/// The text that holds the characters `v[from..to]`.
pub fn text_of(v: &Vec<char>, from: usize, to: usize) -> (s: String)
    requires
        from <= to <= v@.len(),
    ensures
        s@ == v@.subrange(from as int, to as int),
{
    let mut s = String::new();
    for i in from..to
        invariant
            from <= i <= to <= v@.len(),
            s@ == v@.subrange(from as int, i as int),
    {
        s.push(v[i]);
    }
    s
}

/// Whether two texts hold the same characters.
pub fn same(a: &str, b: &str) -> (r: bool)
    ensures
        r == (a@ == b@),
{
    let x = chars_of(a);
    let y = chars_of(b);
    if x.len() != y.len() {
        return false;
    }
    for i in 0..x.len()
        invariant
            x@ == a@,
            y@ == b@,
            x@.len() == y@.len(),
            forall|j: int| 0 <= j < i ==> x@[j] == y@[j],
    {
        if x[i] != y[i] {
            return false;
        }
    }
    proof {
        assert(x@ =~= y@);
    }
    true
}

// ---------------------------------------------------------------------
// Searching
// ---------------------------------------------------------------------

/// `pat` stands in `s` at position `i`.
pub open spec fn occurs_at(s: Seq<char>, pat: Seq<char>, i: int) -> bool {
    0 <= i && i + pat.len() <= s.len() && s.subrange(i, i + pat.len()) == pat
}

/// `pat` stands somewhere in `s`.
pub open spec fn holds(s: Seq<char>, pat: Seq<char>) -> bool {
    exists|i: int| occurs_at(s, pat, i)
}

/// The first position at or after `from` at which `pat` stands in `s`.
pub open spec fn find_from(s: Seq<char>, pat: Seq<char>, from: int) -> Option<int>
    decreases s.len() - from,
{
    if from < 0 || from + pat.len() > s.len() {
        None
    } else if occurs_at(s, pat, from) {
        Some(from)
    } else if from >= s.len() {
        None
    } else {
        find_from(s, pat, from + 1)
    }
}

/// The first position at which `pat` stands in `s`.
pub open spec fn first_at(s: Seq<char>, pat: Seq<char>) -> Option<int> {
    find_from(s, pat, 0)
}

pub open spec fn begins(s: Seq<char>, pat: Seq<char>) -> bool {
    pat.len() <= s.len() && s.take(pat.len() as int) == pat
}

pub open spec fn ends(s: Seq<char>, pat: Seq<char>) -> bool {
    pat.len() <= s.len() && s.skip(s.len() - pat.len()) == pat
}

/// What `find_from` answers: the least position, or that there is none.
pub proof fn lemma_find_from(s: Seq<char>, pat: Seq<char>, from: int)
    requires
        0 <= from,
    ensures
        match find_from(s, pat, from) {
            Some(i) => from <= i && occurs_at(s, pat, i) && forall|j: int|
                from <= j < i ==> !#[trigger] occurs_at(s, pat, j),
            None => forall|j: int| from <= j ==> !#[trigger] occurs_at(s, pat, j),
        },
    decreases s.len() - from,
{
    if from + pat.len() <= s.len() && !occurs_at(s, pat, from) && from < s.len() {
        lemma_find_from(s, pat, from + 1);
    }
}

/// A position at which `pat` stands, with none before it, is the first one.
pub proof fn lemma_first_at(s: Seq<char>, pat: Seq<char>, i: int)
    requires
        occurs_at(s, pat, i),
        forall|j: int| 0 <= j < i ==> !#[trigger] occurs_at(s, pat, j),
    ensures
        first_at(s, pat) == Some(i),
{
    lemma_find_from(s, pat, 0);
}

fn matches_at(v: &Vec<char>, pat: &Vec<char>, at: usize) -> (r: bool)
    requires
        at + pat@.len() <= v@.len(),
    ensures
        r == occurs_at(v@, pat@, at as int),
{
    let n: usize = v.len();
    for k in 0..pat.len()
        invariant
            n == v@.len(),
            at + pat@.len() <= n,
            forall|j: int| 0 <= j < k ==> v@[at + j] == pat@[j],
    {
        if v[at + k] != pat[k] {
            proof {
                assert(v@.subrange(at as int, at + pat@.len())[k as int] != pat@[k as int]);
            }
            return false;
        }
    }
    proof {
        assert(v@.subrange(at as int, at + pat@.len()) =~= pat@);
    }
    true
}

fn find_in(v: &Vec<char>, pat: &Vec<char>) -> (r: Option<usize>)
    ensures
        match first_at(v@, pat@) {
            Some(i) => r == Some(i as usize) && i as usize == i && 0 <= i && i + pat@.len()
                <= v@.len(),
            None => r is None,
        },
{
    proof {
        lemma_find_from(v@, pat@, 0);
    }
    if pat.len() > v.len() {
        return None;
    }
    let last: usize = v.len() - pat.len();
    let mut i: usize = 0;
    while i <= last
        invariant
            last == v@.len() - pat@.len(),
            i <= last + 1,
            forall|j: int| 0 <= j < i ==> !#[trigger] occurs_at(v@, pat@, j),
        decreases last + 1 - i,
    {
        if matches_at(v, pat, i) {
            proof {
                lemma_first_at(v@, pat@, i as int);
            }
            return Some(i);
        }
        if i == last {
            proof {
                lemma_find_from(v@, pat@, 0);
            }
            return None;
        }
        i = i + 1;
    }
    None
}

/// The character position at which `pat` first stands in `s`.
pub fn find(s: &str, pat: &str) -> (r: Option<usize>)
    ensures
        match first_at(s@, pat@) {
            Some(i) => r == Some(i as usize) && i as usize == i && 0 <= i && i + pat@.len()
                <= s@.len(),
            None => r is None,
        },
{
    find_in(&chars_of(s), &chars_of(pat))
}

pub fn contains(s: &str, pat: &str) -> (r: bool)
    ensures
        r == holds(s@, pat@),
{
    proof {
        lemma_find_from(s@, pat@, 0);
    }
    find(s, pat).is_some()
}

pub fn starts_with(s: &str, pat: &str) -> (r: bool)
    ensures
        r == begins(s@, pat@),
{
    let v = chars_of(s);
    let p = chars_of(pat);
    p.len() <= v.len() && {
        proof {
            assert(v@.subrange(0, p@.len() as int) =~= v@.take(p@.len() as int));
        }
        matches_at(&v, &p, 0)
    }
}

pub fn ends_with(s: &str, pat: &str) -> (r: bool)
    ensures
        r == ends(s@, pat@),
{
    let v = chars_of(s);
    let p = chars_of(pat);
    p.len() <= v.len() && {
        proof {
            assert(v@.subrange(v@.len() - p@.len(), v@.len() as int) =~= v@.skip(
                v@.len() - p@.len(),
            ));
        }
        matches_at(&v, &p, v.len() - p.len())
    }
}

/// What follows `pat` in a text that begins with it.
pub open spec fn behind(s: Seq<char>, pat: Seq<char>) -> Option<Seq<char>> {
    if begins(s, pat) {
        Some(s.skip(pat.len() as int))
    } else {
        None
    }
}

pub fn strip_prefix<'a>(s: &'a str, pat: &str) -> (r: Option<&'a str>)
    ensures
        opt_view(r) == behind(s@, pat@),
{
    if starts_with(s, pat) {
        let n = s.unicode_len();
        let k = pat.unicode_len();
        let t = s.substring_char(k, n);
        proof {
            assert(t@ =~= s@.skip(pat@.len() as int));
        }
        Some(t)
    } else {
        None
    }
}

// ---------------------------------------------------------------------
// Cutting at a character
// ---------------------------------------------------------------------

/// The first position at or after `from` that holds `c`.
pub open spec fn char_from(s: Seq<char>, c: char, from: int) -> Option<int>
    decreases s.len() - from,
{
    if from < 0 || from >= s.len() {
        None
    } else if s[from] == c {
        Some(from)
    } else {
        char_from(s, c, from + 1)
    }
}

/// What stands before the first `c`, and what stands behind it.
pub open spec fn cut_once(s: Seq<char>, c: char) -> Option<(Seq<char>, Seq<char>)> {
    match char_from(s, c, 0) {
        Some(i) => Some((s.take(i), s.skip(i + 1))),
        None => None,
    }
}

pub proof fn lemma_char_from(s: Seq<char>, c: char, from: int)
    requires
        0 <= from,
    ensures
        match char_from(s, c, from) {
            Some(i) => from <= i < s.len() && s[i] == c && forall|j: int|
                from <= j < i ==> #[trigger] s[j] != c,
            None => forall|j: int| from <= j < s.len() ==> #[trigger] s[j] != c,
        },
    decreases s.len() - from,
{
    if from < s.len() && s[from] != c {
        lemma_char_from(s, c, from + 1);
    }
}

/// A position that holds `c`, with none before it, is the first one.
pub proof fn lemma_char_first(s: Seq<char>, c: char, i: int)
    requires
        0 <= i < s.len(),
        s[i] == c,
        forall|j: int| 0 <= j < i ==> #[trigger] s[j] != c,
    ensures
        char_from(s, c, 0) == Some(i),
{
    lemma_char_from(s, c, 0);
}

/// Cutting `a + [c] + b` gives `a` and `b` back when `a` holds no `c`.
pub proof fn lemma_cut_once(a: Seq<char>, c: char, b: Seq<char>)
    requires
        !a.contains(c),
    ensures
        cut_once(a + seq![c] + b, c) == Some((a, b)),
{
    let s = a + seq![c] + b;
    assert forall|j: int| 0 <= j < a.len() implies #[trigger] s[j] != c by {
        assert(s[j] == a[j]);
        assert(a.contains(a[j]));
    }
    lemma_char_first(s, c, a.len() as int);
    assert(s.take(a.len() as int) =~= a);
    assert(s.skip(a.len() as int + 1) =~= b);
}

pub fn find_char(s: &str, c: char) -> (r: Option<usize>)
    ensures
        match char_from(s@, c, 0) {
            Some(i) => r == Some(i as usize) && i as usize == i && 0 <= i < s@.len(),
            None => r is None,
        },
{
    let v = chars_of(s);
    proof {
        lemma_char_from(v@, c, 0);
    }
    for i in 0..v.len()
        invariant
            v@ == s@,
            forall|j: int| 0 <= j < i ==> #[trigger] v@[j] != c,
    {
        if v[i] == c {
            proof {
                lemma_char_first(v@, c, i as int);
            }
            return Some(i);
        }
    }
    None
}

/// Cut `s` at its first `c`.
pub fn split_once(s: &str, c: char) -> (r: Option<(&str, &str)>)
    ensures
        match cut_once(s@, c) {
            Some((a, b)) => r matches Some(p) && p.0@ == a && p.1@ == b,
            None => r is None,
        },
{
    match find_char(s, c) {
        Some(i) => {
            let n = s.unicode_len();
            Some((s.substring_char(0, i), s.substring_char(i + 1, n)))
        },
        None => None,
    }
}

// ---------------------------------------------------------------------
// White space
// ---------------------------------------------------------------------

/// The characters with the Unicode property White_Space.
pub open spec fn is_white(c: char) -> bool {
    ||| '\u{9}' <= c <= '\u{d}'
    ||| c == ' '
    ||| c == '\u{85}'
    ||| c == '\u{a0}'
    ||| c == '\u{1680}'
    ||| '\u{2000}' <= c <= '\u{200a}'
    ||| c == '\u{2028}'
    ||| c == '\u{2029}'
    ||| c == '\u{202f}'
    ||| c == '\u{205f}'
    ||| c == '\u{3000}'
}

fn white(c: char) -> (r: bool)
    ensures
        r == is_white(c),
{
    ('\u{9}' <= c && c <= '\u{d}') || c == ' ' || c == '\u{85}' || c == '\u{a0}' || c
        == '\u{1680}' || ('\u{2000}' <= c && c <= '\u{200a}') || c == '\u{2028}' || c == '\u{2029}'
        || c == '\u{202f}' || c == '\u{205f}' || c == '\u{3000}'
}

/// `s` without the white space in front.
pub open spec fn trim_front(s: Seq<char>) -> Seq<char>
    decreases s.len(),
{
    if s.len() > 0 && is_white(s[0]) {
        trim_front(s.skip(1))
    } else {
        s
    }
}

/// `s` without the white space at the end.
pub open spec fn trim_back(s: Seq<char>) -> Seq<char>
    decreases s.len(),
{
    if s.len() > 0 && is_white(s.last()) {
        trim_back(s.drop_last())
    } else {
        s
    }
}

/// `s` without the white space around it.
pub open spec fn trimmed(s: Seq<char>) -> Seq<char> {
    trim_back(trim_front(s))
}

/// A text that neither starts nor ends in white space is its own trim.
pub proof fn lemma_trimmed_self(s: Seq<char>)
    requires
        s.len() > 0 ==> !is_white(s[0]) && !is_white(s.last()),
    ensures
        trimmed(s) == s,
{
}

/// A line break behind a text is trimmed away.
pub proof fn lemma_trimmed_newline(s: Seq<char>)
    ensures
        trimmed(s + seq!['\n']) == trimmed(s),
    decreases s.len(),
{
    let t = s + seq!['\n'];
    if s.len() == 0 {
        assert(t.skip(1) =~= s);
    } else if is_white(s[0]) {
        assert(t.skip(1) =~= s.skip(1) + seq!['\n']);
        lemma_trimmed_newline(s.skip(1));
    } else {
        assert(t.last() == '\n');
        assert(t.drop_last() =~= s);
    }
}

/// `s` without the white space around it.
pub fn trim(s: &str) -> (r: &str)
    ensures
        r@ == trimmed(s@),
{
    let v = chars_of(s);
    let mut i: usize = 0;
    proof {
        assert(v@.skip(0) =~= v@);
    }
    while i < v.len() && white(v[i])
        invariant
            i <= v@.len(),
            trim_front(v@.skip(i as int)) == trim_front(v@),
        decreases v@.len() - i,
    {
        proof {
            assert(v@.skip(i as int).skip(1) =~= v@.skip(i + 1));
        }
        i = i + 1;
    }
    let ghost t = v@.skip(i as int);
    let mut j: usize = v.len();
    proof {
        assert(v@.subrange(i as int, j as int) =~= t);
    }
    while i < j && white(v[j - 1])
        invariant
            i <= j <= v@.len(),
            trim_back(v@.subrange(i as int, j as int)) == trim_back(t),
        decreases j,
    {
        proof {
            assert(v@.subrange(i as int, j as int).drop_last() =~= v@.subrange(i as int, j - 1));
        }
        j = j - 1;
    }
    s.substring_char(i, j)
}

// ---------------------------------------------------------------------
// Pieces between separators
// ---------------------------------------------------------------------

/// The text that is there, if one is.
pub open spec fn opt_view(o: Option<&str>) -> Option<Seq<char>> {
    match o {
        Some(s) => Some(s@),
        None => None,
    }
}

/// The text that is there, if one is.
pub open spec fn opt_text(o: Option<String>) -> Option<Seq<char>> {
    match o {
        Some(s) => Some(s@),
        None => None,
    }
}

/// The texts that a vector of strings holds.
pub open spec fn views(v: Seq<String>) -> Seq<Seq<char>> {
    v.map_values(|s: String| s@)
}

/// The pieces of `s` between the characters that `sep` accepts: one more than
/// there are such characters.
pub open spec fn pieces(s: Seq<char>, sep: spec_fn(char) -> bool) -> Seq<Seq<char>>
    decreases s.len(),
{
    if s.len() == 0 {
        seq![Seq::<char>::empty()]
    } else {
        let front = pieces(s.drop_last(), sep);
        if sep(s.last()) {
            front.push(Seq::<char>::empty())
        } else {
            front.drop_last().push(front.last().push(s.last()))
        }
    }
}

pub open spec fn is_char(c: char) -> spec_fn(char) -> bool {
    |x: char| x == c
}

pub proof fn lemma_pieces_nonempty(s: Seq<char>, sep: spec_fn(char) -> bool)
    ensures
        pieces(s, sep).len() > 0,
    decreases s.len(),
{
    if s.len() > 0 {
        lemma_pieces_nonempty(s.drop_last(), sep);
    }
}

pub proof fn lemma_views_push(v: Seq<String>, s: String)
    ensures
        views(v.push(s)) == views(v).push(s@),
{
    assert(views(v.push(s)) =~= views(v).push(s@));
}

/// The pieces of two texts with a separator between them are the pieces of the
/// first, then those of the second.
pub proof fn lemma_pieces_concat(
    a: Seq<char>,
    c: char,
    b: Seq<char>,
    sep: spec_fn(char) -> bool,
)
    requires
        sep(c),
    ensures
        pieces(a + seq![c] + b, sep) == pieces(a, sep) + pieces(b, sep),
    decreases b.len(),
{
    let s = a + seq![c] + b;
    let pa = pieces(a, sep);
    if b.len() == 0 {
        assert(s.drop_last() =~= a);
        assert(s.last() == c);
        assert(pa.push(Seq::<char>::empty()) =~= pa + pieces(b, sep));
    } else {
        let d = b.drop_last();
        lemma_pieces_concat(a, c, d, sep);
        lemma_pieces_nonempty(d, sep);
        assert(s.drop_last() =~= a + seq![c] + d);
        let pd = pieces(d, sep);
        let f = pa + pd;
        assert(f.last() == pd.last());
        assert(f.drop_last() =~= pa + pd.drop_last());
        assert(s.last() == b.last());
        assert(pieces(s, sep) =~= pa + pieces(b, sep));
    }
}

/// A text without a separator is one piece.
pub proof fn lemma_pieces_whole(s: Seq<char>, sep: spec_fn(char) -> bool)
    requires
        forall|i: int| 0 <= i < s.len() ==> !sep(#[trigger] s[i]),
    ensures
        pieces(s, sep) == seq![s],
    decreases s.len(),
{
    if s.len() == 0 {
        assert(s =~= Seq::<char>::empty());
    } else {
        let d = s.drop_last();
        assert forall|i: int| 0 <= i < d.len() implies !sep(#[trigger] d[i]) by {
            assert(d[i] == s[i]);
        }
        lemma_pieces_whole(d, sep);
        assert(d.push(s.last()) =~= s);
        assert(seq![d].drop_last().push(s) =~= seq![s]);
    }
}

/// No piece holds what the text does not hold.
pub proof fn lemma_pieces_avoid(
    s: Seq<char>,
    sep: spec_fn(char) -> bool,
    avoid: spec_fn(char) -> bool,
)
    requires
        forall|i: int| 0 <= i < s.len() ==> !avoid(#[trigger] s[i]),
    ensures
        forall|i: int, k: int|
            0 <= i < pieces(s, sep).len() && 0 <= k < pieces(s, sep)[i].len() ==> !avoid(
                #[trigger] pieces(s, sep)[i][k],
            ),
    decreases s.len(),
{
    if s.len() > 0 {
        let d = s.drop_last();
        let pd = pieces(d, sep);
        assert forall|i: int| 0 <= i < d.len() implies !avoid(#[trigger] d[i]) by {
            assert(d[i] == s[i]);
        }
        assert(!avoid(s[s.len() - 1]));
        lemma_pieces_avoid(d, sep, avoid);
        lemma_pieces_nonempty(d, sep);
        assert forall|i: int, k: int|
            0 <= i < pieces(s, sep).len() && 0 <= k < pieces(s, sep)[i].len() implies !avoid(
            #[trigger] pieces(s, sep)[i][k],
        ) by {
            if i < pd.len() - 1 || (sep(s.last()) && i == pd.len() - 1) {
                assert(pieces(s, sep)[i] == pd[i]);
                assert(!avoid(pd[i][k]));
            } else if !sep(s.last()) {
                assert(pieces(s, sep)[i] == pd.last().push(s.last()));
                if k < pd.last().len() {
                    assert(!avoid(pd[pd.len() - 1][k]));
                }
            }
        }
    }
}

/// No piece holds a separator.
pub proof fn lemma_pieces_clean(s: Seq<char>, sep: spec_fn(char) -> bool)
    ensures
        forall|i: int, k: int|
            0 <= i < pieces(s, sep).len() && 0 <= k < pieces(s, sep)[i].len() ==> !sep(
                #[trigger] pieces(s, sep)[i][k],
            ),
    decreases s.len(),
{
    if s.len() > 0 {
        let d = s.drop_last();
        let pd = pieces(d, sep);
        lemma_pieces_clean(d, sep);
        lemma_pieces_nonempty(d, sep);
        assert forall|i: int, k: int|
            0 <= i < pieces(s, sep).len() && 0 <= k < pieces(s, sep)[i].len() implies !sep(
            #[trigger] pieces(s, sep)[i][k],
        ) by {
            if i < pd.len() - 1 {
                assert(pieces(s, sep)[i] == pd[i]);
                assert(!sep(pd[i][k]));
            } else if !sep(s.last()) {
                assert(pieces(s, sep)[i] == pd.last().push(s.last()));
                if k < pd.last().len() {
                    assert(!sep(pd[pd.len() - 1][k]));
                }
            } else if i == pd.len() - 1 {
                assert(pieces(s, sep)[i] == pd[i]);
                assert(!sep(pd[i][k]));
            }
        }
    }
}

/// Texts without a separator, joined by one, are the pieces of what they make.
pub proof fn lemma_pieces_joined(ss: Seq<Seq<char>>, c: char, sep: spec_fn(char) -> bool)
    requires
        ss.len() > 0,
        sep(c),
        forall|i: int, k: int|
            0 <= i < ss.len() && 0 <= k < ss[i].len() ==> !sep(#[trigger] ss[i][k]),
    ensures
        pieces(joined(ss, seq![c]), sep) == ss,
    decreases ss.len(),
{
    let l = ss.last();
    assert forall|k: int| 0 <= k < l.len() implies !sep(#[trigger] l[k]) by {
        assert(!sep(ss[ss.len() - 1][k]));
    }
    lemma_pieces_whole(l, sep);
    if ss.len() == 1 {
        assert(seq![l] =~= ss);
    } else {
        let d = ss.drop_last();
        assert forall|i: int, k: int| 0 <= i < d.len() && 0 <= k < d[i].len() implies !sep(
            #[trigger] d[i][k],
        ) by {
            assert(!sep(ss[i][k]));
        }
        lemma_pieces_joined(d, c, sep);
        lemma_pieces_concat(joined(d, seq![c]), c, l, sep);
        assert(d + seq![l] =~= ss);
    }
}

/// The pieces of `s` between its characters `c`.
pub fn split(s: &str, c: char) -> (r: Vec<String>)
    ensures
        views(r@) == pieces(s@, is_char(c)),
{
    let v = chars_of(s);
    let mut out: Vec<String> = Vec::new();
    let mut cur = String::new();
    proof {
        assert(v@.take(0) =~= Seq::<char>::empty());
        assert(views(out@).push(cur@) =~= seq![Seq::<char>::empty()]);
    }
    for i in 0..v.len()
        invariant
            views(out@).push(cur@) == pieces(v@.take(i as int), is_char(c)),
    {
        proof {
            assert(v@.take(i + 1).drop_last() =~= v@.take(i as int));
            assert(views(out@).push(cur@).drop_last() =~= views(out@));
        }
        if v[i] == c {
            proof {
                lemma_views_push(out@, cur);
            }
            out.push(cur);
            cur = String::new();
        } else {
            cur.push(v[i]);
        }
    }
    proof {
        assert(v@.take(v@.len() as int) =~= v@);
        lemma_views_push(out@, cur);
    }
    out.push(cur);
    out
}

pub open spec fn nonempty(ss: Seq<Seq<char>>) -> Seq<Seq<char>> {
    ss.filter(|w: Seq<char>| w.len() > 0)
}

/// The words of `s`: what stands between white space.
pub open spec fn words_of(s: Seq<char>) -> Seq<Seq<char>> {
    nonempty(pieces(s, |c: char| is_white(c)))
}

pub proof fn lemma_nonempty_push(ss: Seq<Seq<char>>, w: Seq<char>)
    ensures
        nonempty(ss.push(w)) == if w.len() > 0 {
            nonempty(ss).push(w)
        } else {
            nonempty(ss)
        },
{
    reveal(Seq::filter);
    assert(ss.push(w).drop_last() =~= ss);
}

/// Where the words of `s` begin and end.
pub fn word_bounds(s: &str) -> (r: Vec<(usize, usize)>)
    ensures
        forall|i: int| 0 <= i < r@.len() ==> (#[trigger] r@[i]).0 <= r@[i].1 <= s@.len(),
        r@.map_values(|b: (usize, usize)| s@.subrange(b.0 as int, b.1 as int)) == words_of(s@),
{
    let v = chars_of(s);
    let n: usize = v.len();
    let ghost sep = |c: char| is_white(c);
    let ghost at = |b: (usize, usize)| v@.subrange(b.0 as int, b.1 as int);
    let mut out: Vec<(usize, usize)> = Vec::new();
    let ghost mut front: Seq<Seq<char>> = Seq::empty();
    let mut start: usize = 0;
    proof {
        assert(v@.take(0) =~= Seq::<char>::empty());
        assert(front.push(v@.subrange(0, 0)) =~= seq![Seq::<char>::empty()]);
        reveal(Seq::filter);
        assert(out@.map_values(at) =~= nonempty(front));
    }
    for i in 0..n
        invariant
            n == v@.len(),
            start <= i,
            sep == (|c: char| is_white(c)),
            at == (|b: (usize, usize)| v@.subrange(b.0 as int, b.1 as int)),
            forall|k: int| 0 <= k < out@.len() ==> (#[trigger] out@[k]).0 <= out@[k].1 <= n,
            front.push(v@.subrange(start as int, i as int)) == pieces(v@.take(i as int), sep),
            out@.map_values(at) == nonempty(front),
    {
        let ghost cur = v@.subrange(start as int, i as int);
        proof {
            assert(v@.take(i + 1).drop_last() =~= v@.take(i as int));
            assert(front.push(cur).drop_last() =~= front);
            lemma_nonempty_push(front, cur);
        }
        if white(v[i]) {
            proof {
                front = front.push(cur);
            }
            if start < i {
                let ghost o = out@;
                out.push((start, i));
                proof {
                    assert(out@.map_values(at) =~= o.map_values(at).push(cur));
                }
            }
            start = i + 1;
            proof {
                assert(v@.subrange(start as int, i + 1) =~= Seq::<char>::empty());
            }
        } else {
            proof {
                assert(v@.subrange(start as int, i + 1) =~= cur.push(v@[i as int]));
            }
        }
    }
    let ghost cur = v@.subrange(start as int, n as int);
    proof {
        assert(v@.take(n as int) =~= v@);
        lemma_nonempty_push(front, cur);
    }
    if start < n {
        let ghost o = out@;
        out.push((start, n));
        proof {
            assert(out@.map_values(at) =~= o.map_values(at).push(cur));
        }
    }
    out
}

/// The words of `s`, in order.
pub fn words(s: &str) -> (r: Vec<String>)
    ensures
        views(r@) == words_of(s@),
{
    let bounds = word_bounds(s);
    let ghost at = |b: (usize, usize)| s@.subrange(b.0 as int, b.1 as int);
    let mut out: Vec<String> = Vec::new();
    for i in 0..bounds.len()
        invariant
            at == (|b: (usize, usize)| s@.subrange(b.0 as int, b.1 as int)),
            forall|k: int|
                0 <= k < bounds@.len() ==> (#[trigger] bounds@[k]).0 <= bounds@[k].1 <= s@.len(),
            views(out@) =~= bounds@.map_values(at).take(i as int),
    {
        let w = s.substring_char(bounds[i].0, bounds[i].1).to_string();
        proof {
            lemma_views_push(out@, w);
        }
        out.push(w);
    }
    proof {
        assert(bounds@.map_values(at).take(bounds@.len() as int) =~= bounds@.map_values(at));
    }
    out
}

/// The word of `s` that stands behind `n` others.
pub fn nth_word(s: &str, n: usize) -> (r: Option<&str>)
    ensures
        opt_view(r) == if n < words_of(s@).len() {
            Some(words_of(s@)[n as int])
        } else {
            None
        },
{
    let bounds = word_bounds(s);
    proof {
        let at = |b: (usize, usize)| s@.subrange(b.0 as int, b.1 as int);
        assert(bounds@.map_values(at).len() == bounds@.len());
        assert(n < bounds@.len() ==> bounds@.map_values(at)[n as int] == at(bounds@[n as int]));
    }
    if n < bounds.len() {
        Some(s.substring_char(bounds[n].0, bounds[n].1))
    } else {
        None
    }
}

/// A line without the carriage return before its line feed.
pub open spec fn without_cr(line: Seq<char>) -> Seq<char> {
    if line.len() > 0 && line.last() == '\r' {
        line.drop_last()
    } else {
        line
    }
}

/// The lines of `s`. A line ends in a line feed, or in a carriage return and a
/// line feed; the ending of the last line may be missing.
pub open spec fn lines_of(s: Seq<char>) -> Seq<Seq<char>> {
    let p = pieces(s, is_char('\n'));
    p.drop_last().map_values(|l: Seq<char>| without_cr(l)) + (if p.last().len() == 0 {
        Seq::empty()
    } else {
        seq![p.last()]
    })
}

/// The lines of two texts with a line feed between them: the pieces of the
/// first, then the lines of the second.
pub proof fn lemma_lines_concat(a: Seq<char>, b: Seq<char>)
    ensures
        lines_of(a + seq!['\n'] + b) == pieces(a, is_char('\n')).map_values(
            |l: Seq<char>| without_cr(l),
        ) + lines_of(b),
{
    lemma_pieces_concat(a, '\n', b, is_char('\n'));
    lemma_pieces_nonempty(b, is_char('\n'));
    let pa = pieces(a, is_char('\n'));
    let pb = pieces(b, is_char('\n'));
    let f = |l: Seq<char>| without_cr(l);
    assert((pa + pb).drop_last() =~= pa + pb.drop_last());
    assert((pa + pb.drop_last()).map_values(f) =~= pa.map_values(f) + pb.drop_last().map_values(f));
    assert((pa + pb).last() == pb.last());
    assert(lines_of(a + seq!['\n'] + b) =~= pa.map_values(f) + lines_of(b));
}

/// One line behind complete lines.
pub proof fn lemma_lines_one_more(a: Seq<char>, line: Seq<char>)
    requires
        a.len() == 0 || a.last() == '\n',
        !line.contains('\n'),
    ensures
        lines_of(a + line + seq!['\n']) == lines_of(a).push(without_cr(line)),
{
    let nl = seq!['\n'];
    let e = Seq::<char>::empty();
    let f = |l: Seq<char>| without_cr(l);
    assert forall|i: int| 0 <= i < line.len() implies !is_char('\n')(#[trigger] line[i]) by {
        assert(line.contains(line[i]));
    }
    lemma_pieces_whole(line, is_char('\n'));
    lemma_lines_concat(line, e);
    assert(pieces(e, is_char('\n')) =~= seq![e]);
    assert(lines_of(e) =~= Seq::<Seq<char>>::empty());
    assert(line + nl + e =~= line + nl);
    assert(seq![line].map_values(f) =~= seq![without_cr(line)]);
    assert(lines_of(line + nl) =~= seq![without_cr(line)]);
    if a.len() == 0 {
        assert(a + line + nl =~= line + nl);
        assert(a =~= e);
        assert(lines_of(a).push(without_cr(line)) =~= seq![without_cr(line)]);
    } else {
        let d = a.drop_last();
        assert(a + line + nl =~= d + nl + (line + nl));
        lemma_lines_concat(d, line + nl);
        assert(a =~= d + nl + e);
        lemma_lines_concat(d, e);
        let pd = pieces(d, is_char('\n')).map_values(f);
        assert(lines_of(a) =~= pd);
        assert(pd + seq![without_cr(line)] =~= pd.push(without_cr(line)));
    }
}

/// No line holds a line feed.
pub proof fn lemma_lines_clean(s: Seq<char>)
    ensures
        forall|i: int, k: int|
            0 <= i < lines_of(s).len() && 0 <= k < lines_of(s)[i].len() ==> #[trigger] lines_of(
                s,
            )[i][k] != '\n',
{
    let sep = is_char('\n');
    let p = pieces(s, sep);
    lemma_pieces_nonempty(s, sep);
    lemma_pieces_clean(s, sep);
    assert forall|i: int, k: int|
        0 <= i < lines_of(s).len() && 0 <= k < lines_of(s)[i].len() implies #[trigger] lines_of(
        s,
    )[i][k] != '\n' by {
        if i < p.len() - 1 {
            assert(lines_of(s)[i] == without_cr(p[i]));
            assert(lines_of(s)[i][k] == p[i][k]);
        } else {
            assert(lines_of(s)[i] == p[i]);
        }
        assert(!sep(p[i][k]));
    }
}

/// The lines of texts that each stand on a line of their own.
pub proof fn lemma_lines_joined(ls: Seq<Seq<char>>)
    requires
        ls.len() > 0,
        forall|i: int, k: int|
            0 <= i < ls.len() && 0 <= k < ls[i].len() ==> #[trigger] ls[i][k] != '\n',
    ensures
        lines_of(joined(ls, seq!['\n']) + seq!['\n']) == ls.map_values(
            |l: Seq<char>| without_cr(l),
        ),
{
    let j = joined(ls, seq!['\n']);
    let e = Seq::<char>::empty();
    let sep = is_char('\n');
    assert forall|i: int, k: int| 0 <= i < ls.len() && 0 <= k < ls[i].len() implies !sep(
        #[trigger] ls[i][k],
    ) by {}
    lemma_pieces_joined(ls, '\n', sep);
    lemma_lines_concat(j, e);
    assert(j + seq!['\n'] + e =~= j + seq!['\n']);
    assert(pieces(e, sep) =~= seq![e]);
    assert(lines_of(e) =~= Seq::<Seq<char>>::empty());
    let f = |l: Seq<char>| without_cr(l);
    assert(ls.map_values(f) + lines_of(e) =~= ls.map_values(f));
}

pub fn lines(s: &str) -> (r: Vec<String>)
    ensures
        views(r@) == lines_of(s@),
{
    let p = split(s, '\n');
    let ghost all = pieces(s@, is_char('\n'));
    proof {
        lemma_pieces_nonempty(s@, is_char('\n'));
    }
    let last: usize = p.len() - 1;
    let mut out: Vec<String> = Vec::new();
    for i in 0..last
        invariant
            views(p@) == all,
            last == p@.len() - 1,
            views(out@) =~= all.take(i as int).map_values(|l: Seq<char>| without_cr(l)),
    {
        let l = chars_of(p[i].as_str());
        let n: usize = if l.len() > 0 && l[l.len() - 1] == '\r' {
            l.len() - 1
        } else {
            l.len()
        };
        let line = text_of(&l, 0, n);
        proof {
            assert(l@ == all[i as int]);
            assert(line@ =~= without_cr(l@));
            lemma_views_push(out@, line);
        }
        out.push(line);
    }
    proof {
        assert(all.take(last as int) =~= all.drop_last());
        assert(p@[last as int]@ == all.last());
    }
    if !p[last].as_str().is_empty() {
        let line = p[last].clone();
        proof {
            lemma_views_push(out@, line);
        }
        out.push(line);
        proof {
            assert(views(out@) =~= lines_of(s@));
        }
    } else {
        proof {
            assert(views(out@) =~= lines_of(s@));
        }
    }
    out
}

/// The texts of `ss` with `sep` between them.
pub open spec fn joined(ss: Seq<Seq<char>>, sep: Seq<char>) -> Seq<char>
    decreases ss.len(),
{
    if ss.len() == 0 {
        Seq::empty()
    } else if ss.len() == 1 {
        ss[0]
    } else {
        joined(ss.drop_last(), sep) + sep + ss.last()
    }
}

pub fn join(parts: &Vec<String>, sep: &str) -> (r: String)
    ensures
        r@ == joined(views(parts@), sep@),
{
    let mut s = String::new();
    let ghost all = views(parts@);
    for i in 0..parts.len()
        invariant
            all == views(parts@),
            s@ == joined(all.take(i as int), sep@),
    {
        proof {
            assert(all.take(i + 1).drop_last() =~= all.take(i as int));
        }
        if i > 0 {
            s.append(sep);
        }
        s.append(parts[i].as_str());
        proof {
            if i == 0 {
                assert(s@ =~= all[0]);
            }
        }
    }
    proof {
        assert(all.take(parts@.len() as int) =~= all);
    }
    s
}

// ---------------------------------------------------------------------
// Replacing
// ---------------------------------------------------------------------

/// `s` with `with` in the place of each `c`.
pub open spec fn replaced(s: Seq<char>, c: char, with: Seq<char>) -> Seq<char>
    decreases s.len(),
{
    if s.len() == 0 {
        s
    } else {
        replaced(s.drop_last(), c, with) + (if s.last() == c {
            with
        } else {
            seq![s.last()]
        })
    }
}

pub fn replace_char(s: &str, c: char, with: &str) -> (r: String)
    ensures
        r@ == replaced(s@, c, with@),
{
    let v = chars_of(s);
    let mut out = String::new();
    for i in 0..v.len()
        invariant
            out@ == replaced(v@.take(i as int), c, with@),
    {
        proof {
            assert(v@.take(i + 1).drop_last() =~= v@.take(i as int));
        }
        if v[i] == c {
            out.append(with);
        } else {
            let ghost before = out@;
            out.push(v[i]);
            proof {
                assert(out@ =~= before + seq![v@[i as int]]);
            }
        }
    }
    proof {
        assert(v@.take(v@.len() as int) =~= v@);
    }
    out
}

/// `s` with `with` in the place of each occurrence of `pat`, taken from the
/// left, none overlapping the one before it.
pub open spec fn substituted(s: Seq<char>, pat: Seq<char>, with: Seq<char>) -> Seq<char>
    decreases s.len(),
{
    match first_at(s, pat) {
        Some(i) => if pat.len() == 0 || i < 0 || i + pat.len() > s.len() {
            s
        } else {
            s.take(i) + with + substituted(s.skip(i + pat.len()), pat, with)
        },
        None => s,
    }
}

pub fn replace(s: &str, pat: &str, with: &str) -> (r: String)
    requires
        pat@.len() > 0,
    ensures
        r@ == substituted(s@, pat@, with@),
{
    let p = chars_of(pat);
    let mut rest = chars_of(s);
    let mut out = String::new();
    proof {
        assert(out@ + substituted(rest@, pat@, with@) =~= substituted(s@, pat@, with@));
    }
    loop
        invariant
            p@ == pat@,
            pat@.len() > 0,
            out@ + substituted(rest@, pat@, with@) == substituted(s@, pat@, with@),
        decreases rest@.len(),
    {
        let n: usize = rest.len();
        match find_in(&rest, &p) {
            Some(i) => {
                let ghost before = out@;
                let ghost r0 = rest@;
                out.append(text_of(&rest, 0, i).as_str());
                out.append(with);
                let mut next: Vec<char> = Vec::new();
                for k in (i + p.len())..n
                    invariant
                        n == rest@.len(),
                        i + p@.len() <= k <= n,
                        next@ == rest@.subrange(i + p@.len(), k as int),
                {
                    next.push(rest[k]);
                }
                rest = next;
                proof {
                    assert(rest@ =~= r0.skip(i + pat@.len()));
                    assert(r0.take(i as int) =~= r0.subrange(0, i as int));
                    assert(out@ + substituted(rest@, pat@, with@) =~= before + substituted(
                        r0,
                        pat@,
                        with@,
                    ));
                }
            },
            None => {
                let ghost before = out@;
                out.append(text_of(&rest, 0, n).as_str());
                proof {
                    assert(rest@.subrange(0, n as int) =~= rest@);
                }
                return out;
            },
        }
    }
}

} // verus!
