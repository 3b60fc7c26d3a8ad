use vstd::prelude::*;

use crate::cli::{
    connect_remote, interpret, may_read_log, may_send, pad, server_column, tail_args, CliError,
};
use crate::number::{decimal, decimal_of, is_digit, lemma_decimal_value, parse_unsigned};
use crate::order::{at_most, text_at_most};
use crate::path::{components, extension, file_name, join_path, last_at};
use crate::server::ActiveServer;
use crate::text::{
    begins, contains, ends, ends_with, find, first_at, holds, is_char, is_white, join, joined,
    lemma_char_from, lemma_find_from, lemma_lines_concat, lemma_pieces_clean, lemma_pieces_concat,
    lemma_pieces_nonempty, lemma_pieces_whole, lines, lines_of, nonempty, nth_word, occurs_at,
    pieces, replace, replace_char, replaced, same, split, split_once, starts_with, strip_prefix,
    trim, trim_back, trim_front, trimmed, views, without_cr, words,
};

verus! {

// ---------------------------------------------------------------------
// White space
// ---------------------------------------------------------------------

/// Blanks, tabs and line ends are white space, and nothing that can be seen of
/// ASCII is.
pub proof fn law_white(c: char)
    ensures
        is_white(' ') && is_white('\t') && is_white('\n') && is_white('\r'),
        '!' <= c <= '~' ==> !is_white(c),
{
}

/// A text is white space, what is trimmed to, and white space.
pub open spec fn trims(s: Seq<char>, r: Seq<char>, i: int, j: int) -> bool {
    &&& 0 <= i <= j <= s.len()
    &&& r == s.subrange(i, j)
    &&& forall|k: int| 0 <= k < i ==> is_white(#[trigger] s[k])
    &&& forall|k: int| j <= k < s.len() ==> is_white(#[trigger] s[k])
}

/// Trimming takes away white space at both ends, all of it, and nothing else.
pub proof fn law_trim(s: &str, r: &str)
    requires
        call_ensures(trim, (s,), r),
    ensures
        exists|i: int, j: int| trims(s@, r@, i, j),
        r@.len() > 0 ==> !is_white(r@[0]) && !is_white(r@.last()),
{
    lemma_trim_front(s@);
    let t = trim_front(s@);
    lemma_trim_back(t);
    let i = s@.len() - t.len();
    let j = i + r@.len();
    assert(t =~= s@.subrange(i, s@.len() as int));
    assert(r@ =~= s@.subrange(i, j));
    assert forall|k: int| j <= k < s@.len() implies is_white(#[trigger] s@[k]) by {
        assert(t[k - i] == s@[k]);
    }
    assert(trims(s@, r@, i, j));
}

proof fn lemma_trim_front(s: Seq<char>)
    ensures
        trim_front(s).len() <= s.len(),
        trim_front(s) == s.skip(s.len() - trim_front(s).len()),
        forall|k: int| 0 <= k < s.len() - trim_front(s).len() ==> is_white(#[trigger] s[k]),
        trim_front(s).len() > 0 ==> !is_white(trim_front(s)[0]),
    decreases s.len(),
{
    if s.len() > 0 && is_white(s[0]) {
        let d = s.skip(1);
        lemma_trim_front(d);
        assert forall|k: int| 0 <= k < s.len() - trim_front(s).len() implies is_white(
            #[trigger] s[k],
        ) by {
            if k > 0 {
                assert(d[k - 1] == s[k]);
            }
        }
        assert(trim_front(s) =~= s.skip(s.len() - trim_front(s).len()));
    } else {
        assert(s.skip(0) =~= s);
    }
}

proof fn lemma_trim_back(s: Seq<char>)
    ensures
        trim_back(s).len() <= s.len(),
        trim_back(s) == s.take(trim_back(s).len() as int),
        forall|k: int| trim_back(s).len() <= k < s.len() ==> is_white(#[trigger] s[k]),
        trim_back(s).len() > 0 ==> !is_white(trim_back(s).last()) && trim_back(s)[0] == s[0],
    decreases s.len(),
{
    if s.len() > 0 && is_white(s.last()) {
        let d = s.drop_last();
        lemma_trim_back(d);
        assert forall|k: int| trim_back(s).len() <= k < s.len() implies is_white(
            #[trigger] s[k],
        ) by {
            if k < d.len() {
                assert(d[k] == s[k]);
            }
        }
        assert(trim_back(s) =~= s.take(trim_back(s).len() as int));
    } else {
        assert(s.take(s.len() as int) =~= s);
    }
}

// ---------------------------------------------------------------------
// Finding
// ---------------------------------------------------------------------

/// What is found is there, and not before; what is not found is nowhere.
pub proof fn law_found(s: &str, pat: &str, at: Option<usize>, has: bool, i: int)
    requires
        call_ensures(find, (s, pat), at),
        call_ensures(contains, (s, pat), has),
    ensures
        at is Some <==> has,
        at matches Some(k) ==> k + pat@.len() <= s@.len() && s@.subrange(k as int, k + pat@.len())
            == pat@,
        0 <= i && i + pat@.len() <= s@.len() && s@.subrange(i, i + pat@.len()) == pat@ ==> (
        at matches Some(k) && k <= i),
{
    lemma_find_from(s@, pat@, 0);
    if at is Some {
        assert(occurs_at(s@, pat@, at->0 as int));
    }
    if 0 <= i && i + pat@.len() <= s@.len() && s@.subrange(i, i + pat@.len()) == pat@ {
        assert(occurs_at(s@, pat@, i));
    }
}

/// A text begins, and ends, with what it is put together from.
pub proof fn law_begins_and_ends(
    a: &str,
    b: &str,
    ab: &str,
    begins_so: bool,
    ends_so: bool,
    rest: Option<&str>,
)
    requires
        ab@ == a@ + b@,
        call_ensures(starts_with, (ab, a), begins_so),
        call_ensures(ends_with, (ab, b), ends_so),
        call_ensures(strip_prefix, (ab, a), rest),
    ensures
        begins_so,
        ends_so,
        rest matches Some(t) && t@ == b@,
{
    assert(ab@.take(a@.len() as int) =~= a@);
    assert(ab@.skip(a@.len() as int) =~= b@);
}

/// Only what a text begins with can be taken off it.
pub proof fn law_stripped(s: &str, pat: &str, begins_so: bool, ends_so: bool, rest: Option<&str>)
    requires
        call_ensures(starts_with, (s, pat), begins_so),
        call_ensures(ends_with, (s, pat), ends_so),
        call_ensures(strip_prefix, (s, pat), rest),
    ensures
        begins_so <==> rest is Some,
        rest matches Some(t) ==> s@ == pat@ + t@,
        ends_so ==> exists|front: Seq<char>| s@ == #[trigger] (front + pat@),
{
    if rest is Some {
        assert(s@ =~= s@.take(pat@.len() as int) + s@.skip(pat@.len() as int));
    }
    if ends_so {
        let n = s@.len() - pat@.len();
        assert(s@ =~= s@.take(n) + pat@);
    }
}

/// Two texts are the same where all their characters are.
pub proof fn law_same(a: &str, b: &str, r: bool)
    requires
        call_ensures(same, (a, b), r),
    ensures
        r <==> a@ == b@,
{
}

/// A text is cut at the first of the characters, which stands in neither part of
/// the cut but perhaps the second; a text without it is not cut.
pub proof fn law_cut(s: &str, c: char, r: Option<(&str, &str)>)
    requires
        call_ensures(split_once, (s, c), r),
    ensures
        r is Some <==> s@.contains(c),
        r matches Some(p) ==> s@ == p.0@ + seq![c] + p.1@ && !p.0@.contains(c),
{
    lemma_char_from(s@, c, 0);
    if s@.contains(c) {
        let k = choose|k: int| 0 <= k < s@.len() && s@[k] == c;
        assert(r is Some);
    }
    if r is Some {
        let p = r->0;
        assert(s@ =~= p.0@ + seq![c] + p.1@);
    }
}

// ---------------------------------------------------------------------
// Pieces, lines and words
// ---------------------------------------------------------------------

/// The pieces of a text, joined again, are the text, and no piece holds what the
/// text was split at.
pub proof fn law_split(s: &str, c: char, r: Vec<String>, i: int)
    requires
        call_ensures(split, (s, c), r),
    ensures
        r@.len() > 0,
        joined(views(r@), seq![c]) == s@,
        0 <= i < r@.len() ==> !r@[i]@.contains(c),
{
    lemma_pieces_nonempty(s@, is_char(c));
    lemma_pieces_join_back(s@, c);
    lemma_pieces_clean(s@, is_char(c));
    assert(views(r@).len() == r@.len());
    if 0 <= i < r@.len() {
        assert(views(r@)[i] == r@[i]@);
        assert forall|k: int| 0 <= k < r@[i]@.len() implies r@[i]@[k] != c by {
            assert(!is_char(c)(pieces(s@, is_char(c))[i][k]));
        }
    }
}

proof fn lemma_pieces_join_back(s: Seq<char>, c: char)
    ensures
        joined(pieces(s, is_char(c)), seq![c]) == s,
    decreases s.len(),
{
    let sep = is_char(c);
    let p = pieces(s, sep);
    if s.len() == 0 {
        assert(joined(p, seq![c]) =~= s);
    } else {
        let d = s.drop_last();
        let front = pieces(d, sep);
        lemma_pieces_join_back(d, c);
        lemma_pieces_nonempty(d, sep);
        if sep(s.last()) {
            assert(p.drop_last() =~= front);
            assert(joined(p, seq![c]) =~= d + seq![c]);
            assert(s =~= d + seq![c]);
        } else {
            let x = s.last();
            assert(p.drop_last() =~= front.drop_last());
            assert(p.last() == front.last().push(x));
            assert(joined(p, seq![c]) =~= joined(front, seq![c]).push(x));
            assert(s =~= d.push(x));
        }
    }
}

/// The first line of a text is what stands before its first line end, with or
/// without a carriage return; what is left gives the other lines. A text without a
/// line end is one line, and an empty one none.
pub proof fn law_lines(
    line: Seq<char>,
    rest: &str,
    lf: &str,
    crlf: &str,
    alone: &str,
    r: Vec<String>,
    with_lf: Vec<String>,
    with_crlf: Vec<String>,
    one: Vec<String>,
)
    requires
        !line.contains('\n'),
        line.len() > 0 ==> line.last() != '\r',
        lf@ == line + seq!['\n'] + rest@,
        crlf@ == line + seq!['\r', '\n'] + rest@,
        alone@ == line,
        call_ensures(lines, (rest,), r),
        call_ensures(lines, (lf,), with_lf),
        call_ensures(lines, (crlf,), with_crlf),
        call_ensures(lines, (alone,), one),
    ensures
        views(with_lf@) == seq![line] + views(r@),
        views(with_crlf@) == views(with_lf@),
        line.len() > 0 ==> views(one@) == seq![line],
        line.len() == 0 ==> one@.len() == 0,
{
    let sep = is_char('\n');
    let f = |l: Seq<char>| without_cr(l);
    let cr = line.push('\r');
    assert forall|i: int| 0 <= i < line.len() implies !sep(#[trigger] line[i]) by {
        assert(line.contains(line[i]));
    }
    assert forall|i: int| 0 <= i < cr.len() implies !sep(#[trigger] cr[i]) by {
        if i < line.len() {
            assert(cr[i] == line[i]);
        }
    }
    lemma_pieces_whole(line, sep);
    lemma_pieces_whole(cr, sep);
    lemma_lines_concat(line, rest@);
    lemma_lines_concat(cr, rest@);
    assert(crlf@ =~= cr + seq!['\n'] + rest@);
    assert(cr.drop_last() =~= line);
    assert(seq![line].map_values(f) =~= seq![line]);
    assert(seq![cr].map_values(f) =~= seq![line]);
    assert(views(one@).len() == one@.len());
    assert(lines_of(line) =~= if line.len() == 0 {
        Seq::<Seq<char>>::empty()
    } else {
        seq![line]
    });
}

/// Words are what stands between white space: white space in front adds none, and a
/// word with white space behind it is the first of its text.
pub proof fn law_words(
    word: Seq<char>,
    white: char,
    rest: &str,
    behind: &str,
    first: &str,
    alone: &str,
    r: Vec<String>,
    r_behind: Vec<String>,
    r_first: Vec<String>,
    one: Vec<String>,
)
    requires
        is_white(white),
        word.len() > 0,
        forall|i: int| 0 <= i < word.len() ==> !is_white(#[trigger] word[i]),
        behind@ == seq![white] + rest@,
        first@ == word + seq![white] + rest@,
        alone@ == word,
        call_ensures(words, (rest,), r),
        call_ensures(words, (behind,), r_behind),
        call_ensures(words, (first,), r_first),
        call_ensures(words, (alone,), one),
    ensures
        views(r_behind@) == views(r@),
        views(r_first@) == seq![word] + views(r@),
        views(one@) == seq![word],
{
    let sep = |c: char| is_white(c);
    let e = Seq::<char>::empty();
    let keep = |w: Seq<char>| w.len() > 0;
    lemma_pieces_concat(e, white, rest@, sep);
    lemma_pieces_concat(word, white, rest@, sep);
    assert(behind@ =~= e + seq![white] + rest@);
    lemma_pieces_whole(e, sep);
    lemma_pieces_whole(word, sep);
    let p = pieces(rest@, sep);
    Seq::filter_distributes_over_add(seq![e], p, keep);
    Seq::filter_distributes_over_add(seq![word], p, keep);
    reveal(Seq::filter);
    assert(seq![e].drop_last() =~= Seq::empty());
    assert(seq![word].drop_last() =~= Seq::empty());
    assert(seq![e].filter(keep) =~= Seq::empty());
    assert(seq![word].filter(keep) =~= seq![word]);
    assert(Seq::<Seq<char>>::empty() + nonempty(p) =~= nonempty(p));
}

/// The word at a place is that of the list of words.
pub proof fn law_word_at(s: &str, n: usize, all: Vec<String>, r: Option<&str>)
    requires
        call_ensures(words, (s,), all),
        call_ensures(nth_word, (s, n), r),
    ensures
        r is Some <==> n < all@.len(),
        r matches Some(w) ==> w@ == all@[n as int]@,
{
    assert(views(all@).len() == all@.len());
    if n < all@.len() {
        assert(views(all@)[n as int] == all@[n as int]@);
    }
}

/// Texts are joined one behind the other, with the separator between two of them
/// and nowhere else.
pub proof fn law_join(
    parts: &Vec<String>,
    last: String,
    more: &Vec<String>,
    sep: &str,
    r: String,
    s: String,
)
    requires
        more@ == parts@.push(last),
        call_ensures(join, (parts, sep), r),
        call_ensures(join, (more, sep), s),
    ensures
        parts@.len() == 0 ==> r@.len() == 0 && s@ == last@,
        parts@.len() > 0 ==> s@ == r@ + sep@ + last@,
{
    assert(views(more@).drop_last() =~= views(parts@));
    assert(views(more@).last() == last@);
}

// ---------------------------------------------------------------------
// Replacing
// ---------------------------------------------------------------------

/// Each of the characters is replaced, and every other one is kept, in its place.
pub proof fn law_replace_char(
    a: &str,
    c: char,
    d: char,
    with: &str,
    hit: &str,
    miss: &str,
    r: String,
    r_hit: String,
    r_miss: String,
    nothing: &str,
    r_nothing: String,
)
    requires
        c != d,
        hit@ == a@.push(c),
        miss@ == a@.push(d),
        nothing@.len() == 0,
        call_ensures(replace_char, (a, c, with), r),
        call_ensures(replace_char, (hit, c, with), r_hit),
        call_ensures(replace_char, (miss, c, with), r_miss),
        call_ensures(replace_char, (nothing, c, with), r_nothing),
    ensures
        r_hit@ == r@ + with@,
        r_miss@ == r@.push(d),
        r_nothing@.len() == 0,
{
    assert(hit@.drop_last() =~= a@);
    assert(miss@.drop_last() =~= a@);
    assert(r@ + seq![d] =~= r@.push(d));
}

/// The first occurrence is replaced, and the text behind it in the same way; a text
/// without one is kept.
pub proof fn law_replace(
    s: &str,
    pat: &str,
    with: &str,
    at: int,
    rest: &str,
    r: String,
    r_rest: String,
)
    requires
        pat@.len() > 0,
        call_ensures(replace, (s, pat, with), r),
        call_ensures(replace, (rest, pat, with), r_rest),
        first_at(s@, pat@) matches Some(k) ==> at == k && rest@ == s@.skip(at + pat@.len()),
    ensures
        !holds(s@, pat@) ==> r@ == s@,
        holds(s@, pat@) ==> r@ == s@.take(at) + with@ + r_rest@,
{
    lemma_find_from(s@, pat@, 0);
    if holds(s@, pat@) {
        let i = choose|i: int| #[trigger] occurs_at(s@, pat@, i);
        assert(0 <= i);
    }
}

/// What is sent is the text with its written line feeds, and then its written
/// carriage returns, replaced.
pub proof fn law_interpret(text: &str, r: String, lf: String, mid: &str, crlf: String)
    requires
        call_ensures(interpret, (text,), r),
        call_ensures(replace, (text, "\\n", "\n"), lf),
        mid@ == lf@,
        call_ensures(replace, (mid, "\\r", "\r"), crlf),
    ensures
        r@ == crlf@,
{
}

// ---------------------------------------------------------------------
// Paths
// ---------------------------------------------------------------------

/// A relative path is put below a base with one slash between them; an absolute one
/// stands for itself.
pub proof fn law_join_path(base: &str, part: &str, r: String)
    requires
        call_ensures(join_path, (base, part), r),
    ensures
        part@.len() > 0 && part@[0] == '/' ==> r@ == part@,
        !(part@.len() > 0 && part@[0] == '/') && base@.len() > 0 && base@.last() != '/' ==> r@
            == base@ + "/"@ + part@,
        !(part@.len() > 0 && part@[0] == '/') && (base@.len() == 0 || base@.last() == '/') ==> r@
            == base@ + part@,
{
}

/// What is put below a base is the last of its path, and what stands behind the last
/// dot of it is its extension, but for a dot in front.
pub proof fn law_file_name(
    base: &str,
    part: &str,
    path: String,
    p: &str,
    name: Option<String>,
    ext: Option<String>,
    stem: Seq<char>,
    end: Seq<char>,
)
    requires
        part@.len() > 0,
        !part@.contains('/'),
        part@ != "."@,
        part@ != ".."@,
        call_ensures(join_path, (base, part), path),
        p@ == path@,
        call_ensures(file_name, (p,), name),
        call_ensures(extension, (p,), ext),
    ensures
        name matches Some(n) && n@ == part@,
        !part@.contains('.') ==> ext is None,
        part@ == stem + seq!['.'] + end && !end.contains('.') ==> (ext is Some <==> stem.len() > 0),
        part@ == stem + seq!['.'] + end && !end.contains('.') && stem.len() > 0 ==> ext->0@ == end,
{
    lemma_last_component(base@, part@);
    if !part@.contains('.') {
        lemma_last_at(part@, '.', -1);
    }
    if part@ == stem + seq!['.'] + end && !end.contains('.') {
        assert forall|j: int| stem.len() < j < part@.len() implies part@[j] != '.' by {
            assert(part@[j] == end[j - stem.len() - 1]);
            assert(end.contains(end[j - stem.len() - 1]));
        }
        assert(part@[stem.len() as int] == '.');
        lemma_last_at(part@, '.', stem.len() as int);
        assert(part@.skip(stem.len() as int + 1) =~= end);
    }
}

proof fn lemma_last_at(s: Seq<char>, c: char, i: int)
    requires
        -1 <= i < s.len(),
        forall|j: int| i < j < s.len() ==> s[j] != c,
        i >= 0 ==> s[i] == c,
    ensures
        last_at(s, c) == if i >= 0 {
            Some(i)
        } else {
            None
        },
    decreases s.len(),
{
    if s.len() > 0 && i < s.len() - 1 {
        assert(s[s.len() - 1] != c);
        lemma_last_at(s.drop_last(), c, i);
    }
}

proof fn lemma_last_component(base: Seq<char>, part: Seq<char>)
    requires
        part.len() > 0,
        !part.contains('/'),
        part != "."@,
        part != ".."@,
    ensures
        crate::path::last_component(crate::path::below(base, part)) == Some(part),
{
    reveal_strlit("/");
    let sep = is_char('/');
    let keep = |c: Seq<char>| c.len() > 0 && c != "."@;
    let path = crate::path::below(base, part);
    assert(part[0] != '/') by {
        assert(part.contains(part[0]));
    }
    assert forall|i: int| 0 <= i < part.len() implies !sep(#[trigger] part[i]) by {
        assert(part.contains(part[i]));
    }
    lemma_pieces_whole(part, sep);
    reveal(Seq::filter);
    assert(seq![part].drop_last() =~= Seq::empty());
    assert(seq![part].filter(keep) =~= seq![part]);
    if base.len() == 0 {
        assert(path =~= part);
        assert(components(path) =~= seq![part]);
    } else {
        let b = if base.last() == '/' {
            base.drop_last()
        } else {
            base
        };
        assert(path =~= b + seq!['/'] + part);
        lemma_pieces_concat(b, '/', part, sep);
        Seq::filter_distributes_over_add(pieces(b, sep), seq![part], keep);
        assert(components(path).last() == part);
    }
}

// ---------------------------------------------------------------------
// Numbers
// ---------------------------------------------------------------------

/// A number is written in digits alone, and read back where it is small enough; a
/// plus in front changes nothing.
pub proof fn law_numbers(
    n: u64,
    max: u64,
    written: String,
    s: &str,
    plus: &str,
    r: Option<u64>,
    with_plus: Option<u64>,
    i: int,
)
    requires
        call_ensures(decimal, (n,), written),
        s@ == written@,
        plus@ == seq!['+'] + written@,
        call_ensures(parse_unsigned, (s, max), r),
        call_ensures(parse_unsigned, (plus, max), with_plus),
    ensures
        s@.len() > 0,
        0 <= i < s@.len() ==> '0' <= s@[i] <= '9',
        r == if n <= max {
            Some(n)
        } else {
            None
        },
        with_plus == r,
{
    lemma_decimal_value(n as nat);
    assert(is_digit(s@[0]));
    assert(plus@.skip(1) =~= s@);
}

/// A number of one digit more is ten times the number, and the digit.
pub proof fn law_digits(n: u64, d: u64, more: u64, a: String, b: String)
    requires
        d < 10,
        n > 0,
        more == n * 10 + d,
        call_ensures(decimal, (n,), a),
        call_ensures(decimal, (more,), b),
    ensures
        b@.len() == a@.len() + 1,
        b@.drop_last() == a@,
        b@.last() == "0123456789"@[d as int],
{
    reveal_strlit("0123456789");
    assert(more as nat / 10 == n as nat);
    assert(more as nat % 10 == d as nat);
    assert(b@ == decimal_of(n as nat).push(crate::number::digit(d as nat)));
    assert(b@.drop_last() =~= a@);
    assert(d == 0 || d == 1 || d == 2 || d == 3 || d == 4 || d == 5 || d == 6 || d == 7 || d == 8
        || d == 9);
    assert(48u8 as char == '0' && 57u8 as char == '9');
}

/// What holds anything but digits is no number.
pub proof fn law_no_number(s: &str, max: u64, r: Option<u64>, i: int)
    requires
        0 < i < s@.len(),
        !('0' <= s@[i] <= '9'),
        call_ensures(parse_unsigned, (s, max), r),
    ensures
        r is None,
{
    let t = if s@[0] == '+' {
        s@.skip(1)
    } else {
        s@
    };
    let k: int = if s@[0] == '+' {
        i - 1
    } else {
        i
    };
    assert(t[k] == s@[i]);
    lemma_not_number(t, k);
}

proof fn lemma_not_number(t: Seq<char>, k: int)
    requires
        0 <= k < t.len(),
        !is_digit(t[k]),
    ensures
        crate::number::digits_value(t) is None,
    decreases t.len(),
{
    if k < t.len() - 1 && t.len() > 1 {
        assert(t.drop_last()[k] == t[k]);
        lemma_not_number(t.drop_last(), k);
    }
}

// ---------------------------------------------------------------------
// Order
// ---------------------------------------------------------------------

/// Texts are ordered by the first character in which they differ, and a text comes
/// before any that goes on behind it.
pub proof fn law_order(
    common: Seq<char>,
    x: char,
    y: char,
    a: Seq<char>,
    b: Seq<char>,
    s: &str,
    t: &str,
    st: bool,
    ts: bool,
)
    requires
        s@ == common + (if x < y {
            seq![x] + a
        } else {
            Seq::empty()
        }),
        t@ == common + seq![y] + b,
        call_ensures(text_at_most, (s, t), st),
        call_ensures(text_at_most, (t, s), ts),
    ensures
        st,
        !ts,
{
    assert(s@.take(common.len() as int) =~= common);
    assert(t@.take(common.len() as int) =~= common);
    lemma_order(common, s@, t@);
}

proof fn lemma_order(common: Seq<char>, s: Seq<char>, t: Seq<char>)
    requires
        begins(s, common),
        begins(t, common),
        t.len() > common.len(),
        s.len() > common.len() ==> s[common.len() as int] < t[common.len() as int],
    ensures
        at_most(s, t),
        !at_most(t, s),
    decreases common.len(),
{
    if common.len() > 0 {
        assert(s[0] == s.take(common.len() as int)[0]);
        assert(t[0] == t.take(common.len() as int)[0]);
        let c = common.skip(1);
        assert(s.skip(1).take(c.len() as int) =~= s.take(common.len() as int).skip(1));
        assert(t.skip(1).take(c.len() as int) =~= t.take(common.len() as int).skip(1));
        lemma_order(c, s.skip(1), t.skip(1));
    }
}

// ---------------------------------------------------------------------
// Columns
// ---------------------------------------------------------------------

/// A text is filled up with blanks to its width, and one that is wider is kept.
pub proof fn law_pad(s: &str, width: usize, r: String, name: &str, column: String, i: int)
    requires
        call_ensures(pad, (s, width), r),
        call_ensures(server_column, (name,), column),
    ensures
        begins(r@, s@),
        s@.len() >= width ==> r@ == s@,
        s@.len() < width ==> r@.len() == width,
        s@.len() <= i < r@.len() ==> r@[i] == ' ',
        begins(column@, "  "@ + name@),
        name@.len() <= 20 ==> column@.len() == 23,
        column@.last() == ' ',
{
    reveal_strlit("  ");
    reveal_strlit(" ");
    assert(r@.take(s@.len() as int) =~= s@);
    assert(column@.take(("  "@ + name@).len() as int) =~= "  "@ + name@);
}

/// A log is followed where that is asked for, and is the last argument either way.
/// Sessions on a server are neither sent text nor read. Without a target there is
/// nothing to connect to.
pub proof fn law_sessions_here(
    log: &str,
    follow: bool,
    args: Vec<String>,
    server: &ActiveServer,
    send: Result<(), CliError>,
    read: Result<(), CliError>,
    target: Option<String>,
    connected: Result<String, CliError>,
)
    requires
        call_ensures(tail_args, (log, follow), args),
        call_ensures(may_send, (server,), send),
        call_ensures(may_read_log, (server,), read),
        call_ensures(connect_remote, (target,), connected),
    ensures
        follow ==> views(args@) == seq!["-f"@, log@],
        !follow ==> views(args@) == seq![log@],
        send is Ok <==> server is Localhost,
        read is Ok <==> server is Localhost,
        send matches Err(e) ==> e is RemoteSend,
        read matches Err(e) ==> e is RemoteLog,
        connected is Ok <==> target is Some,
        connected matches Ok(t) ==> t@ == target->0@,
        connected matches Err(e) ==> e is NoTarget,
{
}

} // verus!
