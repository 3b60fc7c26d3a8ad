use vstd::prelude::*;
use vstd::utf8::is_ascii_chars;

use crate::text::{
    chars_of, contains, holds, is_char, join, joined, lemma_lines_clean, lemma_lines_joined,
    lemma_nonempty_push, lemma_pieces_avoid, lemma_pieces_clean, lemma_pieces_joined, lemma_views_push, lines, lines_of,
    nonempty, occurs_at, pieces, views, without_cr,
};

verus! {

/// The file that says which address a host name has.
pub const DNS_HOSTS: &'static str = "/var/lib/vitro/dns-hosts";

// ---------------------------------------------------------------------
// Labels
// ---------------------------------------------------------------------

/// A text in lower case, as `str::to_lowercase` writes it.
pub uninterp spec fn lowercase(s: Seq<char>) -> Seq<char>;

/// The lower case of an ASCII character.
pub open spec fn ascii_lower(c: char) -> char {
    if 'A' <= c <= 'Z' {
        (c as int + 32) as char
    } else {
        c
    }
}

/// No letter from A to Z stands in a text.
pub open spec fn no_capitals(s: Seq<char>) -> bool {
    forall|i: int| 0 <= i < s.len() ==> !('A' <= #[trigger] s[i] <= 'Z')
}

/// `str::to_lowercase`: a text in lower case, in which no letter from A to Z is
/// left. In ASCII text the capitals become small letters, and all other
/// characters stay.
#[verifier::external_body]
fn lower(s: &str) -> (r: String)
    ensures
        r@ == lowercase(s@),
        is_ascii_chars(s@) ==> r@ == s@.map_values(|c: char| ascii_lower(c)),
        no_capitals(r@),
{
    s.to_lowercase()
}

pub open spec fn is_alnum(c: char) -> bool {
    '0' <= c <= '9' || 'a' <= c <= 'z' || 'A' <= c <= 'Z'
}

fn alnum(c: char) -> (r: bool)
    ensures
        r == is_alnum(c),
{
    ('0' <= c && c <= '9') || ('a' <= c && c <= 'z') || ('A' <= c && c <= 'Z')
}

pub open spec fn not_alnum() -> spec_fn(char) -> bool {
    |c: char| !is_alnum(c)
}

/// The runs of letters and digits in a text.
pub open spec fn runs(s: Seq<char>) -> Seq<Seq<char>> {
    nonempty(pieces(s, not_alnum()))
}

/// A text as a DNS label: its runs of letters and digits, with one hyphen
/// between them.
pub open spec fn label(s: Seq<char>) -> Seq<char> {
    joined(runs(s), "-"@)
}

/// A text, in lower case, as a DNS label.
pub fn sanitize_lowered(s: &str) -> (r: String)
    ensures
        r@ == label(s@),
{
    let v = chars_of(s);
    let n: usize = v.len();
    let mut out: Vec<String> = Vec::new();
    let mut cur = String::new();
    let ghost mut front: Seq<Seq<char>> = Seq::empty();
    proof {
        assert(v@.take(0) =~= Seq::<char>::empty());
        assert(front.push(cur@) =~= seq![Seq::<char>::empty()]);
        reveal(Seq::filter);
        assert(views(out@) =~= nonempty(front));
    }
    for i in 0..n
        invariant
            n == v@.len(),
            front.push(cur@) == pieces(v@.take(i as int), not_alnum()),
            views(out@) == nonempty(front),
    {
        proof {
            assert(v@.take(i + 1).drop_last() =~= v@.take(i as int));
            assert(front.push(cur@).drop_last() =~= front);
            lemma_nonempty_push(front, cur@);
            lemma_views_push(out@, cur);
        }
        if alnum(v[i]) {
            cur.push(v[i]);
        } else {
            proof {
                front = front.push(cur@);
            }
            if !cur.as_str().is_empty() {
                out.push(cur);
            }
            cur = String::new();
        }
    }
    proof {
        assert(v@.take(n as int) =~= v@);
        lemma_nonempty_push(front, cur@);
        lemma_views_push(out@, cur);
    }
    if !cur.as_str().is_empty() {
        out.push(cur);
    }
    join(&out, "-")
}

/// `r` is what a text comes to as a DNS label: the label of its lower case, without
/// capitals.
pub open spec fn sanitized(s: Seq<char>, r: Seq<char>) -> bool {
    &&& r == label(lowercase(s))
    &&& is_ascii_chars(s) ==> r == label(s.map_values(|c: char| ascii_lower(c)))
    &&& no_capitals(r)
}

/// A text as a DNS label: in lower case, with one hyphen for each run of other
/// characters than letters and digits, and none at either end.
pub fn sanitize_dns(s: &str) -> (r: String)
    ensures
        sanitized(s@, r@),
{
    let l = lower(s);
    proof {
        lemma_label_small(l@);
    }
    sanitize_lowered(l.as_str())
}

/// The host name of an env.
pub open spec fn hostname(env_name: Seq<char>, repo: Seq<char>) -> Seq<char> {
    label(lowercase(env_name)) + "."@ + label(lowercase(repo)) + ".env"@
}

/// The host name of an env.
pub fn dns_hostname(env_name: &str, repo: &str) -> (r: String)
    ensures
        r@ == hostname(env_name@, repo@),
        is_ascii_chars(env_name@) && is_ascii_chars(repo@) ==> r@ == label(
            env_name@.map_values(|c: char| ascii_lower(c)),
        ) + "."@ + label(repo@.map_values(|c: char| ascii_lower(c))) + ".env"@,
{
    let mut s = sanitize_dns(env_name);
    s.append(".");
    s.append(sanitize_dns(repo).as_str());
    s.append(".env");
    s
}

proof fn lemma_nonempty_all(ss: Seq<Seq<char>>, sep: spec_fn(char) -> bool)
    requires
        forall|i: int, k: int|
            0 <= i < ss.len() && 0 <= k < ss[i].len() ==> !sep(#[trigger] ss[i][k]),
    ensures
        forall|i: int, k: int|
            0 <= i < nonempty(ss).len() && 0 <= k < nonempty(ss)[i].len() ==> !sep(
                #[trigger] nonempty(ss)[i][k],
            ),
        forall|i: int| 0 <= i < nonempty(ss).len() ==> (#[trigger] nonempty(ss)[i]).len() > 0,
    decreases ss.len(),
{
    reveal(Seq::filter);
    if ss.len() > 0 {
        let d = ss.drop_last();
        assert forall|i: int, k: int| 0 <= i < d.len() && 0 <= k < d[i].len() implies !sep(
            #[trigger] d[i][k],
        ) by {
            assert(!sep(ss[i][k]));
        }
        lemma_nonempty_all(d, sep);
        let n = nonempty(ss);
        let nd = nonempty(d);
        assert(n == if ss.last().len() > 0 {
            nd.push(ss.last())
        } else {
            nd
        });
        assert forall|i: int, k: int| 0 <= i < n.len() && 0 <= k < n[i].len() implies !sep(
            #[trigger] n[i][k],
        ) by {
            if i < nd.len() {
                assert(!sep(nd[i][k]));
            } else {
                assert(!sep(ss[ss.len() - 1][k]));
            }
        }
        assert forall|i: int| 0 <= i < n.len() implies (#[trigger] n[i]).len() > 0 by {
            if i < nd.len() {
                assert(nd[i].len() > 0);
            }
        }
    }
}

proof fn lemma_runs(s: Seq<char>)
    ensures
        forall|i: int, k: int|
            0 <= i < runs(s).len() && 0 <= k < runs(s)[i].len() ==> is_alnum(
                #[trigger] runs(s)[i][k],
            ),
        forall|i: int| 0 <= i < runs(s).len() ==> (#[trigger] runs(s)[i]).len() > 0,
{
    let sep = not_alnum();
    lemma_pieces_clean(s, sep);
    lemma_nonempty_all(pieces(s, sep), sep);
    assert forall|i: int, k: int| 0 <= i < runs(s).len() && 0 <= k < runs(s)[i].len() implies is_alnum(
        #[trigger] runs(s)[i][k],
    ) by {
        assert(!sep(nonempty(pieces(s, sep))[i][k]));
    }
}

proof fn lemma_nonempty_is_all(ss: Seq<Seq<char>>)
    requires
        forall|i: int| 0 <= i < ss.len() ==> (#[trigger] ss[i]).len() > 0,
    ensures
        nonempty(ss) == ss,
    decreases ss.len(),
{
    reveal(Seq::filter);
    if ss.len() > 0 {
        let d = ss.drop_last();
        assert forall|i: int| 0 <= i < d.len() implies (#[trigger] d[i]).len() > 0 by {
            assert(d[i] == ss[i]);
        }
        lemma_nonempty_is_all(d);
        assert(d.push(ss.last()) =~= ss);
        assert(ss[ss.len() - 1].len() > 0);
    }
}

/// A label is its own label.
pub proof fn law_label_again(s: Seq<char>)
    ensures
        label(label(s)) == label(s),
{
    reveal_strlit("-");
    let rs = runs(s);
    let sep = not_alnum();
    assert("-"@ =~= seq!['-']);
    lemma_runs(s);
    if rs.len() == 0 {
        let e = Seq::<char>::empty();
        assert(label(s) =~= e);
        assert(pieces(e, sep) =~= seq![e]);
        reveal(Seq::filter);
        let none = Seq::<Seq<char>>::empty();
        lemma_nonempty_push(none, e);
        assert(none.push(e) =~= seq![e]);
        assert(nonempty(none) =~= none);
        assert(runs(e) =~= none);
    } else {
        assert forall|i: int, k: int| 0 <= i < rs.len() && 0 <= k < rs[i].len() implies !sep(
            #[trigger] rs[i][k],
        ) by {
            assert(is_alnum(rs[i][k]));
        }
        lemma_pieces_joined(rs, '-', sep);
        lemma_nonempty_is_all(rs);
    }
}

/// A hyphen of a label stands between two letters or digits.
pub open spec fn well_hyphened(l: Seq<char>) -> bool {
    &&& forall|i: int| 0 <= i < l.len() ==> is_alnum(#[trigger] l[i]) || l[i] == '-'
    &&& l.len() > 0 ==> is_alnum(l[0]) && is_alnum(l.last())
    &&& forall|i: int| 0 < i < l.len() && #[trigger] l[i] == '-' ==> is_alnum(l[i - 1])
}

proof fn lemma_hyphen_between(a: Seq<char>, b: Seq<char>)
    requires
        well_hyphened(a),
        a.len() > 0,
        b.len() > 0,
        forall|i: int| 0 <= i < b.len() ==> is_alnum(#[trigger] b[i]),
    ensures
        well_hyphened(a + seq!['-'] + b),
{
    let j = a + seq!['-'] + b;
    let n = a.len() as int;
    assert forall|i: int| 0 <= i < j.len() implies is_alnum(#[trigger] j[i]) || j[i] == '-' by {
        if i < n {
            assert(j[i] == a[i]);
        } else if i > n {
            assert(j[i] == b[i - n - 1]);
        }
    }
    assert forall|i: int| 0 < i < j.len() && #[trigger] j[i] == '-' implies is_alnum(j[i - 1]) by {
        if i < n {
            assert(j[i] == a[i]);
            assert(j[i - 1] == a[i - 1]);
        } else if i == n {
            assert(j[i - 1] == a.last());
        } else {
            assert(j[i] == b[i - n - 1]);
        }
    }
    assert(j[0] == a[0]);
    assert(j.last() == b[b.len() - 1]);
}

proof fn lemma_joined_hyphens(ss: Seq<Seq<char>>)
    requires
        forall|i: int, k: int|
            0 <= i < ss.len() && 0 <= k < ss[i].len() ==> is_alnum(#[trigger] ss[i][k]),
        forall|i: int| 0 <= i < ss.len() ==> (#[trigger] ss[i]).len() > 0,
    ensures
        well_hyphened(joined(ss, seq!['-'])),
        ss.len() > 0 ==> joined(ss, seq!['-']).len() > 0,
    decreases ss.len(),
{
    let j = joined(ss, seq!['-']);
    if ss.len() > 0 {
        let l = ss.last();
        assert(ss[ss.len() - 1].len() > 0);
        assert forall|i: int| 0 <= i < l.len() implies is_alnum(#[trigger] l[i]) by {
            assert(is_alnum(ss[ss.len() - 1][i]));
        }
        if ss.len() > 1 {
            let d = ss.drop_last();
            assert forall|i: int, k: int| 0 <= i < d.len() && 0 <= k < d[i].len() implies is_alnum(
                #[trigger] d[i][k],
            ) by {
                assert(is_alnum(ss[i][k]));
            }
            assert forall|i: int| 0 <= i < d.len() implies (#[trigger] d[i]).len() > 0 by {
                assert(d[i] == ss[i]);
            }
            lemma_joined_hyphens(d);
            lemma_hyphen_between(joined(d, seq!['-']), l);
        }
    }
}

/// A label holds letters, digits and hyphens; no hyphen stands at an end, and no
/// two stand side by side.
pub proof fn law_label_is_well_hyphened(s: Seq<char>)
    ensures
        well_hyphened(label(s)),
{
    reveal_strlit("-");
    assert("-"@ =~= seq!['-']);
    lemma_runs(s);
    lemma_joined_hyphens(runs(s));
}

proof fn lemma_joined_all(ss: Seq<Seq<char>>, avoid: spec_fn(char) -> bool)
    requires
        forall|i: int, k: int|
            0 <= i < ss.len() && 0 <= k < ss[i].len() ==> !avoid(#[trigger] ss[i][k]),
        !avoid('-'),
    ensures
        forall|k: int|
            0 <= k < joined(ss, seq!['-']).len() ==> !avoid(#[trigger] joined(ss, seq!['-'])[k]),
    decreases ss.len(),
{
    let j = joined(ss, seq!['-']);
    if ss.len() > 0 {
        let d = ss.drop_last();
        assert forall|i: int, k: int| 0 <= i < d.len() && 0 <= k < d[i].len() implies !avoid(
            #[trigger] d[i][k],
        ) by {
            assert(!avoid(ss[i][k]));
        }
        lemma_joined_all(d, avoid);
        let jd = joined(d, seq!['-']);
        assert forall|k: int| 0 <= k < j.len() implies !avoid(#[trigger] j[k]) by {
            if ss.len() == 1 {
                assert(j[k] == ss[0][k]);
            } else if k < jd.len() {
                assert(j[k] == jd[k]);
            } else if k > jd.len() {
                assert(j[k] == ss[ss.len() - 1][k - jd.len() - 1]);
            }
        }
    }
}

/// The label of a text without capitals has none.
proof fn lemma_label_small(s: Seq<char>)
    requires
        no_capitals(s),
    ensures
        no_capitals(label(s)),
{
    reveal_strlit("-");
    assert("-"@ =~= seq!['-']);
    let avoid = |c: char| 'A' <= c <= 'Z';
    let sep = not_alnum();
    lemma_pieces_avoid(s, sep, avoid);
    lemma_nonempty_all(pieces(s, sep), avoid);
    lemma_joined_all(runs(s), avoid);
    assert forall|i: int| 0 <= i < label(s).len() implies !('A' <= #[trigger] label(s)[i]
        <= 'Z') by {
        assert(!avoid(label(s)[i]));
    }
}

/// A DNS label is its own DNS label: `r` is what a first call gives for `s`, and
/// `again` what a second call gives for `r`.
pub proof fn law_sanitized_again(s: Seq<char>, r: Seq<char>, again: Seq<char>)
    requires
        sanitized(s, r),
        sanitized(r, again),
    ensures
        again == r,
        label(lowercase(label(lowercase(s)))) == label(lowercase(s)),
{
    law_label_is_well_hyphened(lowercase(s));
    law_label_again(lowercase(s));
    assert(is_ascii_chars(r)) by {
        assert forall|i: int| 0 <= i < r.len() implies '\0' <= #[trigger] r[i] <= '\u{7f}' by {
            assert(is_alnum(r[i]) || r[i] == '-');
        }
    }
    assert(r.map_values(|c: char| ascii_lower(c)) =~= r);
}

// ---------------------------------------------------------------------
// The hosts file
// ---------------------------------------------------------------------

/// The line for an env.
pub open spec fn dns_entry(ip: Seq<char>, host: Seq<char>) -> Seq<char> {
    ip + " "@ + host
}

/// The hosts with an entry more, unless they hold it.
pub open spec fn with_entry(hosts: Seq<char>, entry: Seq<char>) -> Seq<char> {
    if holds(hosts, entry) {
        hosts
    } else {
        hosts + entry + "\n"@
    }
}

/// The lines that do not hold a host name.
pub open spec fn lines_without(hosts: Seq<char>, host: Seq<char>) -> Seq<Seq<char>> {
    lines_of(hosts).filter(|l: Seq<char>| !holds(l, host))
}

/// The hosts without the lines that hold a host name.
pub open spec fn without_host(hosts: Seq<char>, host: Seq<char>) -> Seq<char> {
    let j = joined(lines_without(hosts, host), "\n"@);
    if j.len() == 0 {
        j
    } else {
        j + "\n"@
    }
}

/// The hosts to write so that an env is found at `ip`; nothing, where they need
/// no change.
pub fn register_dns(host: &str, ip: &str, hosts: &str) -> (r: Option<String>)
    ensures
        match r {
            Some(updated) => updated@ == with_entry(hosts@, dns_entry(ip@, host@)) && !holds(
                hosts@,
                dns_entry(ip@, host@),
            ),
            None => holds(hosts@, dns_entry(ip@, host@)),
        },
{
    let mut entry = ip.to_string();
    entry.append(" ");
    entry.append(host);
    if contains(hosts, entry.as_str()) {
        None
    } else {
        let mut s = hosts.to_string();
        s.append(entry.as_str());
        s.append("\n");
        Some(s)
    }
}

/// The hosts to write so that a host name is not found any more.
pub fn deregister_dns(host: &str, hosts: &str) -> (r: String)
    ensures
        r@ == without_host(hosts@, host@),
{
    let ls = lines(hosts);
    let ghost all = lines_of(hosts@);
    let ghost keep = |l: Seq<char>| !holds(l, host@);
    let mut kept: Vec<String> = Vec::new();
    proof {
        reveal(Seq::filter);
        assert(all.take(0) =~= Seq::empty());
        assert(views(kept@) =~= all.take(0).filter(keep));
    }
    for i in 0..ls.len()
        invariant
            all == views(ls@),
            keep == (|l: Seq<char>| !holds(l, host@)),
            views(kept@) == all.take(i as int).filter(keep),
    {
        proof {
            reveal(Seq::filter);
            assert(all[i as int] == ls@[i as int]@);
            assert(all.take(i + 1).drop_last() =~= all.take(i as int));
        }
        if !contains(ls[i].as_str(), host) {
            let l = ls[i].clone();
            proof {
                lemma_views_push(kept@, l);
            }
            kept.push(l);
        }
    }
    proof {
        assert(all.take(ls@.len() as int) =~= all);
    }
    let mut s = join(&kept, "\n");
    if !s.as_str().is_empty() {
        s.append("\n");
    }
    s
}

/// An entry that was put in stays as it is when it is put in again.
pub proof fn law_register_once(hosts: Seq<char>, entry: Seq<char>)
    ensures
        holds(with_entry(hosts, entry), entry),
        with_entry(with_entry(hosts, entry), entry) == with_entry(hosts, entry),
{
    let w = with_entry(hosts, entry);
    if !holds(hosts, entry) {
        let n = hosts.len() as int;
        assert(w.subrange(n, n + entry.len()) =~= entry);
        assert(occurs_at(w, entry, n));
    }
}

/// What a filter keeps, and that it keeps all of it.
pub proof fn lemma_filter_keeps(ss: Seq<Seq<char>>, keep: spec_fn(Seq<char>) -> bool)
    ensures
        forall|i: int|
            0 <= i < ss.filter(keep).len() ==> keep(#[trigger] ss.filter(keep)[i]) && ss.contains(
                ss.filter(keep)[i],
            ),
        forall|l: Seq<char>|
            ss.contains(l) && keep(l) ==> #[trigger] ss.filter(keep).contains(l),
    decreases ss.len(),
{
    reveal(Seq::filter);
    if ss.len() > 0 {
        let d = ss.drop_last();
        lemma_filter_keeps(d, keep);
        let fd = d.filter(keep);
        let f = ss.filter(keep);
        assert(f == if keep(ss.last()) {
            fd.push(ss.last())
        } else {
            fd
        });
        assert forall|i: int| 0 <= i < f.len() implies keep(#[trigger] f[i]) && ss.contains(
            f[i],
        ) by {
            if i < fd.len() {
                assert(keep(fd[i]) && d.contains(fd[i]));
                let k = d.index_of(fd[i]);
                assert(ss[k] == fd[i]);
            } else {
                assert(ss[ss.len() - 1] == f[i]);
            }
        }
        assert forall|l: Seq<char>| ss.contains(l) && keep(l) implies #[trigger] f.contains(l) by {
            let k = ss.index_of(l);
            if k < d.len() {
                assert(d[k] == l);
                assert(fd.contains(l));
                let m = fd.index_of(l);
                assert(f[m] == l);
            } else {
                assert(f[f.len() - 1] == l);
            }
        }
    }
}

proof fn lemma_without_host(hosts: Seq<char>, host: Seq<char>)
    ensures
        lines_of(without_host(hosts, host)) == if joined(
            lines_without(hosts, host),
            "\n"@,
        ).len() == 0 {
            Seq::<Seq<char>>::empty()
        } else {
            lines_without(hosts, host).map_values(|l: Seq<char>| without_cr(l))
        },
        forall|i: int|
            0 <= i < lines_without(hosts, host).len() ==> !holds(
                #[trigger] lines_without(hosts, host)[i],
                host,
            ),
        forall|l: Seq<char>|
            lines_of(hosts).contains(l) && !holds(l, host) ==> #[trigger] lines_without(
                hosts,
                host,
            ).contains(l),
{
    reveal_strlit("\n");
    assert("\n"@ =~= seq!['\n']);
    let keep = |l: Seq<char>| !holds(l, host);
    let all = lines_of(hosts);
    let kept = lines_without(hosts, host);
    lemma_filter_keeps(all, keep);
    lemma_lines_clean(hosts);
    assert forall|i: int, k: int| 0 <= i < kept.len() && 0 <= k < kept[i].len() implies #[trigger]
        kept[i][k] != '\n' by {
        assert(all.contains(kept[i]));
        let m = all.index_of(kept[i]);
        assert(all[m][k] != '\n');
    }
    assert forall|i: int| 0 <= i < kept.len() implies !holds(#[trigger] kept[i], host) by {
        assert(keep(kept[i]));
    }
    assert forall|l: Seq<char>| all.contains(l) && !holds(l, host) implies #[trigger] kept.contains(
        l,
    ) by {
        assert(keep(l));
    }
    if joined(kept, "\n"@).len() == 0 {
        let e = Seq::<char>::empty();
        assert(without_host(hosts, host) =~= e);
        assert(pieces(e, is_char('\n')) =~= seq![e]);
        assert(lines_of(e) =~= Seq::<Seq<char>>::empty());
    } else {
        lemma_lines_joined(kept);
    }
}

/// After a host name was taken out, no line holds it.
pub proof fn law_deregistered_host_is_gone(hosts: Seq<char>, host: Seq<char>, i: int)
    requires
        0 <= i < lines_of(without_host(hosts, host)).len(),
    ensures
        !holds(lines_of(without_host(hosts, host))[i], host),
{
    lemma_without_host(hosts, host);
    let kept = lines_without(hosts, host);
    let l = lines_of(without_host(hosts, host))[i];
    assert(l == without_cr(kept[i]));
    if holds(l, host) {
        let k = choose|k: int| occurs_at(l, host, k);
        assert(kept[i].subrange(k, k + host.len()) =~= l.subrange(k, k + host.len()));
        assert(occurs_at(kept[i], host, k));
    }
}

proof fn lemma_joined_long(ss: Seq<Seq<char>>, sep: Seq<char>, i: int)
    requires
        0 <= i < ss.len(),
    ensures
        joined(ss, sep).len() >= ss[i].len(),
    decreases ss.len(),
{
    if ss.len() > 1 && i < ss.len() - 1 {
        lemma_joined_long(ss.drop_last(), sep, i);
    }
}

/// Taking a host name out leaves every line that does not hold it, but for a blank
/// one that would be left alone. Carriage returns at the end of a line do not
/// count.
pub proof fn law_deregister_keeps_others(hosts: Seq<char>, host: Seq<char>, line: Seq<char>)
    requires
        lines_of(hosts).contains(line),
        !holds(line, host),
        line.len() > 0 ==> line.last() != '\r',
        line.len() > 0 || lines_without(hosts, host).len() > 1,
    ensures
        lines_of(without_host(hosts, host)).contains(line),
{
    reveal_strlit("\n");
    lemma_without_host(hosts, host);
    let kept = lines_without(hosts, host);
    assert(kept.contains(line));
    let i = kept.index_of(line);
    lemma_joined_long(kept, "\n"@, i);
    let f = |l: Seq<char>| without_cr(l);
    assert(kept.map_values(f)[i] == without_cr(line));
}

} // verus!
