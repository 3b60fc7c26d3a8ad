use vstd::prelude::*;

use crate::text::{chars_of, is_char, opt_text, pieces, same, split, text_of, views};

verus! {

/// `part` put behind `base` as a path: an absolute part stands alone, any
/// other one follows `base` behind a single slash.
pub open spec fn below(base: Seq<char>, part: Seq<char>) -> Seq<char> {
    if part.len() > 0 && part[0] == '/' {
        part
    } else if base.len() == 0 || base.last() == '/' {
        base + part
    } else {
        base + "/"@ + part
    }
}

/// Put `part` behind `base` as a path.
pub fn join_path(base: &str, part: &str) -> (r: String)
    ensures
        r@ == below(base@, part@),
{
    let b = chars_of(base);
    let p = chars_of(part);
    if p.len() > 0 && p[0] == '/' {
        part.to_string()
    } else {
        let mut r = base.to_string();
        if !(b.len() == 0 || b[b.len() - 1] == '/') {
            r.append("/");
        }
        r.append(part);
        r
    }
}

/// The components of a path that name something: no empty ones, no `.`.
pub open spec fn components(path: Seq<char>) -> Seq<Seq<char>> {
    pieces(path, is_char('/')).filter(|c: Seq<char>| c.len() > 0 && c != "."@)
}

/// The last component of a path, unless the path has none or ends in `..`.
pub open spec fn last_component(path: Seq<char>) -> Option<Seq<char>> {
    let c = components(path);
    if c.len() == 0 || c.last() == ".."@ {
        None
    } else {
        Some(c.last())
    }
}

/// The last component of a path, unless the path has none or ends in `..`.
pub fn file_name(path: &str) -> (r: Option<String>)
    ensures
        match last_component(path@) {
            Some(n) => r matches Some(s) && s@ == n,
            None => r is None,
        },
{
    let all = split(path, '/');
    let ghost keep = |c: Seq<char>| c.len() > 0 && c != "."@;
    let ghost pp = pieces(path@, is_char('/'));
    let mut last: Option<String> = None;
    proof {
        reveal(Seq::filter);
        assert(pp.take(0).filter(keep) =~= Seq::empty());
    }
    for i in 0..all.len()
        invariant
            views(all@) == pp,
            keep == (|c: Seq<char>| c.len() > 0 && c != "."@),
            match last {
                Some(s) => pp.take(i as int).filter(keep).len() > 0 && s@ == pp.take(
                    i as int,
                ).filter(keep).last(),
                None => pp.take(i as int).filter(keep).len() == 0,
            },
    {
        proof {
            reveal(Seq::filter);
            assert(pp.take(i + 1).drop_last() =~= pp.take(i as int));
            assert(pp.take(i + 1).last() == all@[i as int]@);
        }
        if !all[i].as_str().is_empty() && !same(all[i].as_str(), ".") {
            last = Some(all[i].clone());
        }
    }
    proof {
        assert(pp.take(all@.len() as int) =~= pp);
    }
    match last {
        Some(s) => if same(s.as_str(), "..") {
            None
        } else {
            Some(s)
        },
        None => None,
    }
}

/// The last place that holds a character.
pub open spec fn last_at(s: Seq<char>, c: char) -> Option<int>
    decreases s.len(),
{
    if s.len() == 0 {
        None
    } else if s.last() == c {
        Some(s.len() - 1)
    } else {
        last_at(s.drop_last(), c)
    }
}

/// What follows the last dot in the last component of a path. A dot in front does
/// not count.
pub open spec fn extension_of(path: Seq<char>) -> Option<Seq<char>> {
    match last_component(path) {
        Some(n) => match last_at(n, '.') {
            Some(i) => if i > 0 {
                Some(n.skip(i + 1))
            } else {
                None
            },
            None => None,
        },
        None => None,
    }
}

/// What follows the last dot in the last component of a path.
pub fn extension(path: &str) -> (r: Option<String>)
    ensures
        opt_text(r) == extension_of(path@),
{
    let name = match file_name(path) {
        Some(n) => n,
        None => {
            return None;
        },
    };
    let v = chars_of(name.as_str());
    let n: usize = v.len();
    let mut i: usize = n;
    proof {
        assert(v@.take(n as int) =~= v@);
    }
    while i > 0
        invariant
            i <= n,
            n == v@.len(),
            v@ == name@,
            last_component(path@) == Some(name@),
            last_at(v@, '.') == last_at(v@.take(i as int), '.'),
        decreases i,
    {
        proof {
            assert(v@.take(i as int).drop_last() =~= v@.take(i - 1));
        }
        if v[i - 1] == '.' {
            if i - 1 == 0 {
                return None;
            }
            let e = text_of(&v, i, n);
            proof {
                assert(e@ =~= v@.skip(i as int));
            }
            return Some(e);
        }
        i = i - 1;
    }
    None
}

} // verus!
