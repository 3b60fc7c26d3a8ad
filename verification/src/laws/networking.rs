use vstd::prelude::*;
use vstd::utf8::is_ascii_chars;

use crate::cell::{
    address, allocated, dir_names, free_address, list_cells, load_ip_pool, runtime_candidates,
    runtime_dir, save_ip_pool, DirItem, IpPool,
};
use crate::client::EnvStatus;
use crate::dns::{
    deregister_dns, dns_hostname, is_alnum, label, law_deregister_keeps_others,
    law_deregistered_host_is_gone, not_alnum, register_dns, runs, sanitize_dns,
};
use crate::env::list_envs;
use crate::laws::lemma_views;
use crate::number::{decimal_of, is_digit, lemma_decimal_value};
use crate::path::below;
use crate::text::{
    holds, is_char, joined, lemma_cut_once, lemma_nonempty_push, lemma_pieces_clean,
    lemma_pieces_joined, lemma_pieces_nonempty, lines_of, nonempty, pieces, views,
};
use crate::tunnel::{
    add_loopback, all_ports, cleanup_tunnel_dns, derive_loopback, forwards, hosts_add, hosts_remove,
    law_range_is_inclusive, law_remove_keeps_other_hosts, law_removed_tunnel_is_gone, parse_ports,
    port_range, ports_in, remove_loopback, setup_tunnel_dns, tunnel, tunnel_loopback, tunnel_ports,
    tunnel_target, Tunnel, TunnelError, TunnelErrorView,
};

verus! {

// ---------------------------------------------------------------------
// Addresses
// ---------------------------------------------------------------------

/// A name that has none gets the lowest free address from 11 to 254; one that has
/// an address keeps it; and a name goes without only where all of them are taken.
pub proof fn law_lowest_free_address(pool: Map<Seq<char>, Seq<char>>, name: Seq<char>)
    ensures
        forall|other: Seq<char>|
            #![trigger pool.contains_key(other)]
            other != name ==> allocated(pool, name).contains_key(other) == pool.contains_key(other)
                && (pool.contains_key(other) ==> allocated(pool, name)[other] == pool[other]),
        pool.contains_key(name) ==> allocated(pool, name) == pool,
        !pool.contains_key(name) && allocated(pool, name).contains_key(name) ==> exists|i: nat|
            11 <= i <= 254 && allocated(pool, name)[name] == "192.168.83."@
                + #[trigger] decimal_of(i) && !pool.contains_value("192.168.83."@ + decimal_of(i))
                && forall|j: nat|
                11 <= j < i ==> pool.contains_value("192.168.83."@ + #[trigger] decimal_of(j)),
        !allocated(pool, name).contains_key(name) ==> allocated(pool, name) == pool && forall|
            j: nat,
        |
            11 <= j <= 254 ==> pool.contains_value("192.168.83."@ + #[trigger] decimal_of(j)),
{
    lemma_free(pool, 11);
    match crate::cell::free_from(pool, 11) {
        Some(i) => {
            assert(free_address(pool) == Some("192.168.83."@ + decimal_of(i)));
            assert forall|j: nat| 11 <= j < i implies pool.contains_value(
                "192.168.83."@ + #[trigger] decimal_of(j),
            ) by {
                assert(pool.contains_value(address(j)));
            }
        },
        None => {
            assert forall|j: nat| 11 <= j <= 254 implies pool.contains_value(
                "192.168.83."@ + #[trigger] decimal_of(j),
            ) by {
                assert(pool.contains_value(address(j)));
            }
        },
    }
}

proof fn lemma_free(pool: Map<Seq<char>, Seq<char>>, i: nat)
    ensures
        match crate::cell::free_from(pool, i) {
            Some(k) => i <= k <= 254 && !pool.contains_value(address(k)) && forall|j: nat|
                i <= j < k ==> pool.contains_value(#[trigger] address(j)),
            None => forall|j: nat| i <= j <= 254 ==> pool.contains_value(#[trigger] address(j)),
        },
    decreases 255 - i,
{
    if i <= 254 && pool.contains_value(address(i)) {
        lemma_free(pool, i + 1);
    }
}

/// A pool that was saved is read back; without a file it is empty.
pub proof fn law_pool_is_read_back(
    pool: &IpPool,
    text: String,
    read: &str,
    back: IpPool,
    fresh: IpPool,
)
    requires
        call_ensures(save_ip_pool, (pool,), text),
        read@ == text@,
        call_ensures(load_ip_pool, (Some(read),), back),
        call_ensures(load_ip_pool, (None::<&str>,), fresh),
    ensures
        back@ == pool@,
        fresh@ == Map::<Seq<char>, Seq<char>>::empty(),
{
}

/// The state of an env at run time lies under the session's directory, or under
/// `/tmp`: there, where only that one has an address.
pub proof fn law_runtime_dirs(
    base: Option<&str>,
    name: &str,
    has_ip: bool,
    tmp_has_ip: bool,
    both: (String, String),
    r: String,
)
    requires
        call_ensures(runtime_candidates, (base, name), both),
        call_ensures(runtime_dir, (base, name, has_ip, tmp_has_ip), r),
    ensures
        both.0@ == below(
            below(
                match base {
                    Some(b) => b@,
                    None => "/tmp"@,
                },
                "vitro"@,
            ),
            name@,
        ),
        both.1@ == below(below("/tmp"@, "vitro"@), name@),
        has_ip || !tmp_has_ip ==> r@ == both.0@,
        !has_ip && tmp_has_ip ==> r@ == both.1@,
{
}

/// Every directory is an env, by its name, and nothing else is.
pub proof fn law_envs_are_directories(items: &Vec<DirItem>, r: Vec<String>, cells: Vec<String>, name: Seq<char>)
    requires
        call_ensures(list_envs, (items,), r),
        call_ensures(list_cells, (items,), cells),
    ensures
        views(r@).contains(name) <==> exists|i: int|
            0 <= i < items@.len() && (#[trigger] items@[i]).is_dir && items@[i].name is Some
                && items@[i].name->0@ == name,
        views(cells@).contains(name) <==> views(r@).contains(name),
{
    lemma_dir_names(items@, name);
    broadcast use vstd::seq_lib::group_to_multiset_ensures;

    let names = dir_names(items@);
    assert(views(r@).to_multiset().count(name) == names.to_multiset().count(name));
    assert(views(cells@).to_multiset().count(name) == names.to_multiset().count(name));
}

proof fn lemma_dir_names(items: Seq<DirItem>, name: Seq<char>)
    ensures
        dir_names(items).contains(name) <==> exists|i: int|
            0 <= i < items.len() && (#[trigger] items[i]).is_dir && items[i].name is Some
                && items[i].name->0@ == name,
    decreases items.len(),
{
    if items.len() > 0 {
        let d = items.drop_last();
        let l = items.last();
        lemma_dir_names(d, name);
        let front = dir_names(d);
        let n = items.len() - 1;
        assert(items[n] == l);
        if dir_names(items).contains(name) {
            let k = choose|k: int| 0 <= k < dir_names(items).len() && dir_names(items)[k] == name;
            if k < front.len() {
                assert(front[k] == name);
                assert(front.contains(name));
                let i = choose|i: int|
                    0 <= i < d.len() && (#[trigger] d[i]).is_dir && d[i].name is Some
                        && d[i].name->0@ == name;
                assert(items[i] == d[i]);
            }
        }
        if exists|i: int|
            0 <= i < items.len() && (#[trigger] items[i]).is_dir && items[i].name is Some
                && items[i].name->0@ == name {
            let i = choose|i: int|
                0 <= i < items.len() && (#[trigger] items[i]).is_dir && items[i].name is Some
                    && items[i].name->0@ == name;
            if i < n {
                assert(d[i] == items[i]);
                assert(front.contains(name));
                let k = choose|k: int| 0 <= k < front.len() && front[k] == name;
                assert(dir_names(items)[k] == name);
            } else {
                assert(dir_names(items)[front.len() as int] == name);
            }
        }
    }
}

// ---------------------------------------------------------------------
// Host names
// ---------------------------------------------------------------------

/// Texts one behind the other.
spec fn cat(ss: Seq<Seq<char>>) -> Seq<char>
    decreases ss.len(),
{
    if ss.len() == 0 {
        Seq::empty()
    } else {
        cat(ss.drop_last()) + ss.last()
    }
}

proof fn lemma_cat_pieces(s: Seq<char>)
    ensures
        cat(pieces(s, not_alnum())) == s.filter(|c: char| is_alnum(c)),
    decreases s.len(),
{
    reveal(Seq::filter);
    let sep = not_alnum();
    if s.len() == 0 {
        reveal_with_fuel(cat, 2);
        assert(cat(pieces(s, sep)) =~= Seq::<char>::empty());
    } else {
        let d = s.drop_last();
        let front = pieces(d, sep);
        lemma_cat_pieces(d);
        lemma_pieces_nonempty(d, sep);
        if sep(s.last()) {
            let all = front.push(Seq::<char>::empty());
            assert(all.drop_last() =~= front);
            assert(cat(all) =~= cat(front));
        } else {
            let last = front.last().push(s.last());
            let all = front.drop_last().push(last);
            assert(all.drop_last() =~= front.drop_last());
            assert(cat(all) =~= cat(front).push(s.last()));
        }
    }
}

proof fn lemma_cat_nonempty(ss: Seq<Seq<char>>)
    ensures
        cat(nonempty(ss)) == cat(ss),
    decreases ss.len(),
{
    reveal(Seq::filter);
    if ss.len() > 0 {
        let d = ss.drop_last();
        lemma_cat_nonempty(d);
        lemma_nonempty_push(d, ss.last());
        assert(d.push(ss.last()) =~= ss);
        if ss.last().len() > 0 {
            assert(nonempty(d).push(ss.last()).drop_last() =~= nonempty(d));
        } else {
            assert(cat(d) + ss.last() =~= cat(d));
        }
    }
}

proof fn lemma_filter_concat(a: Seq<char>, b: Seq<char>)
    ensures
        (a + b).filter(|c: char| is_alnum(c)) == a.filter(|c: char| is_alnum(c)) + b.filter(
            |c: char| is_alnum(c),
        ),
    decreases b.len(),
{
    reveal(Seq::filter);
    if b.len() == 0 {
        assert(a + b =~= a);
    } else {
        lemma_filter_concat(a, b.drop_last());
        assert((a + b).drop_last() =~= a + b.drop_last());
    }
}

proof fn lemma_filter_all(s: Seq<char>)
    requires
        forall|k: int| 0 <= k < s.len() ==> is_alnum(#[trigger] s[k]),
    ensures
        s.filter(|c: char| is_alnum(c)) == s,
    decreases s.len(),
{
    reveal(Seq::filter);
    if s.len() > 0 {
        let d = s.drop_last();
        assert forall|k: int| 0 <= k < d.len() implies is_alnum(#[trigger] d[k]) by {
            assert(d[k] == s[k]);
        }
        lemma_filter_all(d);
        assert(is_alnum(s[s.len() - 1]));
        assert(d.push(s.last()) =~= s);
    } else {
        assert(s.filter(|c: char| is_alnum(c)) =~= s);
    }
}

proof fn lemma_joined_letters(ss: Seq<Seq<char>>)
    requires
        forall|i: int, k: int|
            0 <= i < ss.len() && 0 <= k < ss[i].len() ==> is_alnum(#[trigger] ss[i][k]),
    ensures
        joined(ss, "-"@).filter(|c: char| is_alnum(c)) == cat(ss),
    decreases ss.len(),
{
    reveal_strlit("-");
    reveal(Seq::filter);
    if ss.len() == 0 {
    } else {
        let l = ss.last();
        assert forall|k: int| 0 <= k < l.len() implies is_alnum(#[trigger] l[k]) by {
            assert(is_alnum(ss[ss.len() - 1][k]));
        }
        lemma_filter_all(l);
        if ss.len() == 1 {
            reveal_with_fuel(cat, 2);
            assert(cat(ss) =~= l);
            assert(ss[0] == l);
        } else {
            let d = ss.drop_last();
            assert forall|i: int, k: int| 0 <= i < d.len() && 0 <= k < d[i].len() implies is_alnum(
                #[trigger] d[i][k],
            ) by {
                assert(is_alnum(ss[i][k]));
            }
            lemma_joined_letters(d);
            lemma_filter_concat(joined(d, "-"@) + "-"@, l);
            lemma_filter_concat(joined(d, "-"@), "-"@);
            assert("-"@.drop_last() =~= Seq::<char>::empty());
            reveal_with_fuel(Seq::filter, 2);
            assert("-"@.filter(|c: char| is_alnum(c)) =~= Seq::<char>::empty());
            let j = joined(d, "-"@).filter(|c: char| is_alnum(c));
            assert(j + Seq::<char>::empty() =~= j);
        }
    }
}

/// A label has every letter and every digit of its text, in order, and none else.
pub proof fn law_label_keeps_letters(s: Seq<char>)
    ensures
        label(s).filter(|c: char| is_alnum(c)) == s.filter(|c: char| is_alnum(c)),
{
    let sep = not_alnum();
    lemma_cat_pieces(s);
    lemma_cat_nonempty(pieces(s, sep));
    lemma_pieces_clean(s, sep);
    let r = runs(s);
    lemma_runs_clean(pieces(s, sep));
    lemma_joined_letters(r);
}

proof fn lemma_runs_clean(ss: Seq<Seq<char>>)
    requires
        forall|i: int, k: int|
            0 <= i < ss.len() && 0 <= k < ss[i].len() ==> !not_alnum()(#[trigger] ss[i][k]),
    ensures
        forall|i: int, k: int|
            0 <= i < nonempty(ss).len() && 0 <= k < nonempty(ss)[i].len() ==> is_alnum(
                #[trigger] nonempty(ss)[i][k],
            ),
    decreases ss.len(),
{
    reveal(Seq::filter);
    if ss.len() > 0 {
        let d = ss.drop_last();
        let l = ss.last();
        assert forall|i: int, k: int| 0 <= i < d.len() && 0 <= k < d[i].len() implies !not_alnum()(
            #[trigger] d[i][k],
        ) by {
            assert(!not_alnum()(ss[i][k]));
        }
        lemma_runs_clean(d);
        lemma_nonempty_push(d, l);
        assert(d.push(l) =~= ss);
        assert forall|i: int, k: int|
            0 <= i < nonempty(ss).len() && 0 <= k < nonempty(ss)[i].len() implies is_alnum(
            #[trigger] nonempty(ss)[i][k],
        ) by {
            if i < nonempty(d).len() {
                assert(is_alnum(nonempty(d)[i][k]));
            } else {
                assert(!not_alnum()(ss[ss.len() - 1][k]));
            }
        }
    }
}

/// The host name of an env is the label of its name and that of its repo.
pub proof fn law_host_of_env(env: &str, repo: &str, r: String, a: String, b: String)
    requires
        call_ensures(dns_hostname, (env, repo), r),
        call_ensures(sanitize_dns, (env,), a),
        call_ensures(sanitize_dns, (repo,), b),
    ensures
        r@ == a@ + "."@ + b@ + ".env"@,
{
}

/// An ASCII text without capitals keeps its letters and digits in its label.
pub proof fn law_label_of_ascii(s: &str, r: String)
    requires
        call_ensures(sanitize_dns, (s,), r),
        is_ascii_chars(s@),
        forall|i: int| 0 <= i < s@.len() ==> !('A' <= #[trigger] s@[i] <= 'Z'),
    ensures
        r@.filter(|c: char| is_alnum(c)) == s@.filter(|c: char| is_alnum(c)),
{
    assert(s@.map_values(|c: char| crate::dns::ascii_lower(c)) =~= s@);
    law_label_keeps_letters(s@);
}

/// An env is entered into DNS with its own line behind all that is there, unless it
/// is there already; and what comes out again is every line that names it, and no
/// other.
pub proof fn law_dns_comes_and_goes(
    host: &str,
    ip: &str,
    hosts: &str,
    entered: Option<String>,
    left: String,
    i: int,
    line: Seq<char>,
)
    requires
        call_ensures(register_dns, (host, ip, hosts), entered),
        call_ensures(deregister_dns, (host, hosts), left),
    ensures
        entered is None <==> holds(hosts@, ip@ + " "@ + host@),
        entered is Some ==> entered->0@ == hosts@ + (ip@ + " "@ + host@) + "\n"@,
        0 <= i < lines_of(left@).len() ==> !holds(lines_of(left@)[i], host@),
        lines_of(hosts@).contains(line) && !holds(line, host@) && line.len() > 0 && line.last()
            != '\r' ==> lines_of(left@).contains(line),
        ({
            let kept = joined(lines_of(hosts@).filter(|l: Seq<char>| !holds(l, host@)), "\n"@);
            left@ == if kept.len() == 0 {
                kept
            } else {
                kept + "\n"@
            }
        }),
{
    if 0 <= i < lines_of(left@).len() {
        law_deregistered_host_is_gone(hosts@, host@, i);
    }
    if lines_of(hosts@).contains(line) && !holds(line, host@) && line.len() > 0 && line.last()
        != '\r' {
        law_deregister_keeps_others(hosts@, host@, line);
    }
}

// ---------------------------------------------------------------------
// Tunnels
// ---------------------------------------------------------------------

/// A tunnel forwards every port, each from the address that it binds to the same
/// port of the env, and goes to the server. It binds the env's own loopback address
/// where the env has its host name, else that of this machine, and its URL is that
/// of the first port.
pub proof fn law_tunnel_forwards_all(
    ports: &Vec<u16>,
    has_dns: bool,
    loopback: &str,
    dns: &str,
    target: &str,
    r: Tunnel,
)
    requires
        call_ensures(tunnel, (ports, has_dns, loopback, dns, target), r),
        ports@.len() > 0,
    ensures
        ({
            let bind = if has_dns {
                loopback@
            } else {
                "127.0.0.1"@
            };
            &&& r.args@.len() == 10 + 2 * ports@.len()
            &&& r.args@[2]@ == "-N"@
            &&& forall|i: int|
                0 <= i < ports@.len() ==> forwards_port(
                    views(r.args@),
                    9 + 2 * i,
                    bind,
                    #[trigger] ports@[i],
                    dns@,
                )
            &&& r.args@.last()@ == target@
        }),
        r.url@ == "http://"@ + (if has_dns {
            dns@
        } else {
            "127.0.0.1"@
        }) + ":"@ + decimal_of(ports@[0] as nat),
{
    let bind = if has_dns {
        loopback@
    } else {
        "127.0.0.1"@
    };
    lemma_views(r.args@);
    let v = views(r.args@);
    let f = forwards(bind, ports@, dns@);
    lemma_forwards(bind, ports@, dns@);
    assert(v.len() == 9 + f.len() + 1);
    assert forall|i: int| 0 <= i < ports@.len() implies forwards_port(
        v,
        9 + 2 * i,
        bind,
        #[trigger] ports@[i],
        dns@,
    ) by {
        assert(forwards_port(f, 2 * i, bind, ports@[i], dns@));
        assert(v[9 + 2 * i] == f[2 * i]);
        assert(v[9 + 2 * i + 1] == f[2 * i + 1]);
    }
    let n = r.args@.len() - 1;
    assert(r.args@[n]@ == v[n]);
    assert(r.args@[2]@ == v[2]);
}

/// At a place in a list of arguments a port is forwarded to the same port of a
/// host.
pub open spec fn forwards_port(
    args: Seq<Seq<char>>,
    at: int,
    bind: Seq<char>,
    port: u16,
    host: Seq<char>,
) -> bool {
    &&& 0 <= at < args.len() - 1
    &&& args[at] == "-L"@
    &&& args[at + 1] == bind + ":"@ + decimal_of(port as nat) + ":"@ + host + ":"@ + decimal_of(
        port as nat,
    )
}

proof fn lemma_forwards(bind: Seq<char>, ports: Seq<u16>, dns: Seq<char>)
    ensures
        forwards(bind, ports, dns).len() == 2 * ports.len(),
        forall|i: int|
            0 <= i < ports.len() ==> forwards_port(
                forwards(bind, ports, dns),
                2 * i,
                bind,
                #[trigger] ports[i],
                dns,
            ),
    decreases ports.len(),
{
    if ports.len() > 0 {
        let d = ports.drop_last();
        lemma_forwards(bind, d, dns);
        let f = forwards(bind, ports, dns);
        let g = forwards(bind, d, dns);
        assert forall|i: int| 0 <= i < ports.len() implies forwards_port(
            f,
            2 * i,
            bind,
            #[trigger] ports[i],
            dns,
        ) by {
            if i < d.len() {
                assert(forwards_port(g, 2 * i, bind, d[i], dns));
                assert(f[2 * i] == g[2 * i] && f[2 * i + 1] == g[2 * i + 1]);
            } else {
                assert(2 * i == g.len());
                assert(f[2 * i] == "-L"@);
            }
        }
    }
}

proof fn lemma_all_ports_concat(a: Seq<Seq<char>>, b: Seq<Seq<char>>)
    ensures
        all_ports(a) matches Ok(x) ==> (all_ports(b) matches Ok(y) ==> all_ports(a + b) == Ok::<
            Seq<u16>,
            TunnelErrorView,
        >(x + y)),
        all_ports(a) matches Err(e) ==> all_ports(a + b) == Err::<Seq<u16>, TunnelErrorView>(e),
        all_ports(a) is Ok ==> (all_ports(b) matches Err(e) ==> all_ports(a + b) == Err::<
            Seq<u16>,
            TunnelErrorView,
        >(e)),
    decreases b.len(),
{
    if b.len() == 0 {
        assert(a + b =~= a);
        match all_ports(a) {
            Ok(x) => {
                assert(x + Seq::<u16>::empty() =~= x);
            },
            Err(_) => {},
        }
    } else {
        let d = b.drop_last();
        lemma_all_ports_concat(a, d);
        assert((a + b).drop_last() =~= a + d);
        match all_ports(a) {
            Ok(x) => match all_ports(d) {
                Ok(y) => match ports_in(b.last()) {
                    Ok(z) => {
                        assert((x + y) + z =~= x + (y + z));
                    },
                    Err(_) => {},
                },
                Err(_) => {},
            },
            Err(_) => {},
        }
    }
}

/// The ports of two lists of texts are those of the first and then those of the
/// second; what is wrong with the first comes before what is wrong with the second.
pub proof fn law_ports_of_both(
    a: &Vec<String>,
    b: &Vec<String>,
    both: &Vec<String>,
    x: Result<Vec<u16>, TunnelError>,
    y: Result<Vec<u16>, TunnelError>,
    z: Result<Vec<u16>, TunnelError>,
)
    requires
        call_ensures(parse_ports, (a,), x),
        call_ensures(parse_ports, (b,), y),
        call_ensures(parse_ports, (both,), z),
        views(both@) == views(a@) + views(b@),
    ensures
        z is Ok <==> x is Ok && y is Ok,
        z is Ok ==> z->Ok_0@ == x->Ok_0@ + y->Ok_0@,
        x is Err ==> z->Err_0@ == x->Err_0@,
        x is Ok && y is Err ==> z->Err_0@ == y->Err_0@,
{
    lemma_all_ports_concat(views(a@), views(b@));
}

/// A text gives the port that it writes, or all the ports from a first to a last
/// one, both among them.
pub proof fn law_ports_of_one(
    one: &Vec<String>,
    s: u16,
    e: u16,
    p: u16,
    r: Result<Vec<u16>, TunnelError>,
)
    requires
        call_ensures(parse_ports, (one,), r),
        one@.len() == 1,
        s <= e,
    ensures
        one@[0]@ == decimal_of(s as nat) ==> r is Ok && r->Ok_0@ == seq![s],
        one@[0]@ == decimal_of(s as nat) + "-"@ + decimal_of(e as nat) ==> r is Ok && (
        r->Ok_0@.contains(p) <==> s <= p <= e) && r->Ok_0@.len() == e - s + 1 && (s <= p <= e
            ==> r->Ok_0@[p - s] == p),
        s < e && one@[0]@ == decimal_of(e as nat) + "-"@ + decimal_of(s as nat) ==> r is Err
            && r->Err_0 is BadRange,
{
    let v = views(one@);
    assert(v.len() == 1 && v[0] == one@[0]@);
    reveal_with_fuel(all_ports, 2);
    assert(v.drop_last() =~= Seq::<Seq<char>>::empty());
    law_range_is_inclusive(s, e);
    lemma_single_port(s);
    if one@[0]@ == decimal_of(s as nat) {
        assert(Seq::<u16>::empty() + port_range(s as nat, s as nat) =~= seq![s]);
    }
    if one@[0]@ == decimal_of(s as nat) + "-"@ + decimal_of(e as nat) {
        let x = port_range(s as nat, e as nat);
        assert(Seq::<u16>::empty() + x =~= x);
    }
    if s < e {
        lemma_reversed(e, s);
    }
}

proof fn lemma_no_hyphen(n: nat)
    ensures
        !decimal_of(n).contains('-'),
        decimal_of(n).len() > 0,
        is_digit(decimal_of(n)[0]),
{
    let a = decimal_of(n);
    lemma_decimal_value(n);
    if a.contains('-') {
        let i = a.index_of('-');
        assert(is_digit(a[i]));
    }
    assert(is_digit(a[0]));
}

proof fn lemma_single_port(s: u16)
    ensures
        ports_in(decimal_of(s as nat)) == Ok::<Seq<u16>, TunnelErrorView>(
            port_range(s as nat, s as nat),
        ),
{
    let a = decimal_of(s as nat);
    lemma_no_hyphen(s as nat);
    lemma_decimal_value(s as nat);
    crate::text::lemma_char_from(a, '-', 0);
    match crate::text::char_from(a, '-', 0) {
        Some(i) => {
            assert(a.contains(a[i]));
        },
        None => {},
    }
}

proof fn lemma_reversed(e: u16, s: u16)
    requires
        s < e,
    ensures
        ports_in(decimal_of(e as nat) + "-"@ + decimal_of(s as nat)) is Err,
        ports_in(decimal_of(e as nat) + "-"@ + decimal_of(s as nat))->Err_0 is BadRange,
{
    reveal_strlit("-");
    assert("-"@ =~= seq!['-']);
    let a = decimal_of(e as nat);
    let b = decimal_of(s as nat);
    lemma_no_hyphen(e as nat);
    lemma_no_hyphen(s as nat);
    lemma_decimal_value(e as nat);
    lemma_decimal_value(s as nat);
    lemma_cut_once(a, '-', b);
}

/// The ports that were asked for come before those of the configuration; there has
/// to be one.
pub proof fn law_ports_to_tunnel(
    specs: &Vec<String>,
    configured: &Vec<u16>,
    parsed: Result<Vec<u16>, TunnelError>,
    r: Result<Vec<u16>, TunnelError>,
)
    requires
        call_ensures(parse_ports, (specs,), parsed),
        call_ensures(tunnel_ports, (specs, configured), r),
    ensures
        parsed is Err ==> r is Err && r->Err_0@ == parsed->Err_0@,
        parsed is Ok && parsed->Ok_0@.len() > 0 ==> r is Ok && r->Ok_0@ == parsed->Ok_0@,
        parsed is Ok && parsed->Ok_0@.len() == 0 && configured@.len() > 0 ==> r is Ok && r->Ok_0@
            == configured@,
        parsed is Ok && parsed->Ok_0@.len() == 0 && configured@.len() == 0 ==> r is Err
            && r->Err_0 is NoPorts,
{
}

/// The loopback address of a VM has its last two numbers.
pub proof fn law_loopback(a: Seq<char>, b: Seq<char>, c: Seq<char>, d: Seq<char>, ip: &str, r: Option<String>)
    requires
        call_ensures(derive_loopback, (ip,), r),
        ip@ == a + "."@ + b + "."@ + c + "."@ + d,
        !a.contains('.') && !b.contains('.') && !c.contains('.') && !d.contains('.'),
    ensures
        r is Some && r->0@ == "127.0."@ + c + "."@ + d,
{
    reveal_strlit(".");
    assert("."@ =~= seq!['.']);
    let ss = seq![a, b, c, d];
    let sep = is_char('.');
    assert forall|i: int, k: int| 0 <= i < ss.len() && 0 <= k < ss[i].len() implies !sep(
        #[trigger] ss[i][k],
    ) by {
        assert(i == 0 || i == 1 || i == 2 || i == 3);
        assert(ss[i].contains(ss[i][k]));
    }
    lemma_pieces_joined(ss, '.', sep);
    let dot = seq!['.'];
    reveal_with_fuel(joined, 4);
    assert(ss.drop_last() =~= seq![a, b, c]);
    assert(ss.drop_last().drop_last() =~= seq![a, b]);
    assert(ss.drop_last().drop_last().drop_last() =~= seq![a]);
    assert(joined(ss, dot) =~= a + dot + b + dot + c + dot + d);
    assert(ip@ =~= joined(ss, dot));
}

/// A tunnel is for an env that the server lists with an address: the first of its
/// name counts. Without a server there is none.
pub proof fn law_tunnel_ends(
    envs: &Vec<EnvStatus>,
    env: &str,
    r: Result<String, TunnelError>,
    target: Option<String>,
    t: Result<String, TunnelError>,
    i: int,
)
    requires
        call_ensures(tunnel_loopback, (envs, env), r),
        call_ensures(tunnel_target, (target,), t),
        0 <= i < envs@.len() ==> envs@[i].name@ == env@,
        forall|k: int| 0 <= k < i && k < envs@.len() ==> (#[trigger] envs@[k]).name@ != env@,
        0 <= i,
    ensures
        i >= envs@.len() ==> r is Err && r->Err_0 is NoEnv,
        i < envs@.len() && envs@[i].ip is None ==> r is Err && r->Err_0 is NoIp,
        i < envs@.len() && envs@[i].ip is Some ==> (r is Ok || r->Err_0 is NoLoopback),
        forall|ip: &str, l: Option<String>| #[trigger]
            call_ensures(derive_loopback, (ip,), l) && i < envs@.len() && envs@[i].ip is Some
                && ip@ == envs@[i].ip->0@ ==> (r is Ok <==> l is Some) && (r is Ok ==> r->Ok_0@
                == l->0@),
        t is Ok <==> target is Some,
        t is Ok ==> t->Ok_0@ == target->0@,
{
    lemma_first_env(envs@, env@, i, 0);
}

proof fn lemma_first_env(envs: Seq<EnvStatus>, name: Seq<char>, i: int, from: int)
    requires
        0 <= from <= i,
        i < envs.len() ==> envs[i].name@ == name,
        forall|k: int| 0 <= k < i && k < envs.len() ==> (#[trigger] envs[k]).name@ != name,
    ensures
        i < envs.len() ==> crate::client::env_from(envs, name, from) == Some(i),
        i >= envs.len() ==> crate::client::env_from(envs, name, from) is None,
    decreases i - from,
{
    if from < i && from < envs.len() {
        lemma_first_env(envs, name, i, from + 1);
    }
}

/// What a tunnel sets up is what is cleaned up behind it.
pub proof fn law_tunnel_is_cleaned_up(
    exe: &str,
    loopback: &str,
    dns: &str,
    up: Vec<String>,
    down: Vec<String>,
    add: Vec<String>,
    remove: Vec<String>,
)
    requires
        call_ensures(add_loopback, (loopback,), up),
        call_ensures(remove_loopback, (loopback,), down),
        call_ensures(setup_tunnel_dns, (exe, loopback, dns), add),
        call_ensures(cleanup_tunnel_dns, (exe, dns), remove),
    ensures
        up@.len() == 6 && up@[0]@ == "ip"@ && up@[1]@ == "addr"@ && up@[4]@ == "dev"@,
        down@.len() == 6 && down@[0]@ == "ip"@ && down@[1]@ == "addr"@ && down@[4]@ == "dev"@,
        add@[1]@ == "util"@ && add@[2]@ == "hosts"@,
        remove@[1]@ == "util"@ && remove@[2]@ == "hosts"@,
        up@.len() == 6 && down@.len() == 6 && up@[2]@ == "add"@ && down@[2]@ == "del"@ && up@[3]@
            == loopback@ + "/8"@ && down@[3]@ == up@[3]@ && up@[5]@ == "lo"@ && down@[5]@ == "lo"@,
        add@.len() == 6 && add@[0]@ == exe@ && add@[3]@ == "add"@ && add@[4]@ == loopback@
            && add@[5]@ == dns@,
        remove@.len() == 5 && remove@[0]@ == exe@ && remove@[3]@ == "remove"@ && remove@[4]@
            == dns@,
{
    lemma_views(up@);
    lemma_views(down@);
    lemma_views(add@);
    lemma_views(remove@);
}

/// A host name of a tunnel is added in one marked line, unless it is there already;
/// and only such lines are taken out again.
pub proof fn law_tunnel_hosts(
    hosts: &str,
    ip: &str,
    name: &str,
    added: Option<String>,
    left: String,
    i: int,
    line: Seq<char>,
)
    requires
        call_ensures(hosts_add, (hosts, ip, name), added),
        call_ensures(hosts_remove, (hosts, name), left),
    ensures
        added is None <==> holds(hosts@, name@),
        added is Some ==> added->0@ == ip@ + " "@ + name@ + " "@ + "# vitro-tunnel"@ + "\n"@,
        0 <= i < lines_of(left@).len() ==> !(holds(lines_of(left@)[i], name@) && holds(
            lines_of(left@)[i],
            "# vitro-tunnel"@,
        )),
        lines_of(hosts@).contains(line) && !(holds(line, name@) && holds(line, "# vitro-tunnel"@))
            && (line.len() > 0 ==> line.last() != '\r') ==> lines_of(left@).contains(line),
        left@ == joined(
            lines_of(hosts@).filter(
                |l: Seq<char>| !(holds(l, name@) && holds(l, "# vitro-tunnel"@)),
            ),
            "\n"@,
        ) + "\n"@,
{
    assert(lines_of(hosts@).filter(
        |l: Seq<char>| !(holds(l, name@) && holds(l, "# vitro-tunnel"@)),
    ) == crate::tunnel::other_lines(hosts@, name@)) by {
        let f = |l: Seq<char>| !(holds(l, name@) && holds(l, "# vitro-tunnel"@));
        let g = |l: Seq<char>| !crate::tunnel::is_tunnel_line(l, name@);
        assert(f =~= g);
    }
    if 0 <= i < lines_of(left@).len() {
        law_removed_tunnel_is_gone(hosts@, name@, i);
    }
    if lines_of(hosts@).contains(line) && !(holds(line, name@) && holds(line, "# vitro-tunnel"@))
        && (line.len() > 0 ==> line.last() != '\r') {
        law_remove_keeps_other_hosts(hosts@, name@, line);
    }
}

} // verus!
