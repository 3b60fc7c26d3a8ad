use vstd::prelude::*;

use crate::number::{decimal, decimal_of, lemma_decimal_injective};
use crate::order::{ascending, sorted};
use crate::path::{below, join_path};
use crate::table::{distinct_keys, pairs_map, Table};
use crate::text::{lemma_views_push, opt_view, views};

verus! {

/// Where the cells live.
pub const CELLS_PATH: &'static str = "/var/lib/vitro/cells";

/// The file that holds the IP pool.
pub const IP_POOL: &'static str = "/var/lib/vitro/ip-pool.json";

/// The host numbers that the pool hands out.
pub const FIRST_HOST: u16 = 11;

pub const LAST_HOST: u16 = 254;

// ---------------------------------------------------------------------
// The IP pool
// ---------------------------------------------------------------------

/// The addresses that are handed out, by name.
pub type IpPool = Table;

/// The address with host number `i`.
pub open spec fn address(i: nat) -> Seq<char> {
    "192.168.83."@ + decimal_of(i)
}

/// The first host number at or after `i` whose address nobody has.
pub open spec fn free_from(pool: Map<Seq<char>, Seq<char>>, i: nat) -> Option<nat>
    decreases LAST_HOST + 1 - i,
{
    if i > LAST_HOST {
        None
    } else if !pool.contains_value(address(i)) {
        Some(i)
    } else {
        free_from(pool, i + 1)
    }
}

/// The address that a new name gets, if one is left.
pub open spec fn free_address(pool: Map<Seq<char>, Seq<char>>) -> Option<Seq<char>> {
    match free_from(pool, FIRST_HOST as nat) {
        Some(i) => Some(address(i)),
        None => None,
    }
}

/// The pool after `name` has asked for an address.
pub open spec fn allocated(pool: Map<Seq<char>, Seq<char>>, name: Seq<char>) -> Map<
    Seq<char>,
    Seq<char>,
> {
    if pool.contains_key(name) {
        pool
    } else {
        match free_address(pool) {
            Some(ip) => pool.insert(name, ip),
            None => pool,
        }
    }
}

/// No address is handed out twice.
pub open spec fn addresses_distinct(pool: Map<Seq<char>, Seq<char>>) -> bool {
    forall|a: Seq<char>, b: Seq<char>|
        pool.contains_key(a) && pool.contains_key(b) && a != b ==> #[trigger] pool[a]
            != #[trigger] pool[b]
}

/// No address is left.
#[derive(Debug)]
pub struct PoolExhausted;

impl PoolExhausted {
    pub fn message(&self) -> (r: String)
        ensures
            r@ == "IP pool exhausted (244 cells max)"@,
    {
        "IP pool exhausted (244 cells max)".to_string()
    }
}

/// Give `name` an address: the one it has, else the lowest one that is free.
pub fn allocate_ip(pool: &mut IpPool, name: &str) -> (r: Result<String, PoolExhausted>)
    requires
        old(pool).wf(),
    ensures
        final(pool).wf(),
        final(pool)@ == allocated(old(pool)@, name@),
        match r {
            Ok(ip) => allocated(old(pool)@, name@).contains_key(name@) && ip@ == allocated(
                old(pool)@,
                name@,
            )[name@],
            Err(_) => !old(pool)@.contains_key(name@) && free_address(old(pool)@) is None,
        },
{
    if let Some(ip) = pool.get(name) {
        return Ok(ip);
    }
    let ghost m = pool@;
    let mut i: u16 = FIRST_HOST;
    while i <= LAST_HOST
        invariant
            pool.wf(),
            pool@ == m,
            m == old(pool)@,
            !m.contains_key(name@),
            FIRST_HOST <= i <= LAST_HOST + 1,
            free_from(m, FIRST_HOST as nat) == free_from(m, i as nat),
        decreases LAST_HOST + 1 - i,
    {
        let mut ip = "192.168.83.".to_string();
        ip.append(decimal(i as u64).as_str());
        if !pool.holds_value(ip.as_str()) {
            pool.put(name.to_string(), ip.clone());
            return Ok(ip);
        }
        i = i + 1;
    }
    Err(PoolExhausted)
}

/// Take the address of `name` back.
pub fn release_ip(pool: &mut IpPool, name: &str)
    requires
        old(pool).wf(),
    ensures
        final(pool).wf(),
        final(pool)@ == old(pool)@.remove(name@),
{
    pool.take(name)
}

// ---------------------------------------------------------------------
// The pool's file
// ---------------------------------------------------------------------

/// The map of strings that `serde_json::from_str` reads from a text; nothing,
/// where the text is no such map.
pub uninterp spec fn string_map_holds(text: Seq<char>) -> Option<Map<Seq<char>, Seq<char>>>;

/// `serde_json::from_str`, asked for a `HashMap<String, String>`: its pairs, in
/// no particular order.
#[verifier::external_body]
fn string_map_from_text(text: &str) -> (r: Option<Vec<(String, String)>>)
    ensures
        match r {
            Some(pairs) => distinct_keys(pairs@) && string_map_holds(text@) == Some(
                pairs_map(pairs@),
            ),
            None => string_map_holds(text@) is None,
        },
{
    let read: Result<std::collections::HashMap<String, String>, serde_json::Error> =
        serde_json::from_str(text);
    read.ok().map(|m| m.into_iter().collect())
}

/// `serde_json::to_string_pretty` on a map of strings, which never fails. The
/// text is read back as the same map; how it is laid out is not stated.
#[verifier::external_body]
fn string_map_to_text(pairs: &Vec<(String, String)>) -> (s: String)
    requires
        distinct_keys(pairs@),
    ensures
        string_map_holds(s@) == Some(pairs_map(pairs@)),
{
    let map: std::collections::BTreeMap<String, String> = pairs.iter().cloned().collect();
    serde_json::to_string_pretty(&map).unwrap_or_default()
}

/// The pool that a text holds: an empty one where there is none, or it is no
/// map of strings.
pub open spec fn pool_in(text: Option<Seq<char>>) -> Map<Seq<char>, Seq<char>> {
    match text {
        Some(t) => match string_map_holds(t) {
            Some(m) => m,
            None => Map::empty(),
        },
        None => Map::empty(),
    }
}

/// Read the pool from the text of its file, if there is one.
pub fn load_ip_pool(text: Option<&str>) -> (pool: IpPool)
    ensures
        pool.wf(),
        pool@ == pool_in(opt_view(text)),
{
    match text {
        Some(t) => match string_map_from_text(t) {
            Some(pairs) => IpPool::of(pairs),
            None => IpPool::empty(),
        },
        None => IpPool::empty(),
    }
}

/// Write the pool as the text of its file, from which it is read back.
pub fn save_ip_pool(pool: &IpPool) -> (s: String)
    requires
        pool.wf(),
    ensures
        pool_in(Some(s@)) == pool@,
{
    string_map_to_text(pool.pairs())
}

// ---------------------------------------------------------------------
// What the pool promises
// ---------------------------------------------------------------------

proof fn lemma_free_from(pool: Map<Seq<char>, Seq<char>>, i: nat)
    ensures
        match free_from(pool, i) {
            Some(k) => i <= k <= LAST_HOST && !pool.contains_value(address(k)) && forall|j: nat|
                i <= j < k ==> pool.contains_value(#[trigger] address(j)),
            None => forall|j: nat|
                i <= j <= LAST_HOST ==> pool.contains_value(#[trigger] address(j)),
        },
    decreases LAST_HOST + 1 - i,
{
    if i <= LAST_HOST && pool.contains_value(address(i)) {
        lemma_free_from(pool, i + 1);
    }
}

/// A name that has an address keeps it: asking again changes nothing.
pub proof fn law_allocate_again(pool: Map<Seq<char>, Seq<char>>, name: Seq<char>)
    ensures
        allocated(allocated(pool, name), name) == allocated(pool, name),
{
}

/// Asking for an address never takes or changes the address of another name.
pub proof fn law_allocate_keeps_others(
    pool: Map<Seq<char>, Seq<char>>,
    name: Seq<char>,
    other: Seq<char>,
)
    requires
        other != name,
    ensures
        allocated(pool, name).contains_key(other) == pool.contains_key(other),
        pool.contains_key(other) ==> allocated(pool, name)[other] == pool[other],
{
}

/// While no address is handed out twice, neither allocating nor releasing makes
/// it so.
pub proof fn law_addresses_stay_distinct(pool: Map<Seq<char>, Seq<char>>, name: Seq<char>)
    requires
        addresses_distinct(pool),
    ensures
        addresses_distinct(allocated(pool, name)),
        addresses_distinct(pool.remove(name)),
{
    lemma_free_from(pool, FIRST_HOST as nat);
    let p = allocated(pool, name);
    assert forall|a: Seq<char>, b: Seq<char>|
        p.contains_key(a) && p.contains_key(b) && a != b implies #[trigger] p[a]
        != #[trigger] p[b] by {
        if pool.contains_key(a) && pool.contains_key(b) {
            assert(pool[a] != pool[b]);
        } else if pool.contains_key(a) {
            assert(pool.contains_value(pool[a]));
        } else if pool.contains_key(b) {
            assert(pool.contains_value(pool[b]));
        }
    }
    let q = pool.remove(name);
    assert forall|a: Seq<char>, b: Seq<char>|
        q.contains_key(a) && q.contains_key(b) && a != b implies #[trigger] q[a]
        != #[trigger] q[b] by {
        assert(pool[a] != pool[b]);
    }
}

/// A released address is handed out again to the next new name, unless a lower
/// one is free.
pub proof fn law_released_address_is_free(pool: Map<Seq<char>, Seq<char>>, name: Seq<char>, i: nat)
    requires
        addresses_distinct(pool),
        pool.contains_key(name),
        pool[name] == address(i),
        FIRST_HOST <= i <= LAST_HOST,
    ensures
        match free_from(pool.remove(name), FIRST_HOST as nat) {
            Some(k) => k <= i,
            None => false,
        },
{
    let q = pool.remove(name);
    assert(!q.contains_value(address(i))) by {
        if q.contains_value(address(i)) {
            let k = choose|k: Seq<char>| #[trigger] q.contains_key(k) && q[k] == address(i);
            assert(pool[k] != pool[name]);
        }
    }
    lemma_free_from(q, FIRST_HOST as nat);
}

/// The keys that hold the addresses from `FIRST_HOST` on, `n` of them.
proof fn lemma_key_per_address(pool: Map<Seq<char>, Seq<char>>, n: nat) -> (keys: Set<Seq<char>>)
    requires
        n <= LAST_HOST + 1 - FIRST_HOST,
        forall|j: nat|
            FIRST_HOST <= j <= LAST_HOST ==> pool.contains_value(#[trigger] address(j)),
    ensures
        keys.finite(),
        keys.len() == n,
        keys.subset_of(pool.dom()),
        forall|k: Seq<char>| #[trigger]
            keys.contains(k) ==> exists|j: nat|
                FIRST_HOST <= j < FIRST_HOST + n && pool[k] == #[trigger] address(j),
    decreases n,
{
    if n == 0 {
        Set::empty()
    } else {
        let m = (n - 1) as nat;
        let keys = lemma_key_per_address(pool, m);
        let i = (FIRST_HOST + m) as nat;
        assert(pool.contains_value(address(i)));
        let key = choose|k: Seq<char>| #[trigger] pool.contains_key(k) && pool[k] == address(i);
        assert(!keys.contains(key)) by {
            if keys.contains(key) {
                let j = choose|j: nat|
                    FIRST_HOST <= j < FIRST_HOST + m && pool[key] == #[trigger] address(j);
                lemma_address_injective(i, j);
            }
        }
        let more = keys.insert(key);
        assert forall|k: Seq<char>| #[trigger] more.contains(k) implies exists|j: nat|
            FIRST_HOST <= j < FIRST_HOST + n && pool[k] == #[trigger] address(j) by {
            if k != key {
                assert(keys.contains(k));
                let j = choose|j: nat|
                    FIRST_HOST <= j < FIRST_HOST + m && pool[k] == #[trigger] address(j);
                assert(pool[k] == address(j));
            } else {
                assert(pool[k] == address(i));
            }
        }
        more
    }
}

proof fn lemma_address_injective(i: nat, j: nat)
    requires
        address(i) == address(j),
    ensures
        i == j,
{
    let p = "192.168.83."@;
    assert(decimal_of(i) =~= address(i).skip(p.len() as int));
    assert(decimal_of(j) =~= address(j).skip(p.len() as int));
    lemma_decimal_injective(i, j);
}

/// The pool serves 244 names: while fewer have an address, a new one gets one.
pub proof fn law_pool_serves_244(pool: Map<Seq<char>, Seq<char>>, name: Seq<char>)
    requires
        pool.dom().finite(),
        pool.dom().len() < 244,
    ensures
        allocated(pool, name).contains_key(name),
{
    lemma_free_from(pool, FIRST_HOST as nat);
    if free_from(pool, FIRST_HOST as nat) is None {
        let keys = lemma_key_per_address(pool, 244);
        vstd::set_lib::lemma_len_subset(keys, pool.dom());
    }
}

// ---------------------------------------------------------------------
// Paths
// ---------------------------------------------------------------------

pub fn cell_dir(name: &str) -> (r: String)
    ensures
        r@ == below(CELLS_PATH@, name@),
{
    join_path(CELLS_PATH, name)
}

pub fn cell_repo_dir(name: &str) -> (r: String)
    ensures
        r@ == below(below(CELLS_PATH@, name@), "repo"@),
{
    join_path(cell_dir(name).as_str(), "repo")
}

pub fn cell_flake_dir(name: &str) -> (r: String)
    ensures
        r@ == below(below(CELLS_PATH@, name@), "flake"@),
{
    join_path(cell_dir(name).as_str(), "flake")
}

/// The directory for the runtime state of `name` under `base`.
pub open spec fn runtime_under(base: Seq<char>, name: Seq<char>) -> Seq<char> {
    below(below(base, "vitro"@), name)
}

/// Where the runtime state of `name` may lie: under the session's runtime
/// directory, which is `/tmp` where there is none, and under `/tmp`.
pub fn runtime_candidates(base: Option<&str>, name: &str) -> (r: (String, String))
    ensures
        r.0@ == runtime_under(
            match base {
                Some(b) => b@,
                None => "/tmp"@,
            },
            name@,
        ),
        r.1@ == runtime_under("/tmp"@, name@),
{
    let b = match base {
        Some(b) => b,
        None => "/tmp",
    };
    (
        join_path(join_path(b, "vitro").as_str(), name),
        join_path(join_path("/tmp", "vitro").as_str(), name),
    )
}

/// The directory with the runtime state of `name`: the one under `base`, unless
/// only the one under `/tmp` has an `ip` file.
pub fn runtime_dir(base: Option<&str>, name: &str, has_ip: bool, tmp_has_ip: bool) -> (r: String)
    ensures
        r@ == (if !has_ip && tmp_has_ip {
            runtime_under("/tmp"@, name@)
        } else {
            runtime_under(
                match base {
                    Some(b) => b@,
                    None => "/tmp"@,
                },
                name@,
            )
        }),
{
    let (dir, tmp) = runtime_candidates(base, name);
    if !has_ip && tmp_has_ip {
        tmp
    } else {
        dir
    }
}

/// An entry of a directory: its name, where that is text, and whether it is a
/// directory itself.
pub struct DirItem {
    pub name: Option<String>,
    pub is_dir: bool,
}

/// The names of the directories among `items`.
pub open spec fn dir_names(items: Seq<DirItem>) -> Seq<Seq<char>>
    decreases items.len(),
{
    if items.len() == 0 {
        Seq::empty()
    } else {
        let front = dir_names(items.drop_last());
        match items.last().name {
            Some(n) => if items.last().is_dir {
                front.push(n@)
            } else {
                front
            },
            None => front,
        }
    }
}

/// The names of the directories among `items`, in ascending order.
pub fn list_cells(items: &Vec<DirItem>) -> (r: Vec<String>)
    ensures
        ascending(views(r@)),
        views(r@).to_multiset() == dir_names(items@).to_multiset(),
{
    let mut names: Vec<String> = Vec::new();
    proof {
        assert(views(names@) =~= dir_names(items@.take(0)));
    }
    for i in 0..items.len()
        invariant
            views(names@) == dir_names(items@.take(i as int)),
    {
        proof {
            assert(items@.take(i + 1).drop_last() =~= items@.take(i as int));
        }
        if items[i].is_dir {
            if let Some(n) = &items[i].name {
                let n = n.clone();
                proof {
                    lemma_views_push(names@, n);
                }
                names.push(n);
            }
        }
    }
    proof {
        assert(items@.take(items@.len() as int) =~= items@);
    }
    sorted(&names)
}

} // verus!
