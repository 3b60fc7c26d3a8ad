use vstd::prelude::*;

use crate::order::{ascending, sorted};
use crate::path::{below, join_path};
use crate::table::{distinct_keys, lemma_pairs_map, pairs_map, Table};
use crate::text::{lemma_views_push, opt_text, opt_view, same, views};

verus! {

/// The servers that a user knows, below the user's home. The file is declared,
/// or edited by hand; it is only read.
pub const REGISTRY_FILE: &'static str = ".config/vitro/servers.toml";

/// The configuration of the client, below the user's home.
pub const CLIENT_CONFIG: &'static str = ".config/vitro/config.toml";

/// The configuration of the client.
#[derive(Debug)]
pub struct ClientConfig {
    pub sync: Vec<String>,
    pub server: Option<String>,
}

impl Default for ClientConfig {
    fn default() -> (r: ClientConfig)
        ensures
            r.sync@.len() == 0,
            r.server is None,
    {
        ClientConfig { sync: Vec::new(), server: None }
    }
}

/// The home of a user; that of root, where it is not known.
pub open spec fn home_of(home: Option<Seq<char>>) -> Seq<char> {
    match home {
        Some(h) => h,
        None => "/root"@,
    }
}

/// The file with the configuration of the client.
pub fn client_config_path(home: Option<&str>) -> (r: String)
    ensures
        r@ == below(home_of(opt_view(home)), CLIENT_CONFIG@),
{
    let h = match home {
        Some(h) => h,
        None => "/root",
    };
    join_path(h, CLIENT_CONFIG)
}

/// The file with the servers that a user knows.
pub fn registry_path(home: Option<&str>) -> (r: String)
    ensures
        r@ == below(home_of(opt_view(home)), REGISTRY_FILE@),
{
    let h = match home {
        Some(h) => h,
        None => "/root",
    };
    join_path(h, REGISTRY_FILE)
}

/// A server that a user knows.
#[derive(Debug)]
pub struct ServerEntry {
    pub target: String,
}

/// The SSH targets of the servers that a user knows, by name.
pub type Registry = Table;

/// The registry that a list of servers stands for.
pub fn registry_of(entries: Vec<(String, ServerEntry)>) -> (r: Registry)
    ensures
        r.wf(),
        r@ == pairs_map(entries@.map_values(|e: (String, ServerEntry)| (e.0, e.1.target))),
{
    let ghost f = |e: (String, ServerEntry)| (e.0, e.1.target);
    let mut pairs: Vec<(String, String)> = Vec::new();
    let mut rest = entries;
    proof {
        assert(rest@ =~= entries@.skip(0));
    }
    while rest.len() > 0
        invariant
            f == (|e: (String, ServerEntry)| (e.0, e.1.target)),
            pairs@.len() + rest@.len() == entries@.len(),
            rest@ == entries@.skip(pairs@.len() as int),
            pairs@ == entries@.map_values(f).take(pairs@.len() as int),
        decreases rest@.len(),
    {
        let (name, entry) = rest.remove(0);
        proof {
            let k = pairs@.len() as int;
            assert((name, entry) == entries@[k]);
            assert(entries@.map_values(f).take(k + 1) =~= entries@.map_values(f).take(k).push(
                (name, entry.target),
            ));
        }
        pairs.push((name, entry.target));
        proof {
            assert(rest@ =~= entries@.skip(pairs@.len() as int));
        }
    }
    proof {
        assert(entries@.map_values(f).take(pairs@.len() as int) =~= entries@.map_values(f));
    }
    Table::of(pairs)
}

/// The server that a command is for.
#[derive(Debug)]
pub enum ActiveServer {
    Localhost,
    Remote { name: String },
}

/// Why a server cannot be used.
#[derive(Debug)]
pub enum ServerError {
    NotInRegistry { name: String },
    Unknown { name: String },
}

impl ServerError {
    /// What is reported.
    pub open spec fn says(&self) -> Seq<char> {
        match self {
            ServerError::NotInRegistry { name } => "server '"@ + name@ + "' not in registry"@,
            ServerError::Unknown { name } => "server '"@ + name@
                + "' not in registry.\n  NixOS:  set vitro.client.servers."@ + name@
                + " = \"<ssh-target>\";\n  else:   add to ~/"@ + REGISTRY_FILE@ + " as ["@
                + name@ + "] target = \"<ssh-target>\""@,
        }
    }

    pub fn message(&self) -> (r: String)
        ensures
            r@ == self.says(),
    {
        match self {
            ServerError::NotInRegistry { name } => {
                let mut s = "server '".to_string();
                s.append(name.as_str());
                s.append("' not in registry");
                s
            },
            ServerError::Unknown { name } => {
                let mut s = "server '".to_string();
                s.append(name.as_str());
                s.append("' not in registry.\n  NixOS:  set vitro.client.servers.");
                s.append(name.as_str());
                s.append(" = \"<ssh-target>\";\n  else:   add to ~/");
                s.append(REGISTRY_FILE);
                s.append(" as [");
                s.append(name.as_str());
                s.append("] target = \"<ssh-target>\"");
                s
            },
        }
    }
}

impl ActiveServer {
    /// The SSH target of the server: none for this machine.
    pub fn target(&self, registry: &Registry) -> (r: Result<Option<String>, ServerError>)
        requires
            registry.wf(),
        ensures
            match self {
                ActiveServer::Localhost => r matches Ok(t) && t is None,
                ActiveServer::Remote { name } => if registry@.contains_key(name@) {
                    r matches Ok(t) && opt_text(t) == Some(registry@[name@])
                } else {
                    r matches Err(ServerError::NotInRegistry { name: n }) && n@ == name@
                },
            },
    {
        match self {
            ActiveServer::Localhost => Ok(None),
            ActiveServer::Remote { name } => match registry.get(name.as_str()) {
                Some(t) => Ok(Some(t)),
                None => Err(ServerError::NotInRegistry { name: name.clone() }),
            },
        }
    }

    pub fn is_server(&self) -> (r: bool)
        ensures
            r == (self is Remote),
    {
        match self {
            ActiveServer::Localhost => false,
            ActiveServer::Remote { .. } => true,
        }
    }
}

/// The names in a list of pairs.
pub open spec fn first_views(v: Seq<(String, String)>) -> Seq<Seq<char>> {
    v.map_values(|p: (String, String)| p.0@)
}

/// The names and the targets of all servers, by ascending name.
pub fn list(registry: &Registry) -> (r: Vec<(String, String)>)
    requires
        registry.wf(),
    ensures
        ascending(first_views(r@)),
        distinct_keys(r@),
        pairs_map(r@) == registry@,
{
    let pairs = registry.pairs();
    let mut names: Vec<String> = Vec::new();
    for i in 0..pairs.len()
        invariant
            views(names@) =~= first_views(pairs@).take(i as int),
    {
        let n = pairs[i].0.clone();
        proof {
            lemma_views_push(names@, n);
        }
        names.push(n);
    }
    let ghost all = first_views(pairs@);
    proof {
        assert(all.take(pairs@.len() as int) =~= all);
        lemma_pairs_map(pairs@);
    }
    let names = sorted(&names);
    let ghost ns = views(names@);
    proof {
        lemma_same_names(pairs@, ns);
    }
    let mut r: Vec<(String, String)> = Vec::new();
    for i in 0..names.len()
        invariant
            registry.wf(),
            ns == views(names@),
            forall|k: int| 0 <= k < ns.len() ==> registry@.contains_key(#[trigger] ns[k]),
            first_views(r@) =~= ns.take(i as int),
            forall|k: int|
                0 <= k < r@.len() ==> registry@.contains_key((#[trigger] r@[k]).0@) && r@[k].1@
                    == registry@[r@[k].0@],
    {
        proof {
            assert(ns[i as int] == names@[i as int]@);
        }
        match registry.get(names[i].as_str()) {
            Some(t) => {
                let ghost before = r@;
                r.push((names[i].clone(), t));
                proof {
                    assert(first_views(r@) =~= first_views(before).push(names@[i as int]@));
                }
            },
            None => {},
        }
    }
    proof {
        assert(ns.take(names@.len() as int) =~= ns);
        let f = first_views(r@);
        assert(f == ns);
        assert forall|i: int, j: int| 0 <= i < j < r@.len() implies #[trigger] r@[i].0@
            != #[trigger] r@[j].0@ by {
            assert(f[i] == r@[i].0@ && f[j] == r@[j].0@);
            assert(ns[i] != ns[j]);
        }
        lemma_pairs_map(r@);
        let m = pairs_map(r@);
        assert forall|k: Seq<char>| m.contains_key(k) <==> #[trigger] registry@.contains_key(
            k,
        ) by {
            if m.contains_key(k) {
                let i = choose|i: int| 0 <= i < r@.len() && #[trigger] r@[i].0@ == k;
                assert(registry@.contains_key(r@[i].0@));
            }
            if registry@.contains_key(k) {
                assert(pairs_map(pairs@).contains_key(k));
                let p = choose|p: int| 0 <= p < pairs@.len() && #[trigger] pairs@[p].0@ == k;
                assert(all[p] == k);
                assert(ns.contains(k));
                let i = ns.index_of(k);
                assert(f[i] == r@[i].0@);
                assert(m.contains_key(r@[i].0@));
            }
        }
        assert forall|k: Seq<char>| #[trigger] m.contains_key(k) implies m[k] == registry@[k] by {
            let i = choose|i: int| 0 <= i < r@.len() && #[trigger] r@[i].0@ == k;
            assert(m.contains_key(r@[i].0@) && m[r@[i].0@] == r@[i].1@);
        }
        assert(m =~= registry@);
    }
    r
}

/// Names in another order are the same names, and none of them twice.
proof fn lemma_same_names(pairs: Seq<(String, String)>, ns: Seq<Seq<char>>)
    requires
        distinct_keys(pairs),
        ns.to_multiset() == first_views(pairs).to_multiset(),
    ensures
        forall|k: int| 0 <= k < ns.len() ==> pairs_map(pairs).contains_key(#[trigger] ns[k]),
        forall|k: int| 0 <= k < pairs.len() ==> ns.contains(#[trigger] first_views(pairs)[k]),
        forall|i: int, j: int| 0 <= i < j < ns.len() ==> #[trigger] ns[i] != #[trigger] ns[j],
{
    let all = first_views(pairs);
    lemma_pairs_map(pairs);
    broadcast use vstd::seq_lib::group_to_multiset_ensures;

    assert forall|k: int| 0 <= k < ns.len() implies pairs_map(pairs).contains_key(
        #[trigger] ns[k],
    ) by {
        assert(ns.contains(ns[k]));
        assert(ns.to_multiset().count(ns[k]) > 0);
        assert(all.contains(ns[k]));
        let p = all.index_of(ns[k]);
        assert(pairs[p].0@ == ns[k]);
        assert(pairs_map(pairs).contains_key(pairs[p].0@));
    }
    assert forall|k: int| 0 <= k < pairs.len() implies ns.contains(#[trigger] all[k]) by {
        assert(all.contains(all[k]));
        assert(all.to_multiset().count(all[k]) > 0);
    }
    assert(all.no_duplicates()) by {
        assert forall|i: int, j: int| 0 <= i < all.len() && 0 <= j < all.len() && i
            != j implies all[i] != all[j] by {
            assert(all[i] == pairs[i].0@ && all[j] == pairs[j].0@);
        }
    }
    all.lemma_multiset_has_no_duplicates();
    assert forall|i: int, j: int| 0 <= i < j < ns.len() implies #[trigger] ns[i]
        != #[trigger] ns[j] by {
        if ns[i] == ns[j] {
            lemma_twice(ns, i, j);
            assert(all.to_multiset().count(ns[i]) <= 1);
        }
    }
}

/// A text at two places counts at least twice.
proof fn lemma_twice(ns: Seq<Seq<char>>, i: int, j: int)
    requires
        0 <= i < j < ns.len(),
        ns[i] == ns[j],
    ensures
        ns.to_multiset().count(ns[i]) >= 2,
{
    broadcast use vstd::seq_lib::group_to_multiset_ensures;

    let x = ns[i];
    let d = ns.remove(j);
    assert(d[i] == x);
    assert(d.contains(x));
    assert(d.to_multiset().count(x) > 0);
    assert(ns.to_multiset() =~= d.to_multiset().insert(x)) by {
        assert(d.insert(j, x) =~= ns);
    }
}

/// The server of this name. This machine is one; any other has to be known.
pub fn resolve(name: &str, registry: &Registry) -> (r: Result<ActiveServer, ServerError>)
    requires
        registry.wf(),
    ensures
        if name@ == "localhost"@ {
            r matches Ok(s) && s is Localhost
        } else if registry@.contains_key(name@) {
            r matches Ok(ActiveServer::Remote { name: n }) && n@ == name@
        } else {
            r matches Err(ServerError::Unknown { name: n }) && n@ == name@
        },
{
    if same(name, "localhost") {
        return Ok(ActiveServer::Localhost);
    }
    match registry.get(name) {
        Some(_) => Ok(ActiveServer::Remote { name: name.to_string() }),
        None => Err(ServerError::Unknown { name: name.to_string() }),
    }
}

/// The SSH target of the server with this name: none for this machine. A server
/// that was found has a target.
pub fn target_of(name: &str, registry: &Registry) -> (r: Result<Option<String>, ServerError>)
    requires
        registry.wf(),
    ensures
        if name@ == "localhost"@ {
            r matches Ok(t) && t is None
        } else if registry@.contains_key(name@) {
            r matches Ok(t) && opt_text(t) == Some(registry@[name@])
        } else {
            r matches Err(ServerError::Unknown { name: n }) && n@ == name@
        },
{
    match resolve(name, registry) {
        Ok(server) => server.target(registry),
        Err(e) => Err(e),
    }
}

} // verus!
