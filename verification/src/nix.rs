use vstd::prelude::*;

use crate::config::PersistConfig;
use crate::json::{
    field, field_in, json_views, lemma_array_view, lemma_object_view, member_from, member_index,
    member_views, parse_json, same_text, text_holds, text_in, Json, JsonView, Member, MemberView,
};
use crate::text::{
    holds, join, joined, lemma_views_push, occurs_at, opt_text, opt_view, replace_char, replaced,
    trim, trimmed, views,
};

verus! {

// ---------------------------------------------------------------------
// JSON as a nix expression
// ---------------------------------------------------------------------

/// The inside of a nix string that says `s`.
pub open spec fn nix_inside(s: Seq<char>) -> Seq<char> {
    replaced(replaced(s, '\\', "\\\\"@), '"', "\\\""@)
}

/// A JSON value as a nix expression.
pub open spec fn nix_of(j: JsonView) -> Seq<char>
    decreases j,
{
    match j {
        JsonView::Null => "null"@,
        JsonView::Bool(b) => if b {
            "true"@
        } else {
            "false"@
        },
        JsonView::Number(t) => t,
        JsonView::Text(t) => "\""@ + nix_inside(t) + "\""@,
        JsonView::Array(items) => "[ "@ + joined(nix_items(items), " "@) + " ]"@,
        JsonView::Object(members) => "{ "@ + joined(nix_members(members), " "@) + " }"@,
    }
}

/// The items of an array as nix expressions.
pub open spec fn nix_items(items: Seq<JsonView>) -> Seq<Seq<char>>
    decreases items,
{
    if items.len() == 0 {
        Seq::empty()
    } else {
        nix_items(items.drop_last()).push(nix_of(items.last()))
    }
}

/// The members of an object as nix bindings.
pub open spec fn nix_members(members: Seq<MemberView>) -> Seq<Seq<char>>
    decreases members,
{
    if members.len() == 0 {
        Seq::empty()
    } else {
        nix_members(members.drop_last()).push(
            members.last().key + " = "@ + nix_of(members.last().value) + ";"@,
        )
    }
}

/// A JSON value as a nix expression.
pub fn json_to_nix(val: &Json) -> (r: String)
    ensures
        r@ == nix_of(val@),
    decreases val,
{
    match val {
        Json::Null => "null".to_string(),
        Json::Bool(b) => if *b {
            "true".to_string()
        } else {
            "false".to_string()
        },
        Json::Number(t) => t.clone(),
        Json::Text(t) => {
            let inside = replace_char(replace_char(t.as_str(), '\\', "\\\\").as_str(), '"', "\\\"");
            let mut s = "\"".to_string();
            s.append(inside.as_str());
            s.append("\"");
            s
        },
        Json::Array(items) => {
            let ghost all = json_views(items@);
            proof {
                lemma_array_view(*items);
            }
            let mut parts: Vec<String> = Vec::new();
            for i in 0..items.len()
                invariant
                    val == &Json::Array(*items),
                    all == json_views(items@),
                    views(parts@) =~= nix_items(all.take(i as int)),
            {
                proof {
                    assert(decreases_to!(*val => val->Array_0));
                    assert(decreases_to!(*items => items@));
                    assert(decreases_to!(items@ => items@[i as int]));
                    assert(all.take(i + 1).drop_last() =~= all.take(i as int));
                    assert(all.take(i + 1).last() == items@[i as int]@);
                }
                let p = json_to_nix(&items[i]);
                proof {
                    lemma_views_push(parts@, p);
                }
                parts.push(p);
            }
            proof {
                assert(all.take(items@.len() as int) =~= all);
            }
            let mut s = "[ ".to_string();
            s.append(join(&parts, " ").as_str());
            s.append(" ]");
            s
        },
        Json::Object(members) => {
            let ghost all = member_views(members@);
            proof {
                lemma_object_view(*members);
            }
            let mut parts: Vec<String> = Vec::new();
            for i in 0..members.len()
                invariant
                    val == &Json::Object(*members),
                    all == member_views(members@),
                    views(parts@) =~= nix_members(all.take(i as int)),
            {
                proof {
                    assert(decreases_to!(*val => val->Object_0));
                    assert(decreases_to!(*members => members@));
                    assert(decreases_to!(members@ => members@[i as int]));
                    assert(decreases_to!(members@[i as int] => members@[i as int].value));
                    assert(all.take(i + 1).drop_last() =~= all.take(i as int));
                    assert(all.take(i + 1).last() == members@[i as int]@);
                }
                let mut p = members[i].key.clone();
                p.append(" = ");
                p.append(json_to_nix(&members[i].value).as_str());
                p.append(";");
                proof {
                    lemma_views_push(parts@, p);
                }
                parts.push(p);
            }
            proof {
                assert(all.take(members@.len() as int) =~= all);
            }
            let mut s = "{ ".to_string();
            s.append(join(&parts, " ").as_str());
            s.append(" }");
            s
        },
    }
}

/// What nix reads between the quotes of a string. A backslash takes the next
/// character as it is, if that is a backslash or a quote. This reading does not
/// cover a string that ends early, another escape, `${`, which may start an
/// expression, and a carriage return, which nix does not keep.
pub open spec fn nix_reads(t: Seq<char>) -> Option<Seq<char>>
    decreases t.len(),
{
    if t.len() == 0 {
        Some(t)
    } else if t[0] == '\\' {
        if t.len() > 1 && (t[1] == '\\' || t[1] == '"') {
            match nix_reads(t.skip(2)) {
                Some(rest) => Some(seq![t[1]] + rest),
                None => None,
            }
        } else {
            None
        }
    } else if t[0] == '"' || t[0] == '\r' || (t[0] == '$' && t.len() > 1 && t[1] == '{') {
        None
    } else {
        match nix_reads(t.skip(1)) {
            Some(rest) => Some(seq![t[0]] + rest),
            None => None,
        }
    }
}

/// What one character becomes between the quotes of a nix string.
spec fn nix_char(c: char) -> Seq<char> {
    if c == '\\' || c == '"' {
        seq!['\\', c]
    } else {
        seq![c]
    }
}

proof fn lemma_replaced_concat(a: Seq<char>, b: Seq<char>, c: char, with: Seq<char>)
    ensures
        replaced(a + b, c, with) == replaced(a, c, with) + replaced(b, c, with),
    decreases b.len(),
{
    if b.len() == 0 {
        assert(a + b =~= a);
        assert(replaced(a, c, with) + replaced(b, c, with) =~= replaced(a, c, with));
    } else {
        let d = b.drop_last();
        lemma_replaced_concat(a, d, c, with);
        assert((a + b).drop_last() =~= a + d);
        assert((a + b).last() == b.last());
        let t = if b.last() == c {
            with
        } else {
            seq![b.last()]
        };
        assert(replaced(a, c, with) + replaced(d, c, with) + t =~= replaced(a, c, with) + (replaced(
            d,
            c,
            with,
        ) + t));
    }
}

proof fn lemma_replaced_one(x: char, c: char, with: Seq<char>)
    ensures
        replaced(seq![x], c, with) == if x == c {
            with
        } else {
            seq![x]
        },
{
    let s = seq![x];
    assert(s.drop_last() =~= Seq::<char>::empty());
    assert(replaced(s.drop_last(), c, with) =~= Seq::<char>::empty());
    assert(replaced(s, c, with) =~= if x == c {
        with
    } else {
        seq![x]
    });
}

proof fn lemma_nix_inside_front(c: char, s: Seq<char>)
    ensures
        nix_inside(seq![c] + s) == nix_char(c) + nix_inside(s),
{
    reveal_strlit("\\\\");
    reveal_strlit("\\\"");
    let bs = "\\\\"@;
    let q = "\\\""@;
    lemma_replaced_concat(seq![c], s, '\\', bs);
    lemma_replaced_one(c, '\\', bs);
    let first = replaced(seq![c], '\\', bs);
    let rest = replaced(s, '\\', bs);
    lemma_replaced_concat(first, rest, '"', q);
    if c == '\\' {
        assert(first =~= seq!['\\'] + seq!['\\']);
        lemma_replaced_concat(seq!['\\'], seq!['\\'], '"', q);
        lemma_replaced_one('\\', '"', q);
        assert(replaced(first, '"', q) =~= nix_char(c));
    } else {
        lemma_replaced_one(c, '"', q);
        assert(replaced(first, '"', q) =~= nix_char(c));
    }
}

proof fn lemma_nix_reads(s: Seq<char>)
    requires
        forall|i: int| 0 <= i < s.len() - 1 && #[trigger] s[i] == '$' ==> s[i + 1] != '{',
        !s.contains('\r'),
    ensures
        nix_reads(nix_inside(s)) == Some(s),
        s.len() > 0 && s[0] != '{' ==> nix_inside(s)[0] != '{',
        nix_inside(s).len() > 0 ==> s.len() > 0,
    decreases s.len(),
{
    if s.len() == 0 {
        assert(s =~= Seq::<char>::empty());
        assert(nix_inside(s) =~= s);
    } else {
        let c = s[0];
        let rest = s.skip(1);
        assert(s =~= seq![c] + rest);
        assert forall|i: int| 0 <= i < rest.len() - 1 && #[trigger] rest[i] == '$' implies rest[i
            + 1] != '{' by {
            assert(s[i + 1] == '$');
            assert(s[i + 2] == rest[i + 1]);
        }
        assert(s.contains(c));
        assert(!rest.contains('\r')) by {
            if rest.contains('\r') {
                let k = rest.index_of('\r');
                assert(s[k + 1] == '\r');
            }
        }
        lemma_nix_inside_front(c, rest);
        lemma_nix_reads(rest);
        let t = nix_inside(s);
        if c == '\\' || c == '"' {
            assert(t.skip(2) =~= nix_inside(rest));
        } else {
            assert(t.skip(1) =~= nix_inside(rest));
            if c == '$' && t.len() > 1 {
                assert(t[1] == nix_inside(rest)[0]);
                assert(rest[0] == s[1]);
            }
        }
    }
}

/// A text reaches nix unchanged: what nix reads between the quotes is the text,
/// unless it holds `${` or a carriage return.
pub proof fn law_nix_text_is_read_back(s: Seq<char>)
    requires
        !holds(s, "${"@),
        !s.contains('\r'),
    ensures
        nix_of(JsonView::Text(s)) == "\""@ + nix_inside(s) + "\""@,
        nix_reads(nix_inside(s)) == Some(s),
{
    reveal_strlit("${");
    assert forall|i: int| 0 <= i < s.len() - 1 && #[trigger] s[i] == '$' implies s[i + 1]
        != '{' by {
        if s[i + 1] == '{' {
            assert(s.subrange(i, i + 2) =~= "${"@);
            assert(occurs_at(s, "${"@, i));
        }
    }
    lemma_nix_reads(s);
}

// ---------------------------------------------------------------------
// The host configuration
// ---------------------------------------------------------------------

/// The name of the user in a host configuration.
pub open spec fn user_name(config: JsonView) -> Option<Seq<char>> {
    text_in(field_in(field(config, "user"@), "name"@))
}

/// The name of the user in a host configuration.
pub fn host_user(config: &Json) -> (r: Option<String>)
    ensures
        opt_text(r) == user_name(config@),
{
    match config.get("user") {
        Some(user) => match user.get("name") {
            Some(name) => match name.as_text() {
                Some(t) => Some(t.to_string()),
                None => None,
            },
            None => None,
        },
        None => None,
    }
}

/// The name of the user in the host configuration with this text; none, where
/// there is no such file or it is no JSON.
pub fn read_host_config_user(text: Option<&str>) -> (r: Option<String>)
    ensures
        opt_text(r) == match text {
            Some(t) => match text_holds(t@) {
                Some(config) => user_name(config),
                None => None,
            },
            None => None,
        },
{
    match text {
        Some(t) => match parse_json(t) {
            Some(config) => host_user(&config),
            None => None,
        },
        None => None,
    }
}

/// An array with a text more at its end, unless it has it; anything else as it
/// is.
pub open spec fn with_text(j: JsonView, t: Seq<char>) -> JsonView {
    match j {
        JsonView::Array(items) => if items.contains(JsonView::Text(t)) {
            j
        } else {
            JsonView::Array(items.push(JsonView::Text(t)))
        },
        _ => j,
    }
}

/// An object with `value` in the place of what it holds under a key that it
/// has; anything else as it is.
pub open spec fn with_field(j: JsonView, key: Seq<char>, value: JsonView) -> JsonView {
    match j {
        JsonView::Object(members) => match member_from(members, key, 0) {
            Some(i) => JsonView::Object(members.update(i, MemberView { key, value })),
            None => j,
        },
        _ => j,
    }
}

/// A host configuration whose user takes one more key.
pub open spec fn authorized(config: JsonView, key: Seq<char>) -> JsonView {
    match field(config, "user"@) {
        Some(user) => match field(user, "authorizedKeys"@) {
            Some(keys) => with_field(
                config,
                "user"@,
                with_field(user, "authorizedKeys"@, with_text(keys, key)),
            ),
            None => config,
        },
        None => config,
    }
}

fn add_text(j: Json, t: &str) -> (r: Json)
    ensures
        r@ == with_text(j@, t@),
{
    match j {
        Json::Array(items) => {
            let mut items = items;
            let ghost before = items@;
            let ghost said = json_views(before);
            proof {
                lemma_array_view(items);
            }
            for i in 0..items.len()
                invariant
                    items@ == before,
                    j@ == JsonView::Array(said),
                    said == json_views(before),
                    forall|k: int| 0 <= k < i ==> #[trigger] said[k] != JsonView::Text(t@),
            {
                proof {
                    assert(said[i as int] == items@[i as int]@);
                }
                if same_text(&items[i], t) {
                    proof {
                        lemma_array_view(items);
                        assert(said[i as int] == JsonView::Text(t@));
                    }
                    return Json::Array(items);
                }
            }
            items.push(Json::Text(t.to_string()));
            proof {
                lemma_array_view(items);
                assert(json_views(items@) =~= said.push(JsonView::Text(t@)));
                assert(!said.contains(JsonView::Text(t@)));
            }
            Json::Array(items)
        },
        other => other,
    }
}

proof fn lemma_found(members: Seq<MemberView>, key: Seq<char>, from: int)
    requires
        0 <= from,
    ensures
        match member_from(members, key, from) {
            Some(i) => from <= i < members.len() && members[i].key == key,
            None => true,
        },
    decreases members.len() - from,
{
    if from < members.len() && members[from].key != key {
        lemma_found(members, key, from + 1);
    }
}

fn add_key_to_user(user: Json, key: &str) -> (r: Json)
    ensures
        r@ == match field(user@, "authorizedKeys"@) {
            Some(keys) => with_field(user@, "authorizedKeys"@, with_text(keys, key@)),
            None => user@,
        },
{
    match user {
        Json::Object(members) => {
            let mut members = members;
            let ghost before = member_views(members@);
            proof {
                lemma_object_view(members);
                lemma_found(before, "authorizedKeys"@, 0);
            }
            match member_index(&members, "authorizedKeys") {
                Some(i) => {
                    let ghost old_members = members@;
                    let m = members.remove(i);
                    proof {
                        assert(before[i as int] == m@);
                    }
                    let value = add_text(m.value, key);
                    members.insert(i, Member { key: m.key, value });
                    proof {
                        lemma_object_view(members);
                        assert(member_views(members@) =~= before.update(
                            i as int,
                            MemberView { key: "authorizedKeys"@, value: value@ },
                        ));
                    }
                    Json::Object(members)
                },
                None => Json::Object(members),
            }
        },
        other => other,
    }
}

/// Let a host configuration's user be reached with one more key, where the
/// configuration lists the keys that it takes.
pub fn authorize(config: Json, key: &str) -> (r: Json)
    ensures
        r@ == authorized(config@, key@),
{
    match config {
        Json::Object(members) => {
            let mut members = members;
            let ghost before = member_views(members@);
            proof {
                lemma_object_view(members);
                lemma_found(before, "user"@, 0);
            }
            match member_index(&members, "user") {
                Some(i) => {
                    let m = members.remove(i);
                    proof {
                        assert(before[i as int] == m@);
                    }
                    let ghost user = m.value@;
                    let value = add_key_to_user(m.value, key);
                    members.insert(i, Member { key: m.key, value });
                    proof {
                        lemma_object_view(members);
                        assert(member_views(members@) =~= before.update(
                            i as int,
                            MemberView { key: "user"@, value: value@ },
                        ));
                        if field(user, "authorizedKeys"@) is None {
                            assert(before.update(
                                i as int,
                                MemberView { key: "user"@, value: user },
                            ) =~= before);
                        }
                    }
                    Json::Object(members)
                },
                None => Json::Object(members),
            }
        },
        other => other,
    }
}

/// A host configuration as a nix expression, with the host's own key among
/// those that its user takes, where the host has one.
pub open spec fn host_nix_of(config: JsonView, pubkey: Option<Seq<char>>) -> Seq<char> {
    match pubkey {
        Some(k) => nix_of(authorized(config, trimmed(k))),
        None => nix_of(config),
    }
}

/// A host configuration as a nix expression, with the host's own key among
/// those that its user takes, where the host has one.
pub fn host_nix(config: Json, pubkey: Option<&str>) -> (r: String)
    ensures
        r@ == host_nix_of(config@, opt_view(pubkey)),
{
    match pubkey {
        Some(k) => json_to_nix(&authorize(config, trim(k))),
        None => json_to_nix(&config),
    }
}

/// The host configuration is no JSON.
#[derive(Debug)]
pub struct BadHostConfig;

impl BadHostConfig {
    pub fn message(&self) -> (r: String)
        ensures
            r@ == "parsing host-config.json"@,
    {
        "parsing host-config.json".to_string()
    }
}

/// The host configuration with this text as a nix expression; without the file
/// it is empty.
pub fn host_config_nix(text: Option<&str>, pubkey: Option<&str>) -> (r: Result<
    String,
    BadHostConfig,
>)
    ensures
        match text {
            Some(t) => match text_holds(t@) {
                Some(config) => r matches Ok(s) && s@ == host_nix_of(config, opt_view(pubkey)),
                None => r is Err,
            },
            None => r matches Ok(s) && s@ == "{}"@,
        },
{
    match text {
        Some(t) => match parse_json(t) {
            Some(config) => Ok(host_nix(config, pubkey)),
            None => Err(BadHostConfig),
        },
        None => Ok("{}".to_string()),
    }
}

/// Once a key is taken, taking it again changes nothing.
pub proof fn law_authorize_once(config: JsonView, key: Seq<char>)
    ensures
        authorized(authorized(config, key), key) == authorized(config, key),
{
    let u = "user"@;
    let a = "authorizedKeys"@;
    match field(config, u) {
        Some(user) => match field(user, a) {
            Some(keys) => {
                let keys1 = with_text(keys, key);
                let user1 = with_field(user, a, keys1);
                let config1 = with_field(config, u, user1);
                lemma_with_field(user, a, keys1);
                lemma_with_field(config, u, user1);
                assert(with_text(keys1, key) == keys1) by {
                    match keys {
                        JsonView::Array(items) => {
                            if !items.contains(JsonView::Text(key)) {
                                let more = items.push(JsonView::Text(key));
                                assert(more[items.len() as int] == JsonView::Text(key));
                                assert(more.contains(JsonView::Text(key)));
                            }
                        },
                        _ => {},
                    }
                }
            },
            None => {},
        },
        None => {},
    }
}

/// A field that was set holds what it was set to, and setting it again changes
/// nothing.
proof fn lemma_with_field(j: JsonView, key: Seq<char>, value: JsonView)
    requires
        field(j, key) is Some,
    ensures
        field(with_field(j, key, value), key) == Some(value),
        with_field(with_field(j, key, value), key, value) == with_field(j, key, value),
{
    match j {
        JsonView::Object(members) => {
            lemma_found(members, key, 0);
            let i = member_from(members, key, 0)->0;
            let m1 = members.update(i, MemberView { key, value });
            lemma_member_from_update(members, key, value, i, 0);
            assert(m1.update(i, MemberView { key, value }) =~= m1);
        },
        _ => {},
    }
}

proof fn lemma_member_from_update(
    members: Seq<MemberView>,
    key: Seq<char>,
    value: JsonView,
    i: int,
    from: int,
)
    requires
        0 <= from <= i < members.len(),
        member_from(members, key, from) == Some(i),
    ensures
        member_from(members.update(i, MemberView { key, value }), key, from) == Some(i),
    decreases i - from,
{
    if from < i {
        lemma_found(members, key, from);
        lemma_member_from_update(members, key, value, i, from + 1);
    }
}

// ---------------------------------------------------------------------
// The flake of an env
// ---------------------------------------------------------------------

/// What the flake of an env depends on.
pub struct FlakeFacts {
    pub name: String,
    pub ip: String,
    pub env_dir: String,
    pub repo: String,
    /// The host configuration, as a nix expression.
    pub host_config: String,
    /// The configuration of the server, where it has one.
    pub server_config: Option<String>,
    /// The configuration of the repo, where it has one.
    pub repo_config: Option<String>,
}

/// What the flake of an env depends on.
pub struct FlakeView {
    pub name: Seq<char>,
    pub ip: Seq<char>,
    pub env_dir: Seq<char>,
    pub repo: Seq<char>,
    pub host_config: Seq<char>,
    pub server_config: Option<Seq<char>>,
    pub repo_config: Option<Seq<char>>,
}

impl View for FlakeFacts {
    type V = FlakeView;

    open spec fn view(&self) -> FlakeView {
        FlakeView {
            name: self.name@,
            ip: self.ip@,
            env_dir: self.env_dir@,
            repo: self.repo@,
            host_config: self.host_config@,
            server_config: opt_text(self.server_config),
            repo_config: opt_text(self.repo_config),
        }
    }
}

/// The inputs that an env has for a configuration.
pub open spec fn extra_input(name: Seq<char>, dir: Option<Seq<char>>) -> Seq<char> {
    match dir {
        Some(d) => "    "@ + name + ".url = \"path:"@ + d + "\";\n"@,
        None => ""@,
    }
}

/// The modules that an env takes from its configurations.
pub open spec fn modules_nix(server: bool, repo: bool) -> Seq<char> {
    if server && repo {
        "      modules = [ inputs.serverConfig.nixosModule inputs.repoConfig.nixosModule ];"@
    } else if server {
        "      modules = [ inputs.serverConfig.nixosModule ];"@
    } else if repo {
        "      modules = [ inputs.repoConfig.nixosModule ];"@
    } else {
        ""@
    }
}

pub open spec fn persist_entry(path: Seq<char>) -> Seq<char> {
    "{ path = \""@ + replaced(path, '"', "\\\""@) + "\"; }"@
}

/// The directories that an env keeps.
pub open spec fn persist_nix(persist: Seq<PersistConfig>) -> Seq<char> {
    if persist.len() == 0 {
        ""@
    } else {
        "      persist = [ "@ + joined(
            persist.map_values(|p: PersistConfig| persist_entry(p.path@)),
            " "@,
        ) + " ];\n"@
    }
}

/// The text of an env's flake.
pub open spec fn flake_of(f: FlakeView, persist: Seq<PersistConfig>) -> Seq<char> {
    "{\n  inputs = {\n    nixpkgs.url = \"github:NixOS/nixpkgs/nixpkgs-unstable\";\n    vitro.url = \"github:ixxie/vitro\";\n    microvm = {\n      url = \"github:microvm-nix/microvm.nix\";\n      inputs.nixpkgs.follows = \"nixpkgs\";\n    };\n"@
        + (extra_input("serverConfig"@, f.server_config) + extra_input(
        "repoConfig"@,
        f.repo_config,
    ))
        + "  };\n\n  outputs = { nixpkgs, vitro, microvm, ... } @ inputs:\n    vitro.lib.mkEnv { inherit vitro nixpkgs microvm; } {\n      name = \""@
        + f.name + "\";\n      ip = \""@ + f.ip + "\";\n      envDir = \""@ + f.env_dir
        + "\";\n      repo = \""@ + f.repo + "\";\n      hostConfig = "@ + f.host_config + ";\n"@
        + modules_nix(f.server_config is Some, f.repo_config is Some) + persist_nix(persist)
        + "    };\n}\n"@
}

fn input_text(name: &str, dir: &Option<String>) -> (r: String)
    ensures
        r@ == extra_input(name@, opt_text(*dir)),
{
    match dir {
        Some(d) => {
            let mut s = "    ".to_string();
            s.append(name);
            s.append(".url = \"path:");
            s.append(d.as_str());
            s.append("\";\n");
            s
        },
        None => "".to_string(),
    }
}

fn modules_text(server: bool, repo: bool) -> (r: String)
    ensures
        r@ == modules_nix(server, repo),
{
    if server && repo {
        "      modules = [ inputs.serverConfig.nixosModule inputs.repoConfig.nixosModule ];".to_string()
    } else if server {
        "      modules = [ inputs.serverConfig.nixosModule ];".to_string()
    } else if repo {
        "      modules = [ inputs.repoConfig.nixosModule ];".to_string()
    } else {
        "".to_string()
    }
}

fn persist_text(persist: &Vec<PersistConfig>) -> (r: String)
    ensures
        r@ == persist_nix(persist@),
{
    if persist.len() == 0 {
        return "".to_string();
    }
    let ghost entry = |p: PersistConfig| persist_entry(p.path@);
    let mut parts: Vec<String> = Vec::new();
    for i in 0..persist.len()
        invariant
            entry == (|p: PersistConfig| persist_entry(p.path@)),
            views(parts@) =~= persist@.take(i as int).map_values(entry),
    {
        let mut p = "{ path = \"".to_string();
        p.append(replace_char(persist[i].path.as_str(), '"', "\\\"").as_str());
        p.append("\"; }");
        proof {
            lemma_views_push(parts@, p);
        }
        parts.push(p);
    }
    proof {
        assert(persist@.take(persist@.len() as int) =~= persist@);
    }
    let mut s = "      persist = [ ".to_string();
    s.append(join(&parts, " ").as_str());
    s.append(" ];\n");
    s
}

/// The text of an env's flake.
pub fn flake_text(f: &FlakeFacts, persist: &Vec<PersistConfig>) -> (r: String)
    ensures
        r@ == flake_of(f@, persist@),
{
    let mut inputs = input_text("serverConfig", &f.server_config);
    inputs.append(input_text("repoConfig", &f.repo_config).as_str());
    let mut s = "{\n  inputs = {\n    nixpkgs.url = \"github:NixOS/nixpkgs/nixpkgs-unstable\";\n    vitro.url = \"github:ixxie/vitro\";\n    microvm = {\n      url = \"github:microvm-nix/microvm.nix\";\n      inputs.nixpkgs.follows = \"nixpkgs\";\n    };\n".to_string();
    s.append(inputs.as_str());
    s.append("  };\n\n  outputs = { nixpkgs, vitro, microvm, ... } @ inputs:\n    vitro.lib.mkEnv { inherit vitro nixpkgs microvm; } {\n      name = \"");
    s.append(f.name.as_str());
    s.append("\";\n      ip = \"");
    s.append(f.ip.as_str());
    s.append("\";\n      envDir = \"");
    s.append(f.env_dir.as_str());
    s.append("\";\n      repo = \"");
    s.append(f.repo.as_str());
    s.append("\";\n      hostConfig = ");
    s.append(f.host_config.as_str());
    s.append(";\n");
    s.append(modules_text(f.server_config.is_some(), f.repo_config.is_some()).as_str());
    s.append(persist_text(persist).as_str());
    s.append("    };\n}\n");
    s
}

} // verus!
