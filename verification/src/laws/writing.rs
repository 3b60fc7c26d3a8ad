use vstd::prelude::*;

use crate::json::{
    compact, field, field_in, lemma_array_view, lemma_object_view, member_from, quoted, text_holds,
    text_in, write_json, Json, JsonView, Member, MemberView,
};
use crate::laws::registering::is_list;
use crate::nix::{
    authorize, host_config_nix, host_nix, host_user, json_to_nix, law_nix_text_is_read_back,
    nix_inside, nix_items, nix_members, nix_of, nix_reads, read_host_config_user, with_field,
    with_text, BadHostConfig,
};
use crate::proxy::{CredentialRule, EnvEgress, EnvEgressRules, EnvRules};
use crate::registered::{
    credentials_kept, egress_kept, env_json, env_view, envs_json, envs_text, reach_kept,
};
use crate::text::{holds, joined, trimmed, views};

verus! {

// ---------------------------------------------------------------------
// JSON as nix
// ---------------------------------------------------------------------

/// Null, truth and numbers are written as they are, and a text so that nix reads it
/// back.
pub proof fn law_nix_of_plain(
    n: String,
    t: String,
    null: String,
    yes: String,
    no: String,
    number: String,
    text: String,
)
    requires
        call_ensures(json_to_nix, (&Json::Null,), null),
        call_ensures(json_to_nix, (&Json::Bool(true),), yes),
        call_ensures(json_to_nix, (&Json::Bool(false),), no),
        call_ensures(json_to_nix, (&Json::Number(n),), number),
        call_ensures(json_to_nix, (&Json::Text(t),), text),
        !holds(t@, "${"@),
        !t@.contains('\r'),
    ensures
        null@ == "null"@,
        yes@ == "true"@,
        no@ == "false"@,
        number@ == n@,
        exists|inside: Seq<char>|
            text@ == "\""@ + inside + "\""@ && #[trigger] nix_reads(inside) == Some(t@),
{
    law_nix_text_is_read_back(t@);
    assert(nix_reads(nix_inside(t@)) == Some(t@));
}

/// An array is written item by item, with blanks between the items.
pub proof fn law_nix_of_array(items: Vec<Json>, parts: Vec<String>, r: String)
    requires
        call_ensures(json_to_nix, (&Json::Array(items),), r),
        parts@.len() == items@.len(),
        forall|i: int|
            0 <= i < items@.len() ==> call_ensures(
                json_to_nix,
                (&items@[i],),
                #[trigger] parts@[i],
            ),
    ensures
        r@ == "[ "@ + joined(views(parts@), " "@) + " ]"@,
{
    lemma_array_view(items);
    let said = crate::json::json_views(items@);
    lemma_nix_items(said);
    assert forall|i: int| 0 <= i < said.len() implies nix_items(said)[i] == views(parts@)[i] by {
        assert(call_ensures(json_to_nix, (&items@[i],), parts@[i]));
        assert(views(parts@)[i] == parts@[i]@);
        assert(said[i] == items@[i]@);
    }
    assert(nix_items(said) =~= views(parts@));
}

proof fn lemma_nix_items(items: Seq<JsonView>)
    ensures
        nix_items(items).len() == items.len(),
        forall|i: int|
            0 <= i < items.len() ==> #[trigger] nix_items(items)[i] == nix_of(items[i]),
    decreases items.len(),
{
    if items.len() > 0 {
        lemma_nix_items(items.drop_last());
    }
}

/// An object is written member by member, each under its key, with blanks between
/// the members.
pub proof fn law_nix_of_object(
    members: Vec<Member>,
    parts: Vec<String>,
    bindings: Seq<Seq<char>>,
    r: String,
)
    requires
        call_ensures(json_to_nix, (&Json::Object(members),), r),
        parts@.len() == members@.len(),
        forall|i: int|
            0 <= i < members@.len() ==> call_ensures(
                json_to_nix,
                (&members@[i].value,),
                #[trigger] parts@[i],
            ),
        bindings.len() == members@.len(),
        forall|i: int|
            0 <= i < members@.len() ==> #[trigger] bindings[i] == members@[i].key@ + " = "@
                + parts@[i]@ + ";"@,
    ensures
        r@ == "{ "@ + joined(bindings, " "@) + " }"@,
{
    lemma_object_view(members);
    let said = crate::json::member_views(members@);
    lemma_nix_members(said);
    assert forall|i: int| 0 <= i < said.len() implies nix_members(said)[i] == bindings[i] by {
        assert(call_ensures(json_to_nix, (&members@[i].value,), parts@[i]));
        assert(said[i].key == members@[i].key@);
        assert(said[i].value == members@[i].value@);
    }
    assert(nix_members(said) =~= bindings);
}

proof fn lemma_nix_members(members: Seq<MemberView>)
    ensures
        nix_members(members).len() == members.len(),
        forall|i: int|
            0 <= i < members.len() ==> #[trigger] nix_members(members)[i] == members[i].key
                + " = "@ + nix_of(members[i].value) + ";"@,
    decreases members.len(),
{
    if members.len() > 0 {
        lemma_nix_members(members.drop_last());
    }
}

// ---------------------------------------------------------------------
// The configuration of a host
// ---------------------------------------------------------------------

/// The user of a host is named in its configuration; without the file, or where it
/// is no JSON or names none, nobody is.
pub proof fn law_user_of_host(
    config: &Json,
    user: Option<String>,
    text: &str,
    read: Option<String>,
    none: Option<String>,
    name: Seq<char>,
)
    requires
        call_ensures(host_user, (config,), user),
        call_ensures(read_host_config_user, (Some(text),), read),
        call_ensures(read_host_config_user, (None::<&str>,), none),
    ensures
        none is None,
        (field(config@, "user"@) matches Some(u) && field(u, "name"@) == Some(
            JsonView::Text(name),
        )) ==> (user matches Some(n) && n@ == name),
        field(config@, "user"@) is None ==> user is None,
        text_holds(text@) is None ==> read is None,
        text_holds(text@) == Some(config@) ==> (read is Some <==> user is Some) && (read
            matches Some(n) ==> n@ == user->0@),
{
}

/// A member of an object that is not under this key is the same in both.
pub open spec fn same_but(a: JsonView, b: JsonView, key: Seq<char>) -> bool {
    a matches JsonView::Object(m) && b matches JsonView::Object(n) && m.len() == n.len()
        && forall|i: int|
        0 <= i < m.len() ==> (#[trigger] m[i]).key == n[i].key && (m[i].key != key ==> m[i].value
            == n[i].value)
}

/// A host whose configuration lists the keys that its user takes takes one more,
/// behind all of those, unless it took it before; nothing else of the configuration
/// changes. One that lists none stays as it is.
pub proof fn law_key_is_taken(config: Json, key: &str, r: Json)
    requires
        call_ensures(authorize, (config, key), r),
    ensures
        field_in(field(config@, "user"@), "authorizedKeys"@) is None ==> r@ == config@,
        field_in(field(config@, "user"@), "authorizedKeys"@) matches Some(JsonView::Array(keys))
            ==> {
            let more = field_in(field(r@, "user"@), "authorizedKeys"@);
            &&& keys.contains(JsonView::Text(key@)) ==> more == Some(JsonView::Array(keys))
            &&& !keys.contains(JsonView::Text(key@)) ==> more == Some(
                JsonView::Array(keys.push(JsonView::Text(key@))),
            )
            &&& same_but(config@, r@, "user"@)
            &&& same_but(field(config@, "user"@)->0, field(r@, "user"@)->0, "authorizedKeys"@)
        },
{
    if let Some(user) = field(config@, "user"@) {
        if let Some(keys) = field(user, "authorizedKeys"@) {
            let keys1 = with_text(keys, key@);
            let user1 = with_field(user, "authorizedKeys"@, keys1);
            lemma_with_field(user, "authorizedKeys"@, keys1);
            lemma_with_field(config@, "user"@, user1);
        }
    }
}

proof fn lemma_with_field(j: JsonView, key: Seq<char>, value: JsonView)
    requires
        field(j, key) is Some,
    ensures
        field(with_field(j, key, value), key) == Some(value),
        same_but(j, with_field(j, key, value), key),
{
    let members = j->Object_0;
    lemma_first_member(members, key, 0);
    let i = member_from(members, key, 0)->0;
    let with = members.update(i, MemberView { key, value });
    lemma_member_at(with, key, i, 0);
}

proof fn lemma_first_member(members: Seq<MemberView>, key: Seq<char>, from: int)
    requires
        0 <= from,
    ensures
        member_from(members, key, from) matches Some(i) ==> from <= i < members.len()
            && members[i].key == key && forall|j: int|
            from <= j < i ==> (#[trigger] members[j]).key != key,
    decreases members.len() - from,
{
    if from < members.len() && members[from].key != key {
        lemma_first_member(members, key, from + 1);
    }
}

proof fn lemma_member_at(members: Seq<MemberView>, key: Seq<char>, i: int, from: int)
    requires
        0 <= from <= i < members.len(),
        members[i].key == key,
        forall|j: int| from <= j < i ==> (#[trigger] members[j]).key != key,
    ensures
        member_from(members, key, from) == Some(i),
    decreases i - from,
{
    if from < i {
        assert(members[from].key != key);
        lemma_member_at(members, key, i, from + 1);
    }
}

/// The configuration of a host is written with its own key taken, where it has one,
/// without the white space around it; without the file it is empty, and what is no
/// JSON is refused.
pub proof fn law_host_is_written(
    config: Json,
    text: &str,
    pubkey: &str,
    key: &str,
    with_key: Json,
    written: String,
    bare: String,
    a: String,
    b: String,
    r: Result<String, BadHostConfig>,
    s: Result<String, BadHostConfig>,
    none: Result<String, BadHostConfig>,
)
    requires
        key@ == trimmed(pubkey@),
        call_ensures(authorize, (config, key), with_key),
        call_ensures(json_to_nix, (&with_key,), written),
        call_ensures(json_to_nix, (&config,), bare),
        call_ensures(host_nix, (config, Some(pubkey)), a),
        call_ensures(host_nix, (config, None::<&str>), b),
        call_ensures(host_config_nix, (Some(text), Some(pubkey)), r),
        call_ensures(host_config_nix, (Some(text), None::<&str>), s),
        call_ensures(host_config_nix, (None::<&str>, Some(pubkey)), none),
    ensures
        a@ == written@,
        b@ == bare@,
        text_holds(text@) == Some(config@) ==> (r matches Ok(t) && t@ == written@) && (s
            matches Ok(t) && t@ == bare@),
        text_holds(text@) is None ==> r is Err && s is Err,
        none matches Ok(t) && t@ == "{}"@,
{
}

// ---------------------------------------------------------------------
// The registered envs
// ---------------------------------------------------------------------

/// A value keeps what may be reached; without rules there is none. A list that is
/// not there is not kept.
pub open spec fn keeps_reach(j: Option<JsonView>, rules: Option<EnvEgressRules>) -> bool {
    match rules {
        Some(r) => {
            &&& j is Some
            &&& r.allowed is Some ==> is_list(field_in(j, "allowed"@), r.allowed)
            &&& r.denied is Some ==> is_list(field_in(j, "denied"@), r.denied)
            &&& r.allowed is None ==> field_in(j, "allowed"@) is None
            &&& r.denied is None ==> field_in(j, "denied"@) is None
        },
        None => j is None,
    }
}

/// A value keeps these credentials, in order; without any, there is none.
pub open spec fn keeps_credentials(j: Option<JsonView>, cs: Seq<CredentialRule>) -> bool {
    if cs.len() == 0 {
        j is None
    } else {
        j matches Some(JsonView::Array(items)) && items.len() == cs.len() && forall|i: int|
            0 <= i < items.len() ==> {
                &&& text_in(field(#[trigger] items[i], "host"@)) == Some(cs[i].host@)
                &&& text_in(field(items[i], "header"@)) == Some(cs[i].header@)
                &&& text_in(field(items[i], "envVar"@)) == Some(cs[i].env_var@)
            }
    }
}

/// A value keeps an env: its address, its name, and all of its rules and
/// credentials, in any combination.
pub open spec fn keeps(j: JsonView, rule: EnvRules) -> bool {
    let egress = field(j, "egress"@);
    &&& text_in(field(j, "envIp"@)) == Some(rule.env_ip@)
    &&& text_in(field(j, "envId"@)) == Some(rule.env_id@)
    &&& rule.egress is None <==> egress is None
    &&& rule.egress matches Some(e) ==> {
        &&& field_in(egress, "additive"@) == Some(JsonView::Bool(e.additive))
        &&& keeps_reach(field_in(egress, "reads"@), e.reads)
        &&& keeps_reach(field_in(egress, "writes"@), e.writes)
        &&& keeps_credentials(field_in(egress, "credentials"@), e.credentials@)
    }
}

/// Nothing that is registered of an env is missing from what is kept of it.
pub proof fn law_env_is_kept(rule: &EnvRules, j: Json)
    requires
        call_ensures(env_json, (rule,), j),
    ensures
        keeps(j@, *rule),
{
    lemma_env_kept(*rule);
}

/// All registered envs are kept, in their order, and it is these that the file says.
pub proof fn law_envs_are_kept(
    envs: &Vec<EnvRules>,
    j: Json,
    text: String,
    written: String,
    i: int,
)
    requires
        call_ensures(envs_json, (envs,), j),
        call_ensures(envs_text, (envs,), text),
        call_ensures(write_json, (&j, Some("")), written),
    ensures
        j@ matches JsonView::Array(items) && items.len() == envs@.len(),
        0 <= i < envs@.len() ==> keeps((j@->Array_0)[i], envs@[i]),
        text@ == written@,
{
    if 0 <= i < envs@.len() {
        lemma_env_kept(envs@[i]);
        assert((j@->Array_0)[i] == env_view(envs@[i]));
    }
}

proof fn lemma_env_kept(rule: EnvRules)
    ensures
        keeps(env_view(rule), rule),
{
    reveal_strlit("egress");
    reveal_strlit("envId");
    reveal_strlit("envIp");
    assert("egress"@[1] != "envId"@[1]);
    assert("egress"@[1] != "envIp"@[1]);
    assert("envId"@[4] != "envIp"@[4]);
    reveal_with_fuel(member_from, 4);
    match rule.egress {
        Some(e) => {
            lemma_egress_kept(e);
        },
        None => {},
    }
}

proof fn lemma_egress_kept(e: EnvEgress)
    ensures
        field(egress_kept(e), "additive"@) == Some(JsonView::Bool(e.additive)),
        keeps_reach(field(egress_kept(e), "reads"@), e.reads),
        keeps_reach(field(egress_kept(e), "writes"@), e.writes),
        keeps_credentials(field(egress_kept(e), "credentials"@), e.credentials@),
{
    reveal_strlit("additive");
    reveal_strlit("credentials");
    reveal_strlit("reads");
    reveal_strlit("writes");
    assert("additive"@[0] == 'a' && "credentials"@[0] == 'c' && "reads"@[0] == 'r' && "writes"@[0]
        == 'w');
    reveal_with_fuel(member_from, 5);
    match e.reads {
        Some(r) => {
            lemma_reach_kept(r);
        },
        None => {},
    }
    match e.writes {
        Some(r) => {
            lemma_reach_kept(r);
        },
        None => {},
    }
    if e.credentials@.len() > 0 {
        lemma_credentials_kept(e.credentials@);
    }
}

proof fn lemma_reach_kept(r: EnvEgressRules)
    ensures
        keeps_reach(Some(reach_kept(r)), Some(r)),
{
    reveal_strlit("allowed");
    reveal_strlit("denied");
    assert("allowed"@[0] != "denied"@[0]);
    reveal_with_fuel(member_from, 3);
}

proof fn lemma_credentials_kept(cs: Seq<CredentialRule>)
    requires
        cs.len() > 0,
    ensures
        keeps_credentials(Some(credentials_kept(cs)), cs),
{
    reveal_strlit("host");
    reveal_strlit("header");
    reveal_strlit("envVar");
    assert("host"@[1] != "header"@[1]);
    assert("envVar"@[0] != "host"@[0]);
    assert("envVar"@[0] != "header"@[0]);
    reveal_with_fuel(member_from, 4);
}

// ---------------------------------------------------------------------
// JSON as text
// ---------------------------------------------------------------------

/// An array is written between brackets, its items behind commas: each on a line of
/// its own, two further in, or all on one line without white space.
pub proof fn law_array_is_written(
    items: Vec<Json>,
    indent: &str,
    further: &str,
    apart: Vec<String>,
    close: Vec<String>,
    lines: String,
    line: String,
)
    requires
        further@ == indent@ + "  "@,
        apart@.len() == items@.len() == close@.len(),
        forall|i: int|
            0 <= i < items@.len() ==> call_ensures(
                write_json,
                (&items@[i], Some(further)),
                #[trigger] apart@[i],
            ),
        forall|i: int|
            0 <= i < items@.len() ==> call_ensures(
                write_json,
                (&items@[i], None::<&str>),
                #[trigger] close@[i],
            ),
        call_ensures(write_json, (&Json::Array(items), Some(indent)), lines),
        call_ensures(write_json, (&Json::Array(items), None::<&str>), line),
    ensures
        line@ == "["@ + joined(views(close@), ","@) + "]"@,
        items@.len() == 0 ==> lines@ == "["@ + "]"@,
        items@.len() > 0 ==> lines@ == "["@ + ("\n"@ + further@) + joined(
            views(apart@),
            ","@ + ("\n"@ + further@),
        ) + ("\n"@ + indent@) + "]"@,
{
    reveal_strlit("");
    lemma_array_view(items);
    let said = crate::json::json_views(items@);
    assert forall|i: int| 0 <= i < items@.len() implies crate::json::items_written(
        said,
        Some(further@),
    )[i] == views(apart@)[i] && crate::json::items_written(said, None)[i] == views(close@)[i] by {
        assert(call_ensures(write_json, (&items@[i], Some(further)), apart@[i]));
        assert(call_ensures(write_json, (&items@[i], None::<&str>), close@[i]));
        assert(views(apart@)[i] == apart@[i]@ && views(close@)[i] == close@[i]@);
        assert(said[i] == items@[i]@);
    }
    assert(crate::json::items_written(said, Some(further@)) =~= views(apart@));
    assert(crate::json::items_written(said, None) =~= views(close@));
    lemma_on_one_line("["@, views(close@), "]"@);
}

/// Nothing stands between the parts of a value on one line but commas.
proof fn lemma_on_one_line(open: Seq<char>, parts: Seq<Seq<char>>, close: Seq<char>)
    ensures
        crate::json::bracketed(open, parts, close, None) == open + joined(parts, ","@) + close,
{
    reveal_strlit("");
    assert(","@ + ""@ =~= ","@);
    if parts.len() == 0 {
        assert(open + joined(parts, ","@) =~= open);
    } else {
        assert(open + ""@ =~= open);
        let front = open + joined(parts, ","@);
        assert(front + ""@ =~= front);
    }
}

/// An object is written between braces, each member as its key in quotes, a colon
/// and its value.
pub proof fn law_object_is_written(
    members: Vec<Member>,
    indent: &str,
    further: &str,
    keys: Vec<String>,
    apart: Vec<String>,
    close: Vec<String>,
    bindings: Seq<Seq<char>>,
    tight: Seq<Seq<char>>,
    lines: String,
    line: String,
)
    requires
        further@ == indent@ + "  "@,
        apart@.len() == members@.len() == close@.len(),
        keys@.len() == members@.len() == bindings.len(),
        tight.len() == members@.len(),
        forall|i: int|
            0 <= i < members@.len() ==> (#[trigger] keys@[i])@ == compact(
                JsonView::Text(members@[i].key@),
            ),
        forall|i: int|
            0 <= i < members@.len() ==> call_ensures(
                write_json,
                (&members@[i].value, Some(further)),
                #[trigger] apart@[i],
            ),
        forall|i: int|
            0 <= i < members@.len() ==> call_ensures(
                write_json,
                (&members@[i].value, None::<&str>),
                #[trigger] close@[i],
            ),
        forall|i: int|
            0 <= i < members@.len() ==> #[trigger] bindings[i] == keys@[i]@ + ": "@ + apart@[i]@,
        forall|i: int|
            0 <= i < members@.len() ==> #[trigger] tight[i] == keys@[i]@ + ":"@ + close@[i]@,
        call_ensures(write_json, (&Json::Object(members), Some(indent)), lines),
        call_ensures(write_json, (&Json::Object(members), None::<&str>), line),
    ensures
        line@ == "{"@ + joined(tight, ","@) + "}"@,
        members@.len() == 0 ==> lines@ == "{"@ + "}"@,
        members@.len() > 0 ==> lines@ == "{"@ + ("\n"@ + further@) + joined(
            bindings,
            ","@ + ("\n"@ + further@),
        ) + ("\n"@ + indent@) + "}"@,
{
    lemma_object_view(members);
    let said = crate::json::member_views(members@);
    assert forall|i: int| 0 <= i < members@.len() implies crate::json::members_written(
        said,
        Some(further@),
    )[i] == bindings[i] && crate::json::members_written(said, None)[i] == tight[i] by {
        assert(call_ensures(write_json, (&members@[i].value, Some(further)), apart@[i]));
        assert(call_ensures(write_json, (&members@[i].value, None::<&str>), close@[i]));
        assert(keys@[i]@ == compact(JsonView::Text(members@[i].key@)));
        assert(said[i].key == members@[i].key@ && said[i].value == members@[i].value@);
    }
    assert(crate::json::members_written(said, Some(further@)) =~= bindings);
    assert(crate::json::members_written(said, None) =~= tight);
    lemma_on_one_line("{"@, tight, "}"@);
}

/// A plain value is written as it is, on whatever line it stands.
pub proof fn law_plain_is_written(
    at: Option<&str>,
    n: String,
    t: String,
    null: String,
    yes: String,
    no: String,
    number: String,
    text: String,
    s: &str,
    q: String,
)
    requires
        s@ == t@,
        call_ensures(write_json, (&Json::Null, at), null),
        call_ensures(write_json, (&Json::Bool(true), at), yes),
        call_ensures(write_json, (&Json::Bool(false), at), no),
        call_ensures(write_json, (&Json::Number(n), at), number),
        call_ensures(write_json, (&Json::Text(t), at), text),
        call_ensures(quoted, (s,), q),
    ensures
        null@ == "null"@,
        yes@ == "true"@,
        no@ == "false"@,
        number@ == n@,
        text@ == q@,
{
}

} // verus!
