use vstd::prelude::*;

use crate::config::{
    CredentialConfig, EnvConfig, EnvEgressConfig, EnvEgressRules, HookConfig, PersistConfig,
    SecretsConfig, SessionConfig,
};
use crate::json::{
    array, compact, entry, fits, json_views, lemma_array_fits, lemma_fits_more, lemma_leaf_fits,
    lemma_object_fits, lemma_texts_fits, maybe_text, member, member_views, object, render_json,
    text, text_holds, text_or_null, texts, texts_view, whole, Json, JsonView,
};
use crate::number::decimal_of;
use crate::order::lemma_before_at;
use crate::rules::{lemma_reach_fits, reach_json, reach_view};
use crate::text::{opt_text, views};

verus! {

// ---------------------------------------------------------------------
// The configuration of an env, as JSON
// ---------------------------------------------------------------------

pub open spec fn reach_or_null(r: Option<EnvEgressRules>) -> JsonView {
    match r {
        Some(x) => reach_view(x),
        None => JsonView::Null,
    }
}

pub open spec fn credential_config_view(c: CredentialConfig) -> JsonView {
    JsonView::Object(
        seq![
            entry("env_var"@, JsonView::Text(c.env_var@)),
            entry("header"@, JsonView::Text(c.header@)),
            entry("host"@, JsonView::Text(c.host@)),
        ],
    )
}

pub open spec fn egress_config_view(e: EnvEgressConfig) -> JsonView {
    JsonView::Object(
        seq![
            entry(
                "credentials"@,
                JsonView::Array(
                    e.credentials@.map_values(|c: CredentialConfig| credential_config_view(c)),
                ),
            ),
            entry("reads"@, reach_or_null(e.reads)),
            entry("writes"@, reach_or_null(e.writes)),
        ],
    )
}

pub open spec fn persist_config_view(p: PersistConfig) -> JsonView {
    JsonView::Object(
        seq![
            entry("path"@, JsonView::Text(p.path@)),
            entry("purpose"@, text_or_null(opt_text(p.purpose))),
        ],
    )
}

pub open spec fn port_view(p: u16) -> JsonView {
    JsonView::Number(decimal_of(p as nat))
}

pub open spec fn secrets_config_view(s: SecretsConfig) -> JsonView {
    JsonView::Object(
        seq![
            entry("command"@, text_or_null(opt_text(s.command))),
            entry("keys"@, texts_view(views(s.keys@))),
        ],
    )
}

pub open spec fn hook_config_view(h: HookConfig) -> JsonView {
    JsonView::Object(
        seq![
            entry("after"@, text_or_null(opt_text(h.after))),
            entry("on"@, JsonView::Text(h.on@)),
            entry("pattern"@, text_or_null(opt_text(h.pattern))),
            entry("run"@, JsonView::Text(h.run@)),
        ],
    )
}

pub open spec fn session_config_view(s: Option<SessionConfig>) -> JsonView {
    match s {
        Some(c) => JsonView::Object(
            seq![
                entry("command"@, texts_view(views(c.command@))),
                entry(
                    "hook"@,
                    JsonView::Array(c.hook@.map_values(|h: HookConfig| hook_config_view(h))),
                ),
            ],
        ),
        None => JsonView::Null,
    }
}

/// The configuration of an env, as JSON.
pub open spec fn config_view(c: EnvConfig) -> JsonView {
    JsonView::Object(
        seq![
            entry("egress"@, egress_config_view(c.egress)),
            entry("memory"@, JsonView::Text(c.memory@)),
            entry(
                "persist"@,
                JsonView::Array(c.persist@.map_values(|p: PersistConfig| persist_config_view(p))),
            ),
            entry("ports"@, JsonView::Array(c.ports@.map_values(|p: u16| port_view(p)))),
            entry("secrets"@, secrets_config_view(c.secrets)),
            entry("server"@, text_or_null(opt_text(c.server))),
            entry("session"@, session_config_view(c.session)),
            entry("vcpu"@, JsonView::Number(decimal_of(c.vcpu as nat))),
        ],
    )
}

/// What a `prepare` sends.
pub open spec fn prepare_view(name: Seq<char>, repo: Seq<char>, c: EnvConfig) -> JsonView {
    JsonView::Object(
        seq![
            entry("config"@, config_view(c)),
            entry("name"@, JsonView::Text(name)),
            entry("repo"@, JsonView::Text(repo)),
        ],
    )
}

/// What an `up` sends.
pub open spec fn up_view(name: Seq<char>, repo: Seq<char>, create: bool, c: EnvConfig) -> JsonView {
    JsonView::Object(
        seq![
            entry("config"@, config_view(c)),
            entry("create"@, JsonView::Bool(create)),
            entry("name"@, JsonView::Text(name)),
            entry("repo"@, JsonView::Text(repo)),
        ],
    )
}

/// What a `down` or a `delete` sends.
pub open spec fn name_view(name: Seq<char>) -> JsonView {
    JsonView::Object(seq![entry("name"@, JsonView::Text(name))])
}

// ---------------------------------------------------------------------
// All of it can be written, and is read back
// ---------------------------------------------------------------------

pub proof fn lemma_credential_fits(c: CredentialConfig)
    ensures
        fits(credential_config_view(c), 1),
{
    reveal_strlit("env_var");
    reveal_strlit("header");
    reveal_strlit("host");
    lemma_before_at("env_var"@, "header"@, 0);
    lemma_before_at("header"@, "host"@, 1);
    lemma_leaf_fits(0);
    lemma_object_fits(credential_config_view(c)->Object_0, 0);
}

proof fn lemma_reach_or_null_fits(r: Option<EnvEgressRules>)
    ensures
        fits(reach_or_null(r), 2),
{
    match r {
        Some(x) => {
            lemma_reach_fits(x);
        },
        None => {},
    }
}

pub proof fn lemma_egress_fits(e: EnvEgressConfig)
    ensures
        fits(egress_config_view(e), 3),
{
    reveal_strlit("credentials");
    reveal_strlit("reads");
    reveal_strlit("writes");
    lemma_before_at("credentials"@, "reads"@, 0);
    lemma_before_at("reads"@, "writes"@, 0);
    let cs = e.credentials@.map_values(|c: CredentialConfig| credential_config_view(c));
    assert forall|i: int| 0 <= i < cs.len() implies fits(#[trigger] cs[i], 1) by {
        lemma_credential_fits(e.credentials@[i]);
    }
    lemma_array_fits(cs, 1);
    lemma_reach_or_null_fits(e.reads);
    lemma_reach_or_null_fits(e.writes);
    lemma_object_fits(egress_config_view(e)->Object_0, 2);
}

pub proof fn lemma_persist_fits(p: PersistConfig)
    ensures
        fits(persist_config_view(p), 1),
{
    reveal_strlit("path");
    reveal_strlit("purpose");
    lemma_before_at("path"@, "purpose"@, 1);
    lemma_leaf_fits(0);
    lemma_object_fits(persist_config_view(p)->Object_0, 0);
}

pub proof fn lemma_secrets_fits(s: SecretsConfig)
    ensures
        fits(secrets_config_view(s), 2),
{
    reveal_strlit("command");
    reveal_strlit("keys");
    lemma_before_at("command"@, "keys"@, 0);
    lemma_leaf_fits(1);
    lemma_texts_fits(views(s.keys@));
    lemma_object_fits(secrets_config_view(s)->Object_0, 1);
}

pub proof fn lemma_hook_fits(h: HookConfig)
    ensures
        fits(hook_config_view(h), 1),
{
    reveal_strlit("after");
    reveal_strlit("on");
    reveal_strlit("pattern");
    reveal_strlit("run");
    lemma_before_at("after"@, "on"@, 0);
    lemma_before_at("on"@, "pattern"@, 0);
    lemma_before_at("pattern"@, "run"@, 0);
    lemma_leaf_fits(0);
    lemma_object_fits(hook_config_view(h)->Object_0, 0);
}

pub proof fn lemma_session_fits(s: Option<SessionConfig>)
    ensures
        fits(session_config_view(s), 3),
{
    match s {
        Some(c) => {
            reveal_strlit("command");
            reveal_strlit("hook");
            lemma_before_at("command"@, "hook"@, 0);
            lemma_texts_fits(views(c.command@));
            lemma_fits_more(texts_view(views(c.command@)), 1, 2);
            let hs = c.hook@.map_values(|h: HookConfig| hook_config_view(h));
            assert forall|i: int| 0 <= i < hs.len() implies fits(#[trigger] hs[i], 1) by {
                lemma_hook_fits(c.hook@[i]);
            }
            lemma_array_fits(hs, 1);
            lemma_object_fits(session_config_view(s)->Object_0, 2);
        },
        None => {},
    }
}

pub proof fn lemma_config_fits(c: EnvConfig)
    ensures
        fits(config_view(c), 4),
{
    reveal_strlit("egress");
    reveal_strlit("memory");
    reveal_strlit("persist");
    reveal_strlit("ports");
    reveal_strlit("secrets");
    reveal_strlit("server");
    reveal_strlit("session");
    reveal_strlit("vcpu");
    lemma_before_at("egress"@, "memory"@, 0);
    lemma_before_at("memory"@, "persist"@, 0);
    lemma_before_at("persist"@, "ports"@, 1);
    lemma_before_at("ports"@, "secrets"@, 0);
    lemma_before_at("secrets"@, "server"@, 2);
    lemma_before_at("server"@, "session"@, 2);
    lemma_before_at("session"@, "vcpu"@, 0);
    lemma_egress_fits(c.egress);
    lemma_secrets_fits(c.secrets);
    lemma_fits_more(secrets_config_view(c.secrets), 2, 3);
    lemma_session_fits(c.session);
    lemma_leaf_fits(3);
    lemma_leaf_fits(0);
    let ps = c.persist@.map_values(|p: PersistConfig| persist_config_view(p));
    assert forall|i: int| 0 <= i < ps.len() implies fits(#[trigger] ps[i], 1) by {
        lemma_persist_fits(c.persist@[i]);
    }
    lemma_array_fits(ps, 1);
    lemma_fits_more(JsonView::Array(ps), 2, 3);
    let ports = c.ports@.map_values(|p: u16| port_view(p));
    assert forall|i: int| 0 <= i < ports.len() implies fits(#[trigger] ports[i], 0) by {
        assert(fits(JsonView::Number(decimal_of(c.ports@[i] as nat)), 0));
    }
    lemma_array_fits(ports, 0);
    lemma_fits_more(JsonView::Array(ports), 1, 3);
    assert(fits(JsonView::Number(decimal_of(c.vcpu as nat)), 3));
    lemma_object_fits(config_view(c)->Object_0, 3);
}

pub proof fn lemma_prepare_fits(name: Seq<char>, repo: Seq<char>, c: EnvConfig)
    ensures
        fits(prepare_view(name, repo, c), 127),
{
    reveal_strlit("config");
    reveal_strlit("name");
    reveal_strlit("repo");
    lemma_before_at("config"@, "name"@, 0);
    lemma_before_at("name"@, "repo"@, 0);
    lemma_config_fits(c);
    lemma_leaf_fits(4);
    lemma_object_fits(prepare_view(name, repo, c)->Object_0, 4);
    lemma_fits_more(prepare_view(name, repo, c), 5, 127);
}

pub proof fn lemma_up_fits(name: Seq<char>, repo: Seq<char>, create: bool, c: EnvConfig)
    ensures
        fits(up_view(name, repo, create, c), 127),
{
    reveal_strlit("config");
    reveal_strlit("create");
    reveal_strlit("name");
    reveal_strlit("repo");
    lemma_before_at("config"@, "create"@, 1);
    lemma_before_at("create"@, "name"@, 0);
    lemma_before_at("name"@, "repo"@, 0);
    lemma_config_fits(c);
    lemma_leaf_fits(4);
    lemma_object_fits(up_view(name, repo, create, c)->Object_0, 4);
    lemma_fits_more(up_view(name, repo, create, c), 5, 127);
}

pub proof fn lemma_name_fits(name: Seq<char>)
    ensures
        fits(name_view(name), 127),
{
    lemma_leaf_fits(126);
    lemma_object_fits(name_view(name)->Object_0, 126);
}

// ---------------------------------------------------------------------
// Writing
// ---------------------------------------------------------------------

fn reach_or_null_json(r: &Option<EnvEgressRules>) -> (j: Json)
    ensures
        j@ == reach_or_null(*r),
{
    match r {
        Some(x) => reach_json(x),
        None => Json::Null,
    }
}

fn egress_config_json(e: &EnvEgressConfig) -> (j: Json)
    ensures
        j@ == egress_config_view(*e),
{
    let mut items: Vec<Json> = Vec::new();
    for i in 0..e.credentials.len()
        invariant
            items@.len() == i,
            forall|k: int|
                0 <= k < i ==> (#[trigger] items@[k])@ == credential_config_view(e.credentials@[k]),
    {
        let c = &e.credentials[i];
        let ms = vec![
            member("env_var", text(c.env_var.as_str())),
            member("header", text(c.header.as_str())),
            member("host", text(c.host.as_str())),
        ];
        proof {
            assert(member_views(ms@) =~= credential_config_view(*c)->Object_0);
        }
        items.push(object(ms));
    }
    proof {
        assert(json_views(items@) =~= e.credentials@.map_values(
            |c: CredentialConfig| credential_config_view(c),
        ));
    }
    let ms = vec![
        member("credentials", array(items)),
        member("reads", reach_or_null_json(&e.reads)),
        member("writes", reach_or_null_json(&e.writes)),
    ];
    proof {
        assert(member_views(ms@) =~= egress_config_view(*e)->Object_0);
    }
    object(ms)
}

fn persist_config_json(v: &Vec<PersistConfig>) -> (j: Json)
    ensures
        j@ == JsonView::Array(v@.map_values(|p: PersistConfig| persist_config_view(p))),
{
    let mut items: Vec<Json> = Vec::new();
    for i in 0..v.len()
        invariant
            items@.len() == i,
            forall|k: int| 0 <= k < i ==> (#[trigger] items@[k])@ == persist_config_view(v@[k]),
    {
        let ms = vec![
            member("path", text(v[i].path.as_str())),
            member("purpose", maybe_text(&v[i].purpose)),
        ];
        proof {
            assert(member_views(ms@) =~= persist_config_view(v@[i as int])->Object_0);
        }
        items.push(object(ms));
    }
    proof {
        assert(json_views(items@) =~= v@.map_values(|p: PersistConfig| persist_config_view(p)));
    }
    array(items)
}

fn ports_json(v: &Vec<u16>) -> (j: Json)
    ensures
        j@ == JsonView::Array(v@.map_values(|p: u16| port_view(p))),
{
    let mut items: Vec<Json> = Vec::new();
    for i in 0..v.len()
        invariant
            items@.len() == i,
            forall|k: int| 0 <= k < i ==> (#[trigger] items@[k])@ == port_view(v@[k]),
    {
        items.push(whole(v[i] as u64));
    }
    proof {
        assert(json_views(items@) =~= v@.map_values(|p: u16| port_view(p)));
    }
    array(items)
}

fn secrets_config_json(s: &SecretsConfig) -> (j: Json)
    ensures
        j@ == secrets_config_view(*s),
{
    let ms = vec![member("command", maybe_text(&s.command)), member("keys", texts(&s.keys))];
    proof {
        assert(member_views(ms@) =~= secrets_config_view(*s)->Object_0);
    }
    object(ms)
}

fn session_config_json(s: &Option<SessionConfig>) -> (j: Json)
    ensures
        j@ == session_config_view(*s),
{
    match s {
        Some(c) => {
            let mut items: Vec<Json> = Vec::new();
            for i in 0..c.hook.len()
                invariant
                    items@.len() == i,
                    forall|k: int|
                        0 <= k < i ==> (#[trigger] items@[k])@ == hook_config_view(c.hook@[k]),
            {
                let h = &c.hook[i];
                let ms = vec![
                    member("after", maybe_text(&h.after)),
                    member("on", text(h.on.as_str())),
                    member("pattern", maybe_text(&h.pattern)),
                    member("run", text(h.run.as_str())),
                ];
                proof {
                    assert(member_views(ms@) =~= hook_config_view(*h)->Object_0);
                }
                items.push(object(ms));
            }
            proof {
                assert(json_views(items@) =~= c.hook@.map_values(
                    |h: HookConfig| hook_config_view(h),
                ));
            }
            let ms = vec![member("command", texts(&c.command)), member("hook", array(items))];
            proof {
                assert(member_views(ms@) =~= session_config_view(*s)->Object_0);
            }
            object(ms)
        },
        None => Json::Null,
    }
}

/// The configuration of an env, as JSON.
pub fn config_json(c: &EnvConfig) -> (j: Json)
    ensures
        j@ == config_view(*c),
{
    let ms = vec![
        member("egress", egress_config_json(&c.egress)),
        member("memory", text(c.memory.as_str())),
        member("persist", persist_config_json(&c.persist)),
        member("ports", ports_json(&c.ports)),
        member("secrets", secrets_config_json(&c.secrets)),
        member("server", maybe_text(&c.server)),
        member("session", session_config_json(&c.session)),
        member("vcpu", whole(c.vcpu as u64)),
    ];
    proof {
        assert(member_views(ms@) =~= config_view(*c)->Object_0);
    }
    object(ms)
}

/// The text that a `prepare` sends; it reads back as what it says.
pub fn prepare_body(name: &str, repo: &str, config: &EnvConfig) -> (r: String)
    ensures
        r@ == compact(prepare_view(name@, repo@, *config)),
        text_holds(r@) == Some(prepare_view(name@, repo@, *config)),
{
    let ms = vec![
        member("config", config_json(config)),
        member("name", text(name)),
        member("repo", text(repo)),
    ];
    proof {
        assert(member_views(ms@) =~= prepare_view(name@, repo@, *config)->Object_0);
        lemma_prepare_fits(name@, repo@, *config);
    }
    render_json(&object(ms))
}

/// The text that an `up` sends; it reads back as what it says.
pub fn up_body(name: &str, repo: &str, create: bool, config: &EnvConfig) -> (r: String)
    ensures
        r@ == compact(up_view(name@, repo@, create, *config)),
        text_holds(r@) == Some(up_view(name@, repo@, create, *config)),
{
    let ms = vec![
        member("config", config_json(config)),
        member("create", Json::Bool(create)),
        member("name", text(name)),
        member("repo", text(repo)),
    ];
    proof {
        assert(member_views(ms@) =~= up_view(name@, repo@, create, *config)->Object_0);
        lemma_up_fits(name@, repo@, create, *config);
    }
    render_json(&object(ms))
}

/// The text that a `down` or a `delete` sends; it reads back as what it says.
pub fn name_body(name: &str) -> (r: String)
    ensures
        r@ == compact(name_view(name@)),
        text_holds(r@) == Some(name_view(name@)),
{
    let ms = vec![member("name", text(name))];
    proof {
        assert(member_views(ms@) =~= name_view(name@)->Object_0);
        lemma_name_fits(name@);
    }
    render_json(&object(ms))
}

} // verus!
