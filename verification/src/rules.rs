use vstd::prelude::*;

use crate::config::{CredentialConfig, EnvEgressConfig, EnvEgressRules};
use crate::json::{
    array, entry, fits, json_views, lemma_array_fits, lemma_fits_more, lemma_leaf_fits,
    lemma_object_fits, lemma_texts_fits, member, member_views, object, text, texts, texts_view,
    Json, JsonView, Member,
};
use crate::order::lemma_before_at;
use crate::text::views;

verus! {

/// A list of texts, or null where there is none.
pub open spec fn list_or_null(v: Option<Vec<String>>) -> JsonView {
    match v {
        Some(l) => texts_view(views(l@)),
        None => JsonView::Null,
    }
}

/// What an env may reach, as JSON.
pub open spec fn reach_view(r: EnvEgressRules) -> JsonView {
    JsonView::Object(
        seq![entry("allowed"@, list_or_null(r.allowed)), entry("denied"@, list_or_null(r.denied))],
    )
}

/// A credential of an env, as JSON.
pub open spec fn credential_view(c: CredentialConfig) -> JsonView {
    JsonView::Object(
        seq![
            entry("envVar"@, JsonView::Text(c.env_var@)),
            entry("header"@, JsonView::Text(c.header@)),
            entry("host"@, JsonView::Text(c.host@)),
        ],
    )
}

pub open spec fn credentials_view(cs: Seq<CredentialConfig>) -> JsonView {
    JsonView::Array(cs.map_values(|c: CredentialConfig| credential_view(c)))
}

/// An env has rules of its own.
pub open spec fn has_rules(e: EnvEgressConfig) -> bool {
    e.writes is Some || e.reads is Some || e.credentials@.len() > 0
}

/// The rules of an env, as JSON: they add to the ones that hold for every env.
pub open spec fn egress_view(e: EnvEgressConfig) -> JsonView {
    JsonView::Object(
        seq![entry("additive"@, JsonView::Bool(true))] + (if e.credentials@.len() > 0 {
            seq![entry("credentials"@, credentials_view(e.credentials@))]
        } else {
            Seq::empty()
        }) + (match e.reads {
            Some(r) => seq![entry("reads"@, reach_view(r))],
            None => Seq::empty(),
        }) + (match e.writes {
            Some(r) => seq![entry("writes"@, reach_view(r))],
            None => Seq::empty(),
        }),
    )
}

/// What is registered for an env.
pub open spec fn registration_view(ip: Seq<char>, env: Seq<char>, e: EnvEgressConfig) -> JsonView {
    JsonView::Object(
        (if has_rules(e) {
            seq![entry("egress"@, egress_view(e))]
        } else {
            Seq::empty()
        }) + seq![entry("envId"@, JsonView::Text(env)), entry("envIp"@, JsonView::Text(ip))],
    )
}

proof fn lemma_list_fits(v: Option<Vec<String>>)
    ensures
        fits(list_or_null(v), 1),
{
    match v {
        Some(l) => {
            lemma_texts_fits(views(l@));
        },
        None => {},
    }
}

pub proof fn lemma_reach_fits(r: EnvEgressRules)
    ensures
        fits(reach_view(r), 2),
{
    reveal_strlit("allowed");
    reveal_strlit("denied");
    lemma_before_at("allowed"@, "denied"@, 0);
    lemma_list_fits(r.allowed);
    lemma_list_fits(r.denied);
    lemma_object_fits(reach_view(r)->Object_0, 1);
}

proof fn lemma_credentials_fits(cs: Seq<CredentialConfig>)
    ensures
        fits(credentials_view(cs), 2),
{
    reveal_strlit("envVar");
    reveal_strlit("header");
    reveal_strlit("host");
    lemma_before_at("envVar"@, "header"@, 0);
    lemma_before_at("header"@, "host"@, 1);
    lemma_leaf_fits(0);
    let items = credentials_view(cs)->Array_0;
    assert forall|i: int| 0 <= i < items.len() implies fits(#[trigger] items[i], 1) by {
        lemma_object_fits(credential_view(cs[i])->Object_0, 0);
    }
    lemma_array_fits(items, 1);
}

proof fn lemma_egress_fits(e: EnvEgressConfig)
    ensures
        fits(egress_view(e), 3),
{
    reveal_strlit("additive");
    reveal_strlit("credentials");
    reveal_strlit("reads");
    reveal_strlit("writes");
    lemma_before_at("additive"@, "credentials"@, 0);
    lemma_before_at("additive"@, "reads"@, 0);
    lemma_before_at("additive"@, "writes"@, 0);
    lemma_before_at("credentials"@, "reads"@, 0);
    lemma_before_at("credentials"@, "writes"@, 0);
    lemma_before_at("reads"@, "writes"@, 0);
    lemma_leaf_fits(2);
    lemma_credentials_fits(e.credentials@);
    match e.reads {
        Some(r) => {
            lemma_reach_fits(r);
        },
        None => {},
    }
    match e.writes {
        Some(r) => {
            lemma_reach_fits(r);
        },
        None => {},
    }
    lemma_object_fits(egress_view(e)->Object_0, 2);
}

/// What is registered for an env can be written as JSON, and is read back.
pub proof fn lemma_registration_fits(ip: Seq<char>, env: Seq<char>, e: EnvEgressConfig)
    ensures
        fits(registration_view(ip, env, e), 127),
{
    reveal_strlit("egress");
    reveal_strlit("envId");
    reveal_strlit("envIp");
    lemma_before_at("egress"@, "envId"@, 1);
    lemma_before_at("envId"@, "envIp"@, 4);
    lemma_leaf_fits(3);
    lemma_egress_fits(e);
    lemma_object_fits(registration_view(ip, env, e)->Object_0, 3);
    lemma_fits_more(registration_view(ip, env, e), 4, 127);
}

fn list_json(v: &Option<Vec<String>>) -> (j: Json)
    ensures
        j@ == list_or_null(*v),
{
    match v {
        Some(l) => texts(l),
        None => Json::Null,
    }
}

pub fn reach_json(r: &EnvEgressRules) -> (j: Json)
    ensures
        j@ == reach_view(*r),
{
    let ms = vec![
        member("allowed", list_json(&r.allowed)),
        member("denied", list_json(&r.denied)),
    ];
    proof {
        assert(member_views(ms@) =~= reach_view(*r)->Object_0);
    }
    object(ms)
}

fn credential_json(c: &CredentialConfig) -> (j: Json)
    ensures
        j@ == credential_view(*c),
{
    let ms = vec![
        member("envVar", text(c.env_var.as_str())),
        member("header", text(c.header.as_str())),
        member("host", text(c.host.as_str())),
    ];
    proof {
        assert(member_views(ms@) =~= credential_view(*c)->Object_0);
    }
    object(ms)
}

fn credentials_json(cs: &Vec<CredentialConfig>) -> (j: Json)
    ensures
        j@ == credentials_view(cs@),
{
    let mut items: Vec<Json> = Vec::new();
    for i in 0..cs.len()
        invariant
            items@.len() == i,
            forall|k: int| 0 <= k < i ==> (#[trigger] items@[k])@ == credential_view(cs@[k]),
    {
        items.push(credential_json(&cs[i]));
    }
    proof {
        assert(json_views(items@) =~= credentials_view(cs@)->Array_0);
    }
    array(items)
}

fn egress_json(e: &EnvEgressConfig) -> (j: Json)
    ensures
        j@ == egress_view(*e),
{
    let mut ms: Vec<Member> = Vec::new();
    ms.push(member("additive", Json::Bool(true)));
    if e.credentials.len() > 0 {
        ms.push(member("credentials", credentials_json(&e.credentials)));
    }
    match &e.reads {
        Some(r) => {
            ms.push(member("reads", reach_json(r)));
        },
        None => {},
    }
    match &e.writes {
        Some(r) => {
            ms.push(member("writes", reach_json(r)));
        },
        None => {},
    }
    proof {
        assert(member_views(ms@) =~= egress_view(*e)->Object_0);
    }
    object(ms)
}

/// What is registered for an env.
pub fn registration(ip: &str, env_name: &str, e: &EnvEgressConfig) -> (j: Json)
    ensures
        j@ == registration_view(ip@, env_name@, *e),
{
    let mut ms: Vec<Member> = Vec::new();
    if e.writes.is_some() || e.reads.is_some() || e.credentials.len() > 0 {
        ms.push(member("egress", egress_json(e)));
    }
    ms.push(member("envId", text(env_name)));
    ms.push(member("envIp", text(ip)));
    proof {
        assert(member_views(ms@) =~= registration_view(ip@, env_name@, *e)->Object_0);
    }
    object(ms)
}

} // verus!
