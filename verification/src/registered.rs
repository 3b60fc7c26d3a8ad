use vstd::prelude::*;

use crate::json::{
    array, clear, entry, field, json_views, lemma_array_clear, lemma_clear_more, lemma_field_read,
    lemma_object_clear, lemma_texts_clear, member, member_views, object, pretty, read_as, text,
    text_in, texts, texts_view, write_json, writes_out, Json, JsonView, Member, MemberView,
};
use crate::proxy::{
    lemma_others, others, registered, upserted, CredentialRule, EnvEgress, EnvEgressRules, EnvRules,
};
use crate::text::views;

verus! {

// ---------------------------------------------------------------------
// The registered envs as JSON
// ---------------------------------------------------------------------

/// A list of texts under a key; nothing, where there is no list.
pub open spec fn list_entry(key: Seq<char>, list: Option<Vec<String>>) -> Seq<MemberView> {
    match list {
        Some(l) => seq![entry(key, texts_view(views(l@)))],
        None => Seq::empty(),
    }
}

/// What an env may reach, as JSON.
pub open spec fn reach_kept(r: EnvEgressRules) -> JsonView {
    JsonView::Object(list_entry("allowed"@, r.allowed) + list_entry("denied"@, r.denied))
}

/// What an env may reach under a key; nothing, where nothing is said of it.
pub open spec fn reach_entry(key: Seq<char>, rules: Option<EnvEgressRules>) -> Seq<MemberView> {
    match rules {
        Some(r) => seq![entry(key, reach_kept(r))],
        None => Seq::empty(),
    }
}

/// A credential, as JSON.
pub open spec fn credential_kept(c: CredentialRule) -> JsonView {
    JsonView::Object(
        seq![
            entry("host"@, JsonView::Text(c.host@)),
            entry("header"@, JsonView::Text(c.header@)),
            entry("envVar"@, JsonView::Text(c.env_var@)),
        ],
    )
}

pub open spec fn credentials_kept(cs: Seq<CredentialRule>) -> JsonView {
    JsonView::Array(cs.map_values(|c: CredentialRule| credential_kept(c)))
}

/// The credentials of an env; nothing, where it has none.
pub open spec fn credentials_entry(cs: Seq<CredentialRule>) -> Seq<MemberView> {
    if cs.len() > 0 {
        seq![entry("credentials"@, credentials_kept(cs))]
    } else {
        Seq::empty()
    }
}

/// The egress rules of an env, as JSON.
pub open spec fn egress_kept(e: EnvEgress) -> JsonView {
    JsonView::Object(
        seq![entry("additive"@, JsonView::Bool(e.additive))] + reach_entry("reads"@, e.reads)
            + reach_entry("writes"@, e.writes) + credentials_entry(e.credentials@),
    )
}

/// The rules of an env, as JSON.
pub open spec fn env_view(rule: EnvRules) -> JsonView {
    JsonView::Object(
        seq![
            entry("envIp"@, JsonView::Text(rule.env_ip@)),
            entry("envId"@, JsonView::Text(rule.env_id@)),
        ] + (match rule.egress {
            Some(e) => seq![entry("egress"@, egress_kept(e))],
            None => Seq::empty(),
        }),
    )
}

/// The registered envs, as JSON.
pub open spec fn envs_view(envs: Seq<EnvRules>) -> JsonView {
    JsonView::Array(envs.map_values(|e: EnvRules| env_view(e)))
}

fn push_list(ms: &mut Vec<Member>, key: &str, list: &Option<Vec<String>>)
    ensures
        member_views(final(ms)@) == member_views(old(ms)@) + list_entry(key@, *list),
{
    let ghost before = ms@;
    match list {
        Some(l) => {
            ms.push(member(key, texts(l)));
        },
        None => {},
    }
    proof {
        assert(member_views(ms@) =~= member_views(before) + list_entry(key@, *list));
    }
}

fn reach_json(r: &EnvEgressRules) -> (j: Json)
    ensures
        j@ == reach_kept(*r),
{
    let mut ms: Vec<Member> = Vec::new();
    proof {
        assert(member_views(ms@) =~= Seq::<MemberView>::empty());
    }
    push_list(&mut ms, "allowed", &r.allowed);
    push_list(&mut ms, "denied", &r.denied);
    proof {
        assert(member_views(ms@) =~= reach_kept(*r)->Object_0);
    }
    object(ms)
}

fn push_reach(ms: &mut Vec<Member>, key: &str, rules: &Option<EnvEgressRules>)
    ensures
        member_views(final(ms)@) == member_views(old(ms)@) + reach_entry(key@, *rules),
{
    let ghost before = ms@;
    match rules {
        Some(r) => {
            ms.push(member(key, reach_json(r)));
        },
        None => {},
    }
    proof {
        assert(member_views(ms@) =~= member_views(before) + reach_entry(key@, *rules));
    }
}

fn credential_json(c: &CredentialRule) -> (j: Json)
    ensures
        j@ == credential_kept(*c),
{
    let ms = vec![
        member("host", text(c.host.as_str())),
        member("header", text(c.header.as_str())),
        member("envVar", text(c.env_var.as_str())),
    ];
    proof {
        assert(member_views(ms@) =~= credential_kept(*c)->Object_0);
    }
    object(ms)
}

fn credentials_json(cs: &Vec<CredentialRule>) -> (j: Json)
    ensures
        j@ == credentials_kept(cs@),
{
    let mut items: Vec<Json> = Vec::new();
    for i in 0..cs.len()
        invariant
            items@.len() == i,
            forall|k: int| 0 <= k < i ==> (#[trigger] items@[k])@ == credential_kept(cs@[k]),
    {
        items.push(credential_json(&cs[i]));
    }
    proof {
        assert(json_views(items@) =~= credentials_kept(cs@)->Array_0);
    }
    array(items)
}

fn egress_json(e: &EnvEgress) -> (j: Json)
    ensures
        j@ == egress_kept(*e),
{
    let mut ms: Vec<Member> = Vec::new();
    ms.push(member("additive", Json::Bool(e.additive)));
    proof {
        assert(member_views(ms@) =~= seq![entry("additive"@, JsonView::Bool(e.additive))]);
    }
    push_reach(&mut ms, "reads", &e.reads);
    push_reach(&mut ms, "writes", &e.writes);
    if e.credentials.len() > 0 {
        ms.push(member("credentials", credentials_json(&e.credentials)));
    }
    proof {
        assert(member_views(ms@) =~= egress_kept(*e)->Object_0);
    }
    object(ms)
}

/// The rules of an env, as JSON.
pub fn env_json(rule: &EnvRules) -> (j: Json)
    ensures
        j@ == env_view(*rule),
{
    let mut ms: Vec<Member> = Vec::new();
    ms.push(member("envIp", text(rule.env_ip.as_str())));
    ms.push(member("envId", text(rule.env_id.as_str())));
    match &rule.egress {
        Some(e) => {
            ms.push(member("egress", egress_json(e)));
        },
        None => {},
    }
    proof {
        assert(member_views(ms@) =~= env_view(*rule)->Object_0);
    }
    object(ms)
}

/// The registered envs, as JSON.
pub fn envs_json(envs: &Vec<EnvRules>) -> (r: Json)
    ensures
        r@ == envs_view(envs@),
{
    let mut items: Vec<Json> = Vec::new();
    for i in 0..envs.len()
        invariant
            items@.len() == i,
            forall|k: int| 0 <= k < i ==> (#[trigger] items@[k])@ == env_view(envs@[k]),
    {
        items.push(env_json(&envs[i]));
    }
    proof {
        assert(json_views(items@) =~= envs_view(envs@)->Array_0);
    }
    array(items)
}

/// The text of the file that keeps the registered envs.
pub open spec fn envs_kept(envs: Seq<EnvRules>) -> Seq<char> {
    pretty(envs_view(envs))
}

/// The text of the file that keeps the registered envs.
pub fn envs_text(envs: &Vec<EnvRules>) -> (r: String)
    ensures
        r@ == envs_kept(envs@),
{
    write_json(&envs_json(envs), Some(""))
}

// ---------------------------------------------------------------------
// The file is read back
// ---------------------------------------------------------------------

proof fn lemma_reach_clear(r: EnvEgressRules)
    ensures
        clear(reach_kept(r), 2),
{
    reveal_strlit("allowed");
    reveal_strlit("denied");
    assert("allowed"@[0] != "denied"@[0]);
    match r.allowed {
        Some(l) => {
            lemma_texts_clear(views(l@));
        },
        None => {},
    }
    match r.denied {
        Some(l) => {
            lemma_texts_clear(views(l@));
        },
        None => {},
    }
    lemma_object_clear(reach_kept(r)->Object_0, 1);
}

proof fn lemma_credentials_clear(cs: Seq<CredentialRule>)
    ensures
        clear(credentials_kept(cs), 2),
{
    reveal_strlit("host");
    reveal_strlit("header");
    reveal_strlit("envVar");
    assert("host"@[1] != "header"@[1]);
    assert("envVar"@[0] != "host"@[0]);
    assert("envVar"@[0] != "header"@[0]);
    let items = credentials_kept(cs)->Array_0;
    assert forall|i: int| 0 <= i < items.len() implies clear(#[trigger] items[i], 1) by {
        lemma_object_clear(credential_kept(cs[i])->Object_0, 0);
    }
    lemma_array_clear(items, 1);
}

proof fn lemma_egress_clear(e: EnvEgress)
    ensures
        clear(egress_kept(e), 3),
{
    reveal_strlit("additive");
    reveal_strlit("reads");
    reveal_strlit("writes");
    reveal_strlit("credentials");
    assert("additive"@[0] == 'a' && "reads"@[0] == 'r' && "writes"@[0] == 'w'
        && "credentials"@[0] == 'c');
    match e.reads {
        Some(r) => {
            lemma_reach_clear(r);
        },
        None => {},
    }
    match e.writes {
        Some(r) => {
            lemma_reach_clear(r);
        },
        None => {},
    }
    lemma_credentials_clear(e.credentials@);
    lemma_object_clear(egress_kept(e)->Object_0, 2);
}

proof fn lemma_env_clear(rule: EnvRules)
    ensures
        clear(env_view(rule), 4),
{
    reveal_strlit("envIp");
    reveal_strlit("envId");
    reveal_strlit("egress");
    assert("envIp"@[4] != "envId"@[4]);
    assert("egress"@[1] != "envIp"@[1]);
    assert("egress"@[1] != "envId"@[1]);
    match rule.egress {
        Some(e) => {
            lemma_egress_clear(e);
        },
        None => {},
    }
    lemma_object_clear(env_view(rule)->Object_0, 3);
}

/// The file that keeps the registered envs can be read back.
pub proof fn lemma_envs_kept(envs: Seq<EnvRules>)
    ensures
        writes_out(envs_kept(envs), envs_view(envs)),
{
    let items = envs_view(envs)->Array_0;
    assert forall|i: int| 0 <= i < items.len() implies clear(#[trigger] items[i], 4) by {
        lemma_env_clear(envs[i]);
    }
    lemma_array_clear(items, 4);
    lemma_clear_more(envs_view(envs), 5, 127);
}

/// An env with this address is registered.
pub open spec fn has_address(envs: Seq<EnvRules>, ip: Seq<char>) -> bool {
    exists|i: int| 0 <= i < envs.len() && (#[trigger] envs[i]).env_ip@ == ip
}

/// The credential service takes exactly the addresses of the registered envs for
/// known ones.
pub proof fn law_registered_is_known(envs: Seq<EnvRules>, ip: Seq<char>)
    ensures
        registered(envs_view(envs), ip) <==> has_address(envs, ip),
{
    let items = envs_view(envs)->Array_0;
    assert forall|i: int| 0 <= i < items.len() implies text_in(
        field(#[trigger] items[i], "envIp"@),
    ) == Some(envs[i].env_ip@) by {
        assert(items[i] == env_view(envs[i]));
        assert(env_view(envs[i])->Object_0[0].key == "envIp"@);
    }
    if has_address(envs, ip) {
        let i = choose|i: int| 0 <= i < envs.len() && (#[trigger] envs[i]).env_ip@ == ip;
        assert(text_in(field(items[i], "envIp"@)) == Some(ip));
    }
    if registered(envs_view(envs), ip) {
        let i = choose|i: int|
            0 <= i < items.len() && text_in(field(#[trigger] items[i], "envIp"@)) == Some(ip);
        assert(envs[i].env_ip@ == ip);
    }
}

/// What is read from the file of the registered envs knows the addresses that
/// they have.
pub proof fn lemma_known_when_read(envs: Seq<EnvRules>, h: JsonView, ip: Seq<char>)
    requires
        read_as(envs_view(envs), h),
    ensures
        registered(h, ip) <==> has_address(envs, ip),
{
    let items = envs_view(envs)->Array_0;
    let read = h->Array_0;
    assert forall|i: int| 0 <= i < read.len() implies text_in(field(#[trigger] read[i], "envIp"@))
        == Some(envs[i].env_ip@) by {
        assert(read_as(items[i], read[i]));
        assert(items[i] == env_view(envs[i]));
        assert(env_view(envs[i])->Object_0[0].key == "envIp"@);
        lemma_field_read(items[i], read[i], "envIp"@);
    }
    if has_address(envs, ip) {
        let i = choose|i: int| 0 <= i < envs.len() && (#[trigger] envs[i]).env_ip@ == ip;
        assert(text_in(field(read[i], "envIp"@)) == Some(ip));
    }
    if registered(h, ip) {
        let i = choose|i: int|
            0 <= i < read.len() && text_in(field(#[trigger] read[i], "envIp"@)) == Some(ip);
        assert(envs[i].env_ip@ == ip);
    }
}

/// An env that was registered is known to the credential service, and one that was
/// taken out is not; whether any other is known stays as it was.
pub proof fn law_registration_makes_known(envs: Seq<EnvRules>, rule: EnvRules, ip: Seq<char>)
    ensures
        registered(envs_view(upserted(envs, rule)), rule.env_ip@),
        !registered(envs_view(others(envs, rule.env_ip@)), rule.env_ip@),
        ip != rule.env_ip@ ==> registered(envs_view(upserted(envs, rule)), ip) == registered(
            envs_view(envs),
            ip,
        ) && registered(envs_view(others(envs, rule.env_ip@)), ip) == registered(
            envs_view(envs),
            ip,
        ),
{
    let at = rule.env_ip@;
    let up = upserted(envs, rule);
    let out = others(envs, at);
    law_registered_is_known(up, at);
    law_registered_is_known(out, at);
    law_registered_is_known(up, ip);
    law_registered_is_known(out, ip);
    law_registered_is_known(envs, ip);
    lemma_others(envs, at);
    assert(up[up.len() - 1].env_ip@ == at);
    if ip != at {
        if registered(envs_view(envs), ip) {
            let i = choose|i: int| 0 <= i < envs.len() && (#[trigger] envs[i]).env_ip@ == ip;
            assert(envs.contains(envs[i]));
            assert(out.contains(envs[i]));
            let k = out.index_of(envs[i]);
            assert(out[k].env_ip@ == ip);
            assert(up[k].env_ip@ == ip);
        }
        if registered(envs_view(out), ip) {
            let k = choose|k: int| 0 <= k < out.len() && (#[trigger] out[k]).env_ip@ == ip;
            assert(envs.contains(out[k]));
            let i = envs.index_of(out[k]);
            assert(envs[i].env_ip@ == ip);
        }
        if registered(envs_view(up), ip) {
            let k = choose|k: int| 0 <= k < up.len() && (#[trigger] up[k]).env_ip@ == ip;
            assert(k < out.len());
            assert(out[k] == up[k]);
            assert(envs.contains(out[k]));
            let i = envs.index_of(out[k]);
            assert(envs[i].env_ip@ == ip);
        }
    }
}

} // verus!
