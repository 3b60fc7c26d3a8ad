use vstd::prelude::*;

use crate::client::{Client, Request};
use crate::config::{
    CredentialConfig, EnvConfig, EnvEgressConfig, EnvEgressRules, HookConfig, PersistConfig,
    SecretsConfig, SessionConfig,
};
use crate::http::{body_in, law_request_body, lemma_one_line, request, response, response_body};
use crate::json::{
    field, field_in, keys_ascend, member_from, text_holds, text_in, JsonView, MemberView,
};
use crate::laws::registering::is_list;
use crate::number::decimal_of;
use crate::payload::{
    config_view, credential_config_view, egress_config_view, hook_config_view, lemma_config_fits,
    lemma_credential_fits, lemma_egress_fits, lemma_hook_fits, lemma_name_fits, lemma_persist_fits,
    lemma_prepare_fits, lemma_secrets_fits, lemma_session_fits, lemma_up_fits, name_view,
    persist_config_view, prepare_view, secrets_config_view, session_config_view, up_view,
};
use crate::proxy::{control, Control};
use crate::rules::{lemma_reach_fits, reach_view};

verus! {

/// Where keys ascend, each member is found under its key.
pub proof fn lemma_field_at(members: Seq<MemberView>, k: int)
    requires
        keys_ascend(members),
        0 <= k < members.len(),
    ensures
        field(JsonView::Object(members), members[k].key) == Some(members[k].value),
{
    lemma_member_from_at(members, k, 0);
}

proof fn lemma_member_from_at(members: Seq<MemberView>, k: int, from: int)
    requires
        keys_ascend(members),
        0 <= from <= k < members.len(),
    ensures
        member_from(members, members[k].key, from) == Some(k),
    decreases k - from,
{
    if from < k {
        assert(crate::order::before(members[from].key, members[k].key));
        lemma_member_from_at(members, k, from + 1);
    }
}

/// A value is this text; null, where there is none.
pub open spec fn is_text_or_null(j: Option<JsonView>, t: Option<String>) -> bool {
    match t {
        Some(s) => j == Some(JsonView::Text(s@)),
        None => j == Some(JsonView::Null),
    }
}

/// A value is an array with this many items.
pub open spec fn is_array_of(j: Option<JsonView>, n: nat) -> bool {
    j matches Some(JsonView::Array(items)) && items.len() == n
}

/// A value says what may be reached; null, where nothing is said of it.
pub open spec fn is_reach_or_null(j: Option<JsonView>, rules: Option<EnvEgressRules>) -> bool {
    match rules {
        Some(r) => is_list(field_in(j, "allowed"@), r.allowed) && is_list(
            field_in(j, "denied"@),
            r.denied,
        ),
        None => j == Some(JsonView::Null),
    }
}

pub open spec fn says_credential(j: JsonView, c: CredentialConfig) -> bool {
    &&& text_in(field(j, "host"@)) == Some(c.host@)
    &&& text_in(field(j, "header"@)) == Some(c.header@)
    &&& text_in(field(j, "env_var"@)) == Some(c.env_var@)
}

pub open spec fn says_egress(j: Option<JsonView>, e: EnvEgressConfig) -> bool {
    let cs = field_in(j, "credentials"@);
    &&& is_reach_or_null(field_in(j, "reads"@), e.reads)
    &&& is_reach_or_null(field_in(j, "writes"@), e.writes)
    &&& is_array_of(cs, e.credentials@.len())
    &&& forall|i: int|
        0 <= i < e.credentials@.len() ==> says_credential(
            (cs->0)->Array_0[i],
            #[trigger] e.credentials@[i],
        )
}

pub open spec fn says_persist(j: JsonView, p: PersistConfig) -> bool {
    text_in(field(j, "path"@)) == Some(p.path@) && is_text_or_null(field(j, "purpose"@), p.purpose)
}

pub open spec fn says_hook(j: JsonView, h: HookConfig) -> bool {
    &&& text_in(field(j, "on"@)) == Some(h.on@)
    &&& is_text_or_null(field(j, "pattern"@), h.pattern)
    &&& is_text_or_null(field(j, "after"@), h.after)
    &&& text_in(field(j, "run"@)) == Some(h.run@)
}

pub open spec fn says_session(j: Option<JsonView>, s: Option<SessionConfig>) -> bool {
    match s {
        Some(c) => {
            let hooks = field_in(j, "hook"@);
            &&& is_list(field_in(j, "command"@), Some(c.command))
            &&& is_array_of(hooks, c.hook@.len())
            &&& forall|i: int|
                0 <= i < c.hook@.len() ==> says_hook((hooks->0)->Array_0[i], #[trigger] c.hook@[i])
        },
        None => j == Some(JsonView::Null),
    }
}

/// A value says a configuration: every setting is there, under its name.
pub open spec fn says_config(j: Option<JsonView>, c: EnvConfig) -> bool {
    let ports = field_in(j, "ports"@);
    let persist = field_in(j, "persist"@);
    let secrets = field_in(j, "secrets"@);
    &&& text_in(field_in(j, "memory"@)) == Some(c.memory@)
    &&& field_in(j, "vcpu"@) == Some(JsonView::Number(decimal_of(c.vcpu as nat)))
    &&& is_text_or_null(field_in(j, "server"@), c.server)
    &&& is_array_of(ports, c.ports@.len())
    &&& forall|i: int|
        0 <= i < c.ports@.len() ==> (ports->0)->Array_0[i] == JsonView::Number(
            decimal_of((#[trigger] c.ports@[i]) as nat),
        )
    &&& is_array_of(persist, c.persist@.len())
    &&& forall|i: int|
        0 <= i < c.persist@.len() ==> says_persist(
            (persist->0)->Array_0[i],
            #[trigger] c.persist@[i],
        )
    &&& is_text_or_null(field_in(secrets, "command"@), c.secrets.command)
    &&& is_list(field_in(secrets, "keys"@), Some(c.secrets.keys))
    &&& says_egress(field_in(j, "egress"@), c.egress)
    &&& says_session(field_in(j, "session"@), c.session)
}

proof fn lemma_reach_said(r: EnvEgressRules)
    ensures
        is_reach_or_null(Some(reach_view(r)), Some(r)),
{
    lemma_reach_fits(r);
    let ms = reach_view(r)->Object_0;
    lemma_field_at(ms, 0);
    lemma_field_at(ms, 1);
}

proof fn lemma_egress_said(e: EnvEgressConfig)
    ensures
        says_egress(Some(egress_config_view(e)), e),
{
    lemma_egress_fits(e);
    let ms = egress_config_view(e)->Object_0;
    lemma_field_at(ms, 0);
    lemma_field_at(ms, 1);
    lemma_field_at(ms, 2);
    match e.reads {
        Some(r) => {
            lemma_reach_said(r);
        },
        None => {},
    }
    match e.writes {
        Some(r) => {
            lemma_reach_said(r);
        },
        None => {},
    }
    let items = e.credentials@.map_values(|c: CredentialConfig| credential_config_view(c));
    assert forall|i: int| 0 <= i < e.credentials@.len() implies says_credential(
        items[i],
        #[trigger] e.credentials@[i],
    ) by {
        let c = e.credentials@[i];
        lemma_credential_fits(c);
        let cm = credential_config_view(c)->Object_0;
        lemma_field_at(cm, 0);
        lemma_field_at(cm, 1);
        lemma_field_at(cm, 2);
    }
}

proof fn lemma_secrets_said(s: SecretsConfig)
    ensures
        is_text_or_null(field(secrets_config_view(s), "command"@), s.command),
        is_list(field(secrets_config_view(s), "keys"@), Some(s.keys)),
{
    lemma_secrets_fits(s);
    let ms = secrets_config_view(s)->Object_0;
    lemma_field_at(ms, 0);
    lemma_field_at(ms, 1);
}

proof fn lemma_session_said(s: Option<SessionConfig>)
    ensures
        says_session(Some(session_config_view(s)), s),
{
    lemma_session_fits(s);
    match s {
        Some(c) => {
            let ms = session_config_view(s)->Object_0;
            lemma_field_at(ms, 0);
            lemma_field_at(ms, 1);
            let items = c.hook@.map_values(|h: HookConfig| hook_config_view(h));
            assert forall|i: int| 0 <= i < c.hook@.len() implies says_hook(
                items[i],
                #[trigger] c.hook@[i],
            ) by {
                let h = c.hook@[i];
                lemma_hook_fits(h);
                let hm = hook_config_view(h)->Object_0;
                lemma_field_at(hm, 0);
                lemma_field_at(hm, 1);
                lemma_field_at(hm, 2);
                lemma_field_at(hm, 3);
            }
        },
        None => {},
    }
}

/// A configuration as JSON says every setting.
pub proof fn law_config_says_all(c: EnvConfig)
    ensures
        says_config(Some(config_view(c)), c),
{
    lemma_config_fits(c);
    let ms = config_view(c)->Object_0;
    lemma_field_at(ms, 0);
    lemma_field_at(ms, 1);
    lemma_field_at(ms, 2);
    lemma_field_at(ms, 3);
    lemma_field_at(ms, 4);
    lemma_field_at(ms, 5);
    lemma_field_at(ms, 6);
    lemma_field_at(ms, 7);
    lemma_egress_said(c.egress);
    lemma_secrets_said(c.secrets);
    lemma_session_said(c.session);
    let items = c.persist@.map_values(|p: PersistConfig| persist_config_view(p));
    assert forall|i: int| 0 <= i < c.persist@.len() implies says_persist(
        items[i],
        #[trigger] c.persist@[i],
    ) by {
        let p = c.persist@[i];
        lemma_persist_fits(p);
        let pm = persist_config_view(p)->Object_0;
        lemma_field_at(pm, 0);
        lemma_field_at(pm, 1);
    }
}

/// A request is sent to a server and taken by it: its text is made from the
/// request, and the server reads that text.
pub open spec fn reaches(r: Request, got: Control) -> bool {
    exists|body: &str, text: String, req: &str|
        {
            &&& body@ == (match r.body {
                Some(b) => b@,
                None => ""@,
            })
            &&& #[trigger] call_ensures(request, (r.method, r.path, body), text)
            &&& req@ == text@
            &&& #[trigger] call_ensures(control, (req,), got)
        }
}

/// A `prepare` reaches the server as one, with the name, the repo and every
/// setting of the env.
pub proof fn law_prepare_reaches(
    c: &Client,
    name: &str,
    repo: &str,
    config: &EnvConfig,
    r: Request,
    got: Control,
)
    requires
        call_ensures(Client::prepare, (c, name, repo, config), r),
        reaches(r, got),
    ensures
        got matches Control::Prepare { json } && (text_holds(json@) matches Some(j) && text_in(
            field(j, "name"@),
        ) == Some(name@) && text_in(field(j, "repo"@)) == Some(repo@) && says_config(
            field(j, "config"@),
            *config,
        )),
{
    lemma_prepare_fits(name@, repo@, *config);
    let ms = prepare_view(name@, repo@, *config)->Object_0;
    lemma_field_at(ms, 0);
    lemma_field_at(ms, 1);
    lemma_field_at(ms, 2);
    law_config_says_all(*config);
    crate::proxy::law_requests_are_understood((r.body->0)@);
}

/// An `up` reaches the server as one, with the name, the repo and every setting of
/// the env, and with whether it is new.
pub proof fn law_up_reaches(
    c: &Client,
    name: &str,
    repo: &str,
    create: bool,
    config: &EnvConfig,
    r: Request,
    got: Control,
)
    requires
        call_ensures(Client::up, (c, name, repo, create, config), r),
        reaches(r, got),
    ensures
        got matches Control::Up { json } && (text_holds(json@) matches Some(j) && text_in(
            field(j, "name"@),
        ) == Some(name@) && text_in(field(j, "repo"@)) == Some(repo@) && field(j, "create"@)
            == Some(JsonView::Bool(create)) && says_config(field(j, "config"@), *config)),
{
    lemma_up_fits(name@, repo@, create, *config);
    let ms = up_view(name@, repo@, create, *config)->Object_0;
    lemma_field_at(ms, 0);
    lemma_field_at(ms, 1);
    lemma_field_at(ms, 2);
    lemma_field_at(ms, 3);
    law_config_says_all(*config);
    crate::proxy::law_requests_are_understood((r.body->0)@);
}

/// A `down` and a `delete` reach the server as such, for the env that they name,
/// and a `list` as one.
pub proof fn law_names_reach(
    c: &Client,
    name: &str,
    down: Request,
    taken_down: Control,
    delete: Request,
    deleted: Control,
    list: Request,
    listed: Control,
)
    requires
        call_ensures(Client::down, (c, name), down),
        reaches(down, taken_down),
        call_ensures(Client::delete, (c, name), delete),
        reaches(delete, deleted),
        call_ensures(Client::list, (c,), list),
        reaches(list, listed),
    ensures
        taken_down matches Control::Down { json } && (text_holds(json@) matches Some(j) && text_in(
            field(j, "name"@),
        ) == Some(name@)),
        deleted matches Control::Delete { json } && (text_holds(json@) matches Some(j) && text_in(
            field(j, "name"@),
        ) == Some(name@)),
        listed is List,
{
    lemma_name_fits(name@);
    let ms = name_view(name@)->Object_0;
    lemma_field_at(ms, 0);
    crate::proxy::law_requests_are_understood((down.body->0)@);
    crate::proxy::law_requests_are_understood((delete.body->0)@);
    crate::proxy::law_requests_are_understood(""@);
}

/// What the server answers is what the client hears.
pub proof fn law_answer_is_heard(status: &str, body: &str, sent: String, got: &str, heard: String)
    requires
        call_ensures(response, (status, body), sent),
        got@ == sent@,
        call_ensures(response_body, (got,), heard),
        !status@.contains('\r'),
    ensures
        heard@ == body@,
{
    lemma_one_line(status@);
    crate::http::law_response_body(status@, body@);
}

/// What is sent as a body is what is read as one, with its length before it.
pub proof fn law_request_is_read(method: &str, path: &str, body: &str, r: String)
    requires
        call_ensures(request, (method, path, body), r),
        !method@.contains('\r'),
        !path@.contains('\r'),
    ensures
        body_in(r@) == Some(body@),
        crate::text::begins(r@, method@ + " "@ + path@ + " HTTP/1.0\r\n"@),
        crate::text::holds(
            r@,
            "\r\nContent-Length: "@ + decimal_of(crate::http::byte_count(body@)) + "\r\n\r\n"@,
        ),
{
    lemma_one_line(method@);
    lemma_one_line(path@);
    law_request_body(method@, path@, body@);
    reveal_strlit(" ");
    reveal_strlit(" HTTP/1.0\r\n");
    reveal_strlit(" HTTP/1.0\r\nHost: localhost\r\nContent-Length: ");
    reveal_strlit("\r\nContent-Length: ");
    reveal_strlit("\r\n\r\n");
    let c = " HTTP/1.0\r\nHost: localhost\r\nContent-Length: "@;
    let p = method@ + " "@ + path@ + " HTTP/1.0\r\n"@;
    assert(c.take(11) =~= " HTTP/1.0\r\n"@);
    assert(r@.take(p.len() as int) =~= p);
    let k = "\r\nContent-Length: "@;
    let d = decimal_of(crate::http::byte_count(body@));
    assert(c.skip(26) =~= k);
    let at = method@.len() + 1 + path@.len() + 26;
    let want = k + d + "\r\n\r\n"@;
    assert(r@.subrange(at as int, (at + want.len()) as int) =~= want);
    assert(crate::text::occurs_at(r@, want, at as int));
}

} // verus!
