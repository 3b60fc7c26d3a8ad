use vstd::prelude::*;

use crate::config::{CredentialConfig, EnvConfig, EnvEgressConfig, EnvEgressRules};
use crate::json::{field, field_in, text_holds, text_in, Json, JsonView};
use crate::rules::{registration, registration_view};
use crate::vm::{deregister_proxy_rules, register_proxy_rules};

verus! {

/// A value is the list of these texts; without a list, it is null.
pub open spec fn is_list(j: Option<JsonView>, list: Option<Vec<String>>) -> bool {
    match list {
        Some(l) => j matches Some(JsonView::Array(items)) && items.len() == l@.len()
            && forall|i: int|
            0 <= i < items.len() ==> #[trigger] items[i] == JsonView::Text(l@[i]@),
        None => j == Some(JsonView::Null),
    }
}

/// A value says what may be reached; without rules, there is none.
pub open spec fn is_reach(j: Option<JsonView>, rules: Option<EnvEgressRules>) -> bool {
    match rules {
        Some(r) => j is Some && is_list(field_in(j, "allowed"@), r.allowed) && is_list(
            field_in(j, "denied"@),
            r.denied,
        ),
        None => j is None,
    }
}

/// A value lists these credentials, each with its host, its header and its
/// variable, in order; without any, there is none.
pub open spec fn is_credentials(j: Option<JsonView>, cs: Seq<CredentialConfig>) -> bool {
    if cs.len() == 0 {
        j is None
    } else {
        j matches Some(JsonView::Array(items)) && items.len() == cs.len() && forall|i: int|
            0 <= i < items.len() ==> {
                &&& text_in(field(#[trigger] items[i], "host"@)) == Some(cs[i].host@)
                &&& text_in(field(items[i], "header"@)) == Some(cs[i].header@)
                &&& text_in(field(items[i], "envVar"@)) == Some(cs[i].env_var@)
            }
    }
}

/// A value registers an env: its address, its name, and every rule and credential
/// that is configured, in any combination. The rules add to those of every env.
pub open spec fn registers(j: JsonView, ip: Seq<char>, env: Seq<char>, e: EnvEgressConfig) -> bool {
    let egress = field(j, "egress"@);
    &&& text_in(field(j, "envIp"@)) == Some(ip)
    &&& text_in(field(j, "envId"@)) == Some(env)
    &&& is_reach(field_in(egress, "reads"@), e.reads)
    &&& is_reach(field_in(egress, "writes"@), e.writes)
    &&& is_credentials(field_in(egress, "credentials"@), e.credentials@)
    &&& egress is Some ==> field_in(egress, "additive"@) == Some(JsonView::Bool(true))
    &&& egress is None <==> e.reads is None && e.writes is None && e.credentials@.len() == 0
}

proof fn lemma_reach_found(r: EnvEgressRules)
    ensures
        is_reach(Some(crate::rules::reach_view(r)), Some(r)),
{
    reveal_strlit("allowed");
    reveal_strlit("denied");
    assert("allowed"@[0] != "denied"@[0]);
    reveal_with_fuel(crate::json::member_from, 3);
}

proof fn lemma_credentials_found(cs: Seq<CredentialConfig>)
    requires
        cs.len() > 0,
    ensures
        is_credentials(Some(crate::rules::credentials_view(cs)), cs),
{
    reveal_strlit("host");
    reveal_strlit("header");
    reveal_strlit("envVar");
    assert("host"@[1] != "header"@[1]);
    assert("envVar"@[0] != "host"@[0]);
    assert("envVar"@[0] != "header"@[0]);
    reveal_with_fuel(crate::json::member_from, 4);
}

/// Nothing that is configured is missing from what is registered.
pub proof fn law_registration_has_all(ip: Seq<char>, env: Seq<char>, e: EnvEgressConfig)
    ensures
        registers(registration_view(ip, env, e), ip, env, e),
{
    reveal_strlit("egress");
    reveal_strlit("envId");
    reveal_strlit("envIp");
    reveal_strlit("additive");
    reveal_strlit("credentials");
    reveal_strlit("reads");
    reveal_strlit("writes");
    assert("egress"@[1] != "envId"@[1]);
    assert("egress"@[1] != "envIp"@[1]);
    assert("envId"@[4] != "envIp"@[4]);
    assert("additive"@[0] == 'a' && "credentials"@[0] == 'c' && "reads"@[0] == 'r' && "writes"@[0]
        == 'w');
    reveal_with_fuel(crate::json::member_from, 5);
    match e.reads {
        Some(r) => {
            lemma_reach_found(r);
        },
        None => {},
    }
    match e.writes {
        Some(r) => {
            lemma_reach_found(r);
        },
        None => {},
    }
    if e.credentials@.len() > 0 {
        lemma_credentials_found(e.credentials@);
    }
}

/// What is made for a registration registers the env.
pub proof fn law_registration(ip: &str, env: &str, e: &EnvEgressConfig, j: Json)
    requires
        call_ensures(registration, (ip, env, e), j),
    ensures
        registers(j@, ip@, env@, *e),
{
    law_registration_has_all(ip@, env@, *e);
}

/// The call that registers an env posts, to the list of envs of the proxy, a text
/// that is read back as the registration of the env; the one that takes it out
/// deletes that very env.
pub proof fn law_register_call(
    ip: &str,
    env: &str,
    config: &EnvConfig,
    register: Vec<String>,
    deregister: Vec<String>,
)
    requires
        call_ensures(register_proxy_rules, (ip, env, config), register),
        call_ensures(deregister_proxy_rules, (ip,), deregister),
    ensures
        register@.len() == 8,
        register@[0]@ == "-sf"@,
        register@[3]@ == "-H"@,
        register@[4]@ == "Content-Type: application/json"@,
        register@[1]@ == "-X"@,
        register@[2]@ == "POST"@,
        register@[5]@ == "-d"@,
        text_holds(register@[6]@) matches Some(j) && registers(j, ip@, env@, config.egress),
        register@[7]@ == "http://127.0.0.1:8082/envs"@,
        deregister@.len() == 4,
        deregister@[0]@ == "-sf"@,
        deregister@[1]@ == "-X"@,
        deregister@[2]@ == "DELETE"@,
        deregister@[3]@ == register@[7]@ + "/"@ + ip@,
{
    law_registration_has_all(ip@, env@, config.egress);
    let r = crate::text::views(register@);
    let d = crate::text::views(deregister@);
    assert(r.len() == register@.len() && d.len() == deregister@.len());
    assert(r[0] == register@[0]@ && r[3] == register@[3]@ && r[4] == register@[4]@ && d[0]
        == deregister@[0]@);
    assert(r[1] == register@[1]@ && r[2] == register@[2]@ && r[5] == register@[5]@ && r[6]
        == register@[6]@ && r[7] == register@[7]@);
    assert(d[1] == deregister@[1]@ && d[2] == deregister@[2]@ && d[3] == deregister@[3]@);
    reveal_strlit("http://127.0.0.1:8082");
    reveal_strlit("http://127.0.0.1:8082/envs");
    reveal_strlit("/envs");
    reveal_strlit("/envs/");
    reveal_strlit("/");
    assert("http://127.0.0.1:8082/envs"@ =~= "http://127.0.0.1:8082"@ + "/envs"@);
    assert("http://127.0.0.1:8082"@ + "/envs/"@ + ip@ =~= "http://127.0.0.1:8082/envs"@ + "/"@
        + ip@);
}

} // verus!
