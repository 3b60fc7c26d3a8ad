use vstd::prelude::*;

use crate::client::{accepted, up_result, ClientError, EnvStatus, UpResponse};
use crate::http::{body_in, byte_count};
use crate::json::{compact, JsonView};
use crate::number::decimal_of;
use crate::proxy::{
    control, deregistration, done, git_credential_answer, git_credential_lookup,
    git_credential_peer, git_credential_request, is_registered_env_ip, lemma_others, list_reply,
    listeners, normalize_peer_ip, others, parse_delete_envs_path, parse_git_credential_host,
    registration, remove_env, repo_or_unknown, understood, up_ip, up_reply, upsert_env, Control,
    CredentialStep, EnvRules, Listeners, PeerAddr, ProxyConfig, Reply,
};
use crate::text::{
    begins, cut_once, holds, is_white, joined, lemma_nonempty_push, lemma_pieces_concat,
    lemma_pieces_whole, lines_of, nonempty, pieces, trimmed, words_of,
};

verus! {

// ---------------------------------------------------------------------
// Registered envs
// ---------------------------------------------------------------------

/// The rules of an env come in behind those of the envs at other addresses, which
/// stay as they are, in their order; what was there for its address is gone. They
/// go out again in the same way.
pub proof fn law_rules_come_and_go(
    envs: Vec<EnvRules>,
    rule: EnvRules,
    after: Vec<EnvRules>,
    more: Vec<EnvRules>,
    ip: &str,
    without: Vec<EnvRules>,
)
    requires
        call_ensures(upsert_env, (envs, rule), after),
        call_ensures(remove_env, (more, ip), without),
    ensures
        after@.len() > 0 && after@.last() == rule,
        after@.drop_last() == envs@.filter(|e: EnvRules| e.env_ip@ != rule.env_ip@),
        without@ == more@.filter(|e: EnvRules| e.env_ip@ != ip@),
        forall|i: int| 0 <= i < without@.len() ==> (#[trigger] without@[i]).env_ip@ != ip@,
        forall|i: int|
            0 <= i < more@.len() && (#[trigger] more@[i]).env_ip@ != ip@ ==> without@.contains(
                more@[i],
            ),
{
    lemma_others(more@, ip@);
    assert(after@.drop_last() =~= others(envs@, rule.env_ip@));
    assert(after@.drop_last() == envs@.filter(|e: EnvRules| e.env_ip@ != rule.env_ip@));
    assert forall|i: int| 0 <= i < more@.len() && (#[trigger] more@[i]).env_ip@ != ip@ implies
        without@.contains(more@[i]) by {
        assert(more@.contains(more@[i]));
        assert(others(more@, ip@).contains(more@[i]));
    }
}

/// A registration that was understood is written and answered so; one that was not
/// changes nothing, and says what is wrong with it.
pub proof fn law_registration_answered(
    envs: Vec<EnvRules>,
    parsed: Result<EnvRules, String>,
    r: (Option<Vec<EnvRules>>, Reply),
    ip: &str,
    d: (Vec<EnvRules>, Reply),
)
    requires
        call_ensures(registration, (envs, parsed), r),
        call_ensures(deregistration, (envs, ip), d),
    ensures
        r.0 is Some <==> parsed is Ok,
        parsed matches Ok(rule) ==> r.0->0@.len() > 0 && r.0->0@.last() == rule
            && r.0->0@.drop_last() == envs@.filter(|e: EnvRules| e.env_ip@ != rule.env_ip@)
            && r.1.status@ == "200 OK"@ && r.1.body@ == "ok"@,
        parsed matches Err(e) ==> r.1.status@ == "400 Bad Request"@ && r.1.body@
            == "bad request: "@ + e@,
        d.0@ == envs@.filter(|e: EnvRules| e.env_ip@ != ip@),
        d.1.status@ == "200 OK"@ && d.1.body@ == "ok"@,
{
    match parsed {
        Ok(rule) => {
            assert(r.0->0@.drop_last() =~= others(envs@, rule.env_ip@));
        },
        Err(_) => {},
    }
}

/// A request whose body was read is carried out as it was read; any other is
/// refused with what is wrong with it.
pub proof fn law_understood_as_read(parsed: Result<u64, String>, r: Result<u64, Reply>)
    requires
        call_ensures(understood::<u64>, (parsed,), r),
    ensures
        r is Ok <==> parsed is Ok,
        parsed matches Ok(x) ==> r->Ok_0 == x,
        parsed matches Err(e) ==> r->Err_0.status@ == "400 Bad Request"@ && r->Err_0.body@
            == "bad request: "@ + e@,
{
}

// ---------------------------------------------------------------------
// Git credentials
// ---------------------------------------------------------------------

/// The address of a peer is its own, but for an IPv4 address in an IPv6 one, which
/// stands for itself.
pub proof fn law_peer_address(addr: PeerAddr, r: String)
    requires
        call_ensures(normalize_peer_ip, (addr,), r),
    ensures
        ({
            let text = match addr {
                PeerAddr::V4(s) => s@,
                PeerAddr::V6 { text, mapped } => match mapped {
                    Some(v4) => v4@,
                    None => text@,
                },
            };
            &&& begins(text, "::ffff:"@) ==> text == "::ffff:"@ + r@
            &&& !begins(text, "::ffff:"@) ==> r@ == text
        }),
{
    let text = match addr {
        PeerAddr::V4(s) => s@,
        PeerAddr::V6 { text, mapped } => match mapped {
            Some(v4) => v4@,
            None => text@,
        },
    };
    if begins(text, "::ffff:"@) {
        assert(text =~= text.take("::ffff:"@.len() as int) + text.skip("::ffff:"@.len() as int));
    }
}

/// A peer is refused exactly where it is not the VM of a registered env, and learns
/// nothing but that.
pub proof fn law_peer_refused(known: bool, r: Option<String>)
    requires
        call_ensures(git_credential_peer, (known,), r),
    ensures
        r is Some <==> !known,
        r is Some ==> r->0@ == "HTTP/1.1 403 Forbidden\r\n\r\n"@,
{
    if !known {
        assert(r->0@ == crate::proxy::credential_answer(
            known,
            Seq::empty(),
            Map::<Seq<char>, Seq<char>>::empty(),
        ));
    }
}

/// A line gives a host.
pub open spec fn gives_host(line: Seq<char>, host: Seq<char>) -> bool {
    cut_once(line, '=') matches Some(p) && trimmed(p.0) == "host"@ && trimmed(p.1) == host
}

/// The host that a request asks for is the one in the first line of its body that
/// gives one, without white space around it.
pub proof fn law_host_of_request(req: &str, r: Option<String>)
    requires
        call_ensures(parse_git_credential_host, (req,), r),
    ensures
        body_in(req@) is None ==> r is None,
        r matches Some(h) ==> exists|i: int|
            0 <= i < lines_of(body_in(req@)->0).len() && gives_host(
                #[trigger] lines_of(body_in(req@)->0)[i],
                h@,
            ) && forall|k: int, x: Seq<char>|
                0 <= k < i ==> !#[trigger] gives_host(lines_of(body_in(req@)->0)[k], x),
        body_in(req@) is Some && r is None ==> forall|k: int, x: Seq<char>|
            0 <= k < lines_of(body_in(req@)->0).len() ==> !#[trigger] gives_host(
                lines_of(body_in(req@)->0)[k],
                x,
            ),
{
    if body_in(req@) is Some {
        let ls = lines_of(body_in(req@)->0);
        assert(ls.skip(0) =~= ls);
        lemma_host_in(ls, 0);
    }
}

proof fn lemma_host_in(ls: Seq<Seq<char>>, from: int)
    requires
        0 <= from <= ls.len(),
        forall|k: int, x: Seq<char>| 0 <= k < from ==> !#[trigger] gives_host(ls[k], x),
    ensures
        match crate::proxy::host_in(ls.skip(from)) {
            Some(h) => exists|i: int|
                0 <= i < ls.len() && gives_host(#[trigger] ls[i], h) && forall|
                    k: int,
                    x: Seq<char>,
                |
                    0 <= k < i ==> !#[trigger] gives_host(ls[k], x),
            None => forall|k: int, x: Seq<char>|
                0 <= k < ls.len() ==> !#[trigger] gives_host(ls[k], x),
        },
    decreases ls.len() - from,
{
    if from < ls.len() {
        let s = ls.skip(from);
        assert(s[0] == ls[from]);
        assert(s.skip(1) =~= ls.skip(from + 1));
        match cut_once(ls[from], '=') {
            Some((k, v)) => {
                if trimmed(k) == "host"@ {
                    assert(gives_host(ls[from], trimmed(v)));
                } else {
                    lemma_host_in(ls, from + 1);
                }
            },
            None => {
                lemma_host_in(ls, from + 1);
            },
        }
    }
}

/// Each of the three git hosts has its own account and its own token; no other
/// host has any.
pub proof fn law_accounts(host: &str, r: Option<(&'static str, &'static str)>)
    requires
        call_ensures(git_credential_lookup, (host,), r),
    ensures
        r is Some <==> host@ == "github.com"@ || host@ == "gitlab.com"@ || host@
            == "bitbucket.org"@,
        host@ == "github.com"@ ==> (r->0).0@ == "x-access-token"@ && (r->0).1@ == "GITHUB_TOKEN"@,
        host@ == "gitlab.com"@ ==> (r->0).0@ == "oauth2"@ && (r->0).1@ == "GITLAB_TOKEN"@,
        host@ == "bitbucket.org"@ ==> (r->0).0@ == "x-token-auth"@ && (r->0).1@
            == "BITBUCKET_TOKEN"@,
{
    reveal_strlit("github.com");
    reveal_strlit("gitlab.com");
    reveal_strlit("bitbucket.org");
    assert("github.com"@[3] != "gitlab.com"@[3]);
    assert("github.com"@[0] != "bitbucket.org"@[0]);
    assert("gitlab.com"@[0] != "bitbucket.org"@[0]);
}

/// A request of a known peer is answered with a token exactly where it asks for a
/// credential of a host that has an account, and with the token of that account.
/// What asks for none is not found; a host without an account is refused.
pub proof fn law_token_of_the_host(
    req: &str,
    r: CredentialStep,
    parsed: Option<String>,
    host: &str,
    account: Option<(&'static str, &'static str)>,
)
    requires
        call_ensures(git_credential_request, (req,), r),
        call_ensures(parse_git_credential_host, (req,), parsed),
        host@ == (match parsed {
            Some(h) => h@,
            None => ""@,
        }),
        call_ensures(git_credential_lookup, (host,), account),
    ensures
        ({
            let asks = holds(req@, "POST"@) && holds(req@, "/git-credential"@);
            match r {
                CredentialStep::Token { username, env_var } => asks && account is Some && username@
                    == (account->0).0@ && env_var@ == (account->0).1@,
                CredentialStep::Answer(a) => if !asks {
                    a@ == "HTTP/1.1 404 Not Found\r\n\r\n"@
                } else {
                    account is None && a@ == "HTTP/1.1 403 Forbidden\r\n\r\n"@
                },
            }
        }),
{
    let given = crate::proxy::credential_answer(
        true,
        req@,
        Map::<Seq<char>, Seq<char>>::empty(),
    );
    assert(r matches CredentialStep::Answer(a) ==> a@ == given);
}

/// A token is handed out under its user name, in a body whose length the answer
/// gives; a token that is not there is an error, and nothing is handed out.
pub proof fn law_token_answer(username: &str, token: Option<&str>, r: String)
    requires
        call_ensures(git_credential_answer, (username, token), r),
    ensures
        token is None ==> r@ == "HTTP/1.1 500 Error\r\n\r\n"@,
        token matches Some(t) ==> exists|body: Seq<char>|
            body == "username="@ + username@ + "\npassword="@ + t@ + "\n"@ && r@
                == "HTTP/1.1 200 OK\r\ncontent-type: text/plain\r\ncontent-length: "@
                + #[trigger] decimal_of(byte_count(body)) + "\r\n\r\n"@ + body,
{
    match token {
        Some(t) => {
            let body = "username="@ + username@ + "\npassword="@ + t@ + "\n"@;
            assert(decimal_of(byte_count(body)).len() >= 0);
        },
        None => {},
    }
}

/// An env is known by its address in the file of the registered envs; without the
/// file nobody is.
pub proof fn law_nobody_known_without_file(ip: &str, r: bool)
    requires
        call_ensures(is_registered_env_ip, (None::<&str>, ip), r),
    ensures
        !r,
{
}

// ---------------------------------------------------------------------
// The control API
// ---------------------------------------------------------------------

proof fn lemma_not_both(req: Seq<char>, a: Seq<char>, b: Seq<char>, i: int)
    requires
        begins(req, a),
        0 <= i < a.len(),
        i < b.len(),
        a[i] != b[i],
    ensures
        !begins(req, b),
{
    assert(req.take(a.len() as int)[i] == req[i]);
    if begins(req, b) {
        assert(req.take(b.len() as int)[i] == req[i]);
    }
}

/// A request that has no body, but needs one, is refused.
pub open spec fn refused(r: Control, what: Seq<char>) -> bool {
    r matches Control::Answer(a) && a.status@ == "400 Bad Request"@ && a.body@ == what
}

/// A request to the control API is taken for what its method and its path say,
/// with its body as it is.
pub proof fn law_requests_are_told_apart(req: &str, r: Control)
    requires
        call_ensures(control, (req,), r),
    ensures
        begins(req@, "POST /envs"@) ==> match body_in(req@) {
            Some(b) => r matches Control::Register { json } && json@ == b,
            None => refused(r, "missing body"@),
        },
        begins(req@, "GET /envs"@) ==> r is Envs,
        begins(req@, "GET /list"@) ==> r is List,
        begins(req@, "POST /prepare"@) ==> match body_in(req@) {
            Some(b) => r matches Control::Prepare { json } && json@ == b,
            None => refused(r, "missing body"@),
        },
        begins(req@, "POST /up"@) ==> match body_in(req@) {
            Some(b) => r matches Control::Up { json } && json@ == b,
            None => refused(r, "missing body"@),
        },
        begins(req@, "POST /down"@) ==> match body_in(req@) {
            Some(b) => r matches Control::Down { json } && json@ == b,
            None => refused(r, "missing body"@),
        },
        begins(req@, "POST /delete"@) ==> match body_in(req@) {
            Some(b) => r matches Control::Delete { json } && json@ == b,
            None => refused(r, "missing body"@),
        },
        begins(req@, "DELETE /envs/"@) ==> r is Deregister || refused(r, "missing ip"@),
        !begins(req@, "POST /envs"@) && !begins(req@, "DELETE /envs/"@) && !begins(
            req@,
            "GET /envs"@,
        ) && !begins(req@, "POST /prepare"@) && !begins(req@, "POST /up"@) && !begins(
            req@,
            "POST /down"@,
        ) && !begins(req@, "POST /delete"@) && !begins(req@, "GET /list"@) ==> (
        r matches Control::Answer(a) && a.status@ == "404 Not Found"@ && a.body@ == "not found"@),
{
    reveal_strlit("POST /envs");
    reveal_strlit("DELETE /envs/");
    reveal_strlit("GET /envs");
    reveal_strlit("GET /list");
    reveal_strlit("POST /prepare");
    reveal_strlit("POST /up");
    reveal_strlit("POST /down");
    reveal_strlit("POST /delete");
    let q = req@;
    if begins(q, "DELETE /envs/"@) {
        lemma_not_both(q, "DELETE /envs/"@, "POST /envs"@, 0);
    } else if begins(q, "GET /envs"@) {
        lemma_not_both(q, "GET /envs"@, "POST /envs"@, 0);
        lemma_not_both(q, "GET /envs"@, "DELETE /envs/"@, 0);
        lemma_not_both(q, "GET /envs"@, "GET /list"@, 5);
    } else if begins(q, "GET /list"@) {
        lemma_not_both(q, "GET /list"@, "POST /envs"@, 0);
        lemma_not_both(q, "GET /list"@, "POST /prepare"@, 0);
        lemma_not_both(q, "GET /list"@, "POST /up"@, 0);
        lemma_not_both(q, "GET /list"@, "POST /down"@, 0);
        lemma_not_both(q, "GET /list"@, "POST /delete"@, 0);
    } else if begins(q, "POST /envs"@) {
        lemma_not_both(q, "POST /envs"@, "DELETE /envs/"@, 0);
        lemma_not_both(q, "POST /envs"@, "POST /prepare"@, 6);
        lemma_not_both(q, "POST /envs"@, "POST /up"@, 6);
        lemma_not_both(q, "POST /envs"@, "POST /down"@, 6);
        lemma_not_both(q, "POST /envs"@, "POST /delete"@, 6);
    } else if begins(q, "POST /prepare"@) {
        lemma_not_both(q, "POST /prepare"@, "POST /up"@, 6);
        lemma_not_both(q, "POST /prepare"@, "POST /down"@, 6);
        lemma_not_both(q, "POST /prepare"@, "POST /delete"@, 6);
    } else if begins(q, "POST /up"@) {
        lemma_not_both(q, "POST /up"@, "POST /down"@, 6);
        lemma_not_both(q, "POST /up"@, "POST /delete"@, 6);
    } else if begins(q, "POST /down"@) {
        lemma_not_both(q, "POST /down"@, "POST /delete"@, 7);
    }
    if begins(q, "DELETE /envs/"@) {
        lemma_not_both(q, "DELETE /envs/"@, "GET /envs"@, 0);
        lemma_not_both(q, "DELETE /envs/"@, "GET /list"@, 0);
        lemma_not_both(q, "DELETE /envs/"@, "POST /prepare"@, 0);
        lemma_not_both(q, "DELETE /envs/"@, "POST /up"@, 0);
        lemma_not_both(q, "DELETE /envs/"@, "POST /down"@, 0);
        lemma_not_both(q, "DELETE /envs/"@, "POST /delete"@, 0);
    }
    if begins(q, "GET /envs"@) {
        lemma_not_both(q, "GET /envs"@, "POST /prepare"@, 0);
        lemma_not_both(q, "GET /envs"@, "POST /up"@, 0);
        lemma_not_both(q, "GET /envs"@, "POST /down"@, 0);
        lemma_not_both(q, "GET /envs"@, "POST /delete"@, 0);
    }
}

/// The env that a delete is for is the one whose address stands behind `/envs/` in
/// its line.
pub proof fn law_delete_names_the_env(ip: Seq<char>, rest: Seq<char>, line: &str, r: Option<&str>)
    requires
        call_ensures(parse_delete_envs_path, (line,), r),
        line@ == "DELETE /envs/"@ + ip + " "@ + rest,
        forall|i: int| 0 <= i < ip.len() ==> !is_white(#[trigger] ip[i]),
    ensures
        ip.len() == 0 ==> r is None,
        ip.len() > 0 ==> r is Some && r->0@ == ip,
{
    reveal_strlit("DELETE /envs/");
    reveal_strlit("DELETE");
    reveal_strlit("/envs/");
    reveal_strlit(" ");
    let sep = |c: char| is_white(c);
    let d = "DELETE"@;
    let p = "/envs/"@ + ip;
    assert(line@ =~= d + seq![' '] + (p + seq![' '] + rest));
    lemma_pieces_concat(d, ' ', p + seq![' '] + rest, sep);
    lemma_pieces_concat(p, ' ', rest, sep);
    assert forall|i: int| 0 <= i < d.len() implies !sep(#[trigger] d[i]) by {
        assert(i == 0 || i == 1 || i == 2 || i == 3 || i == 4 || i == 5);
    }
    assert forall|i: int| 0 <= i < p.len() implies !sep(#[trigger] p[i]) by {
        if i < 6 {
            assert(i == 0 || i == 1 || i == 2 || i == 3 || i == 4 || i == 5);
        } else {
            assert(p[i] == ip[i - 6]);
        }
    }
    lemma_pieces_whole(d, sep);
    lemma_pieces_whole(p, sep);
    let more = pieces(rest, sep);
    assert(pieces(line@, sep) =~= seq![d, p] + more);
    lemma_words_front(seq![d, p], more);
    let w = words_of(line@);
    assert(w[1] == p);
    assert(p.skip(6) =~= ip);
    assert(p.take(6) =~= "/envs/"@);
}

proof fn lemma_words_front(front: Seq<Seq<char>>, more: Seq<Seq<char>>)
    requires
        forall|i: int| 0 <= i < front.len() ==> (#[trigger] front[i]).len() > 0,
    ensures
        nonempty(front + more).len() >= front.len(),
        nonempty(front + more).take(front.len() as int) == front,
    decreases front.len() + more.len(),
{
    reveal(Seq::filter);
    if more.len() > 0 {
        let d = more.drop_last();
        lemma_words_front(front, d);
        lemma_nonempty_push(front + d, more.last());
        assert((front + d).push(more.last()) =~= front + more);
        let n = nonempty(front + d);
        assert(n.push(more.last()).take(front.len() as int) =~= n.take(front.len() as int));
    } else if front.len() > 0 {
        let f = front.drop_last();
        assert forall|i: int| 0 <= i < f.len() implies (#[trigger] f[i]).len() > 0 by {
            assert(f[i] == front[i]);
        }
        lemma_words_front(f, more);
        lemma_nonempty_push(f + more, front.last());
        assert((f + more).push(front.last()) =~= front + more);
        assert(front[front.len() - 1].len() > 0);
        let n = nonempty(f + more);
        lemma_nonempty_short(f + more);
        assert(n =~= f);
        assert(n.push(front.last()) =~= front);
        assert(front.take(front.len() as int) =~= front);
    } else {
        assert(nonempty(front + more).take(0) =~= front);
    }
}

proof fn lemma_nonempty_short(ss: Seq<Seq<char>>)
    ensures
        nonempty(ss).len() <= ss.len(),
    decreases ss.len(),
{
    reveal(Seq::filter);
    if ss.len() > 0 {
        lemma_nonempty_short(ss.drop_last());
        lemma_nonempty_push(ss.drop_last(), ss.last());
        assert(ss.drop_last().push(ss.last()) =~= ss);
    }
}

/// What went well is answered as a success, and what did not as a failure that says
/// why. An `up` tells the address.
pub proof fn law_replies_tell(
    error: Option<&str>,
    d: Reply,
    result: Result<String, String>,
    u: Reply,
)
    requires
        call_ensures(done, (error,), d),
        call_ensures(up_reply, (result,), u),
    ensures
        error is None ==> d.status@ == "200 OK"@ && d.body@ == "{\"ok\":true}"@,
        error matches Some(e) ==> d.status@ == "500 Internal Server Error"@ && d.body@
            == "{\"ok\":false,\"error\":\""@ + e@ + "\"}"@,
        result matches Ok(ip) ==> u.status@ == "200 OK"@ && u.body@ == "{\"ok\":true"@
            + ",\"ip\":"@ + compact(JsonView::Text(ip@)) + "}"@,
        result matches Err(e) ==> u.status@ == "500 Internal Server Error"@ && u.body@
            == "{\"ok\":false"@ + ",\"error\":"@ + compact(JsonView::Text(e@)) + "}"@,
{
    reveal_strlit("");
    match result {
        Ok(ip) => {
            let x = compact(JsonView::Text(ip@));
            assert(u.body@ =~= "{\"ok\":true"@ + ",\"ip\":"@ + x + "}"@);
        },
        Err(e) => {
            let x = compact(JsonView::Text(e@));
            assert(u.body@ =~= "{\"ok\":false"@ + ",\"error\":"@ + x + "}"@);
        },
    }
}

/// The text of an env in a list: its name and its status, and its address and its
/// repo where it has them.
pub open spec fn tells_env(text: Seq<char>, e: EnvStatus) -> bool {
    text == "{\"name\":"@ + compact(JsonView::Text(e.name@)) + ",\"status\":"@ + compact(
        JsonView::Text(e.status@),
    ) + (match e.ip {
        Some(t) => ",\"ip\":"@ + compact(JsonView::Text(t@)),
        None => ""@,
    }) + (match e.repo {
        Some(t) => ",\"repo\":"@ + compact(JsonView::Text(t@)),
        None => ""@,
    }) + "}"@
}

/// A list tells every env, in order; without one, why there is none.
pub proof fn law_list_tells_all(
    result: &Result<Vec<EnvStatus>, String>,
    r: Reply,
    texts: Seq<Seq<char>>,
)
    requires
        call_ensures(list_reply, (result,), r),
        result is Ok ==> texts.len() == result->Ok_0@.len(),
        result is Ok ==> forall|i: int|
            0 <= i < texts.len() ==> tells_env(#[trigger] texts[i], result->Ok_0@[i]),
    ensures
        result is Ok ==> r.status@ == "200 OK"@ && r.body@ == "["@ + joined(texts, ","@) + "]"@,
        result matches Err(e) ==> r.status@ == "500 Internal Server Error"@ && r.body@
            == "{\"error\":\""@ + e@ + "\"}"@,
{
    if result is Ok {
        assert(result->Ok_0@.map_values(|e: EnvStatus| crate::proxy::status_json(e)) =~= texts);
    }
}

/// An answer of the server counts as a success exactly where it says so; what a
/// failed `up` says is the error.
pub proof fn law_answers_taken(
    response: &str,
    a: Result<(), ClientError>,
    up: UpResponse,
    u: Result<UpResponse, ClientError>,
)
    requires
        call_ensures(accepted, (response,), a),
        call_ensures(up_result, (up,), u),
    ensures
        a is Ok <==> holds(response@, "\"ok\":true"@),
        a matches Err(e) ==> e is Server && e->error@ == response@,
        u is Ok <==> up.ok,
        u matches Ok(x) ==> x == up,
        u matches Err(e) ==> e is Server && (up.error matches Some(t) ==> e->error@ == t@),
{
}

/// The services listen where they are configured to: the credentials on the bridge,
/// the control API there and on the loopback.
pub proof fn law_listeners(config: &ProxyConfig, r: Listeners)
    requires
        call_ensures(listeners, (config,), r),
    ensures
        r.git@ == config.bind_address@ + ":"@ + decimal_of(config.git_credential_port as nat),
        r.control_bridge@ == config.bind_address@ + ":"@ + decimal_of(config.control_port as nat),
        r.control_local@ == "127.0.0.1"@ + ":"@ + decimal_of(config.control_port as nat),
{
}

/// What an `up` answers with is what the file of the env says, and the repo of an
/// env is the one that the client gave.
pub proof fn law_up_address_and_repo(ip_file: Option<&str>, ip: String, repo: Option<&str>, name: String)
    requires
        call_ensures(up_ip, (ip_file,), ip),
        call_ensures(repo_or_unknown, (repo,), name),
    ensures
        ip_file matches Some(t) ==> ip@ == trimmed(t@),
        ip_file is None ==> ip@.len() == 0,
        repo matches Some(n) ==> name@ == n@,
        repo is None ==> name@ == "unknown"@,
{
    reveal_strlit("");
}

} // verus!
