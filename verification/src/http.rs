use vstd::prelude::*;
use vstd::utf8::encode_utf8;

use crate::number::{decimal, decimal_of, is_digit, lemma_decimal_value};
use crate::text::{find, first_at, holds, lemma_first_at, occurs_at, opt_view};

verus! {

/// What stands between the head of a message and its body.
pub const BLANK_LINE: &'static str = "\r\n\r\n";

/// How many bytes a text takes.
pub open spec fn byte_count(s: Seq<char>) -> nat {
    (encode_utf8(s).len() as usize) as nat
}

/// How many bytes a text takes, in decimal.
pub fn byte_length(s: &str) -> (r: String)
    ensures
        r@ == decimal_of(byte_count(s@)),
{
    decimal(s.len() as u64)
}

/// The request for `path` with this body.
pub open spec fn request_of(method: Seq<char>, path: Seq<char>, body: Seq<char>) -> Seq<char> {
    method + " "@ + path + " HTTP/1.0\r\nHost: localhost\r\nContent-Length: "@ + decimal_of(
        byte_count(body),
    ) + BLANK_LINE@ + body
}

/// The response with this status and this body.
pub open spec fn response_of(status: Seq<char>, body: Seq<char>) -> Seq<char> {
    "HTTP/1.1 "@ + status + "\r\ncontent-length: "@ + decimal_of(byte_count(body)) + BLANK_LINE@
        + body
}

/// What follows the first blank line of a message.
pub open spec fn body_in(message: Seq<char>) -> Option<Seq<char>> {
    match first_at(message, BLANK_LINE@) {
        Some(i) => Some(message.skip(i + 4)),
        None => None,
    }
}

pub fn request(method: &str, path: &str, body: &str) -> (r: String)
    ensures
        r@ == request_of(method@, path@, body@),
{
    let mut s = method.to_string();
    s.append(" ");
    s.append(path);
    s.append(" HTTP/1.0\r\nHost: localhost\r\nContent-Length: ");
    s.append(byte_length(body).as_str());
    s.append(BLANK_LINE);
    s.append(body);
    s
}

pub fn response(status: &str, body: &str) -> (r: String)
    ensures
        r@ == response_of(status@, body@),
{
    let mut s = "HTTP/1.1 ".to_string();
    s.append(status);
    s.append("\r\ncontent-length: ");
    s.append(byte_length(body).as_str());
    s.append(BLANK_LINE);
    s.append(body);
    s
}

/// The body of a message, where it has a blank line.
pub fn body(message: &str) -> (r: Option<&str>)
    ensures
        opt_view(r) == body_in(message@),
{
    proof {
        reveal_strlit("\r\n\r\n");
    }
    match find(message, BLANK_LINE) {
        Some(i) => {
            let n = message.unicode_len();
            let b = message.substring_char(i + 4, n);
            proof {
                assert(b@ =~= message@.skip(i + 4));
            }
            Some(b)
        },
        None => None,
    }
}

/// What a client takes for the body of a response: all of it, where it has no
/// blank line.
pub fn response_body(response: &str) -> (r: String)
    ensures
        r@ == match body_in(response@) {
            Some(b) => b,
            None => response@,
        },
{
    match body(response) {
        Some(b) => b.to_string(),
        None => response.to_string(),
    }
}

/// What follows the first blank line behind a head that holds none, and ends in a
/// digit.
proof fn lemma_body_behind(head: Seq<char>, body: Seq<char>)
    requires
        head.len() > 0,
        is_digit(head.last()),
        !holds(head, BLANK_LINE@),
    ensures
        body_in(head + BLANK_LINE@ + body) == Some(body),
{
    reveal_strlit("\r\n\r\n");
    let b = BLANK_LINE@;
    let m = head + b + body;
    let n = head.len() as int;
    assert(m.subrange(n, n + 4) =~= b);
    assert(occurs_at(m, b, n));
    assert forall|j: int| 0 <= j < n implies !#[trigger] occurs_at(m, b, j) by {
        if occurs_at(m, b, j) {
            let s = m.subrange(j, j + 4);
            if j + 4 <= n {
                assert(head.subrange(j, j + 4) =~= s);
                assert(occurs_at(head, b, j));
            } else {
                assert(s[n - 1 - j] == m[n - 1]);
                assert(m[n - 1] == head.last());
                assert(n - 1 - j == 0 || n - 1 - j == 1 || n - 1 - j == 2);
            }
        }
    }
    lemma_first_at(m, b, n);
    assert(m.skip(n + 4) =~= body);
}

/// The four characters of a blank line.
proof fn lemma_blank_at(s: Seq<char>, i: int)
    requires
        occurs_at(s, BLANK_LINE@, i),
    ensures
        0 <= i,
        i + 4 <= s.len(),
        s[i] == '\r',
        s[i + 1] == '\n',
        s[i + 2] == '\r',
        s[i + 3] == '\n',
{
    reveal_strlit("\r\n\r\n");
    let t = s.subrange(i, i + 4);
    assert(t[0] == s[i] && t[1] == s[i + 1] && t[2] == s[i + 2] && t[3] == s[i + 3]);
}

/// A text without a carriage return makes no blank line.
pub proof fn lemma_one_line(s: Seq<char>)
    requires
        !s.contains('\r'),
    ensures
        !holds(s, BLANK_LINE@),
        !holds(s + "\r\n"@, BLANK_LINE@),
{
    reveal_strlit("\r\n");
    let t = s + "\r\n"@;
    assert forall|i: int| !#[trigger] occurs_at(s, BLANK_LINE@, i) by {
        if occurs_at(s, BLANK_LINE@, i) {
            lemma_blank_at(s, i);
            assert(s.contains(s[i]));
        }
    }
    assert forall|i: int| !#[trigger] occurs_at(t, BLANK_LINE@, i) by {
        if occurs_at(t, BLANK_LINE@, i) {
            lemma_blank_at(t, i);
            assert(t[i] == s[i]);
            assert(s.contains(s[i]));
        }
    }
}

/// The body of a response is read back from it, unless its status makes a blank
/// line.
pub proof fn law_response_body(status: Seq<char>, body: Seq<char>)
    requires
        !holds(status + "\r\n"@, BLANK_LINE@),
    ensures
        body_in(response_of(status, body)) == Some(body),
{
    reveal_strlit("HTTP/1.1 ");
    reveal_strlit("\r\ncontent-length: ");
    reveal_strlit("\r\n");
    reveal_strlit("\r\n\r\n");
    let a = "HTTP/1.1 "@;
    let c = "\r\ncontent-length: "@;
    let d = decimal_of(byte_count(body));
    lemma_decimal_value(byte_count(body));
    let head = a + status + c + d;
    let p = a.len() + status.len() as int;
    assert forall|i: int|
        0 <= i < head.len() && (#[trigger] head[i] == '\r' || head[i] == '\n') implies a.len() <= i
        < p + 2 by {
        if i < a.len() {
            assert(head[i] == a[i]);
            assert(i == 0 || i == 1 || i == 2 || i == 3 || i == 4 || i == 5 || i == 6 || i == 7
                || i == 8);
        } else if i >= p + 2 && i < p + c.len() {
            let k = i - p;
            assert(head[i] == c[k]);
            assert(k == 2 || k == 3 || k == 4 || k == 5 || k == 6 || k == 7 || k == 8 || k == 9 || k
                == 10 || k == 11 || k == 12 || k == 13 || k == 14 || k == 15 || k == 16 || k == 17);
        } else if i >= p + c.len() {
            assert(head[i] == d[i - p - c.len()]);
            assert(is_digit(d[i - p - c.len()]));
        }
    }
    if holds(head, BLANK_LINE@) {
        let i = choose|i: int| occurs_at(head, BLANK_LINE@, i);
        lemma_blank_at(head, i);
        let t = status + "\r\n"@;
        let j = i - a.len();
        assert(a.len() <= i && i + 3 < p + 2);
        assert forall|k: int| 0 <= k < 4 implies #[trigger] t.subrange(j, j + 4)[k]
            == head.subrange(i, i + 4)[k] by {
            if j + k < status.len() {
                assert(head[i + k] == status[j + k]);
            } else {
                assert(head[i + k] == c[i + k - p]);
            }
        }
        assert(t.subrange(j, j + 4) =~= head.subrange(i, i + 4));
        assert(occurs_at(t, BLANK_LINE@, j));
    }
    assert(head.last() == d.last());
    assert(is_digit(d[d.len() - 1]));
    lemma_body_behind(head, body);
}

proof fn lemma_request_rest()
    ensures
        ({
            let c = " HTTP/1.0\r\nHost: localhost\r\nContent-Length: "@;
            &&& c.len() == 44
            &&& c[0] == ' '
            &&& forall|k: int|
                0 <= k < c.len() && #[trigger] c[k] == '\r' ==> k == 9 || k == 26
        }),
{
    reveal_strlit(" HTTP/1.0\r\nHost: localhost\r\nContent-Length: ");
    reveal_strlit(" HTTP/1.0");
    reveal_strlit("\r\n");
    reveal_strlit("Host: localhost");
    reveal_strlit("Content-Length: ");
    let c = " HTTP/1.0\r\nHost: localhost\r\nContent-Length: "@;
    assert forall|k: int| 0 <= k < c.len() && #[trigger] c[k] == '\r' implies k == 9 || k == 26 by {
        assert(k == 0 || k == 1 || k == 2 || k == 3 || k == 4 || k == 5 || k == 6 || k == 7 || k
            == 8 || k == 9 || k == 10 || k == 11 || k == 12 || k == 13 || k == 14 || k == 15 || k
            == 16 || k == 17 || k == 18 || k == 19 || k == 20 || k == 21 || k == 22 || k == 23 || k
            == 24 || k == 25 || k == 26 || k == 27 || k == 28 || k == 29 || k == 30 || k == 31 || k
            == 32 || k == 33 || k == 34 || k == 35 || k == 36 || k == 37 || k == 38 || k == 39 || k
            == 40 || k == 41 || k == 42 || k == 43);
    }
}

/// The body of a request is read back from it, unless its method or its path holds
/// a blank line.
pub proof fn law_request_body(method: Seq<char>, path: Seq<char>, body: Seq<char>)
    requires
        !holds(method, BLANK_LINE@),
        !holds(path, BLANK_LINE@),
    ensures
        body_in(request_of(method, path, body)) == Some(body),
{
    reveal_strlit(" ");
    reveal_strlit("\r\n\r\n");
    let c = " HTTP/1.0\r\nHost: localhost\r\nContent-Length: "@;
    let d = decimal_of(byte_count(body));
    lemma_decimal_value(byte_count(body));
    lemma_request_rest();
    let head = method + " "@ + path + c + d;
    let q = method.len() as int;
    let p = q + 1 + path.len();
    if holds(head, BLANK_LINE@) {
        let i = choose|i: int| occurs_at(head, BLANK_LINE@, i);
        lemma_blank_at(head, i);
        assert(head[q] == ' ');
        assert(head[p] == c[0]);
        if i < q {
            assert(i + 3 < q);
            assert(method.subrange(i, i + 4) =~= head.subrange(i, i + 4));
            assert(occurs_at(method, BLANK_LINE@, i));
        } else if i < p {
            let j = i - q - 1;
            assert(i + 3 < p);
            assert(path.subrange(j, j + 4) =~= head.subrange(i, i + 4));
            assert(occurs_at(path, BLANK_LINE@, j));
        } else if i < p + 44 {
            assert(head[i] == c[i - p]);
            assert(head[i + 2] == c[i + 2 - p]);
        } else {
            assert(head[i] == d[i - p - 44]);
            assert(is_digit(d[i - p - 44]));
        }
    }
    assert(head.last() == d.last());
    assert(is_digit(d[d.len() - 1]));
    lemma_body_behind(head, body);
}

} // verus!
