use vstd::prelude::*;

use crate::number::{decimal, decimal_of};
use crate::order::{before, lemma_at_most_antisymmetric, lemma_at_most_trans};
use crate::text::{join, joined, opt_text, opt_view, same, views};

verus! {

/// A JSON value. A number is held by its text; the members of an object
/// stand in the order in which they are walked.
pub enum Json {
    Null,
    Bool(bool),
    Number(String),
    Text(String),
    Array(Vec<Json>),
    Object(Vec<Member>),
}

/// A member of a JSON object.
pub struct Member {
    pub key: String,
    pub value: Json,
}

/// What a JSON value says.
pub enum JsonView {
    Null,
    Bool(bool),
    Number(Seq<char>),
    Text(Seq<char>),
    Array(Seq<JsonView>),
    Object(Seq<MemberView>),
}

/// What a member of a JSON object says.
pub struct MemberView {
    pub key: Seq<char>,
    pub value: JsonView,
}

impl View for Member {
    type V = MemberView;

    open spec fn view(&self) -> MemberView {
        MemberView { key: self.key@, value: self.value@ }
    }
}

impl View for Json {
    type V = JsonView;

    open spec fn view(&self) -> JsonView
        decreases self,
    {
        match self {
            Json::Null => JsonView::Null,
            Json::Bool(b) => JsonView::Bool(*b),
            Json::Number(n) => JsonView::Number(n@),
            Json::Text(s) => JsonView::Text(s@),
            Json::Array(v) => JsonView::Array(
                Seq::new(
                    v@.len(),
                    |i: int|
                        if 0 <= i < v@.len() {
                            v@[i].view()
                        } else {
                            JsonView::Null
                        },
                ),
            ),
            Json::Object(v) => JsonView::Object(
                Seq::new(
                    v@.len(),
                    |i: int|
                        if 0 <= i < v@.len() {
                            MemberView { key: v@[i].key@, value: v@[i].value.view() }
                        } else {
                            MemberView { key: Seq::empty(), value: JsonView::Null }
                        },
                ),
            ),
        }
    }
}

/// What the values say.
pub open spec fn json_views(items: Seq<Json>) -> Seq<JsonView> {
    items.map_values(|x: Json| x@)
}

/// What the members say.
pub open spec fn member_views(members: Seq<Member>) -> Seq<MemberView> {
    members.map_values(|m: Member| m@)
}

/// What an array says, item by item.
pub proof fn lemma_array_view(items: Vec<Json>)
    ensures
        Json::Array(items)@ == JsonView::Array(json_views(items@)),
{
    let j = Json::Array(items);
    assert(j@->Array_0 =~= json_views(items@));
}

/// What an object says, member by member.
pub proof fn lemma_object_view(members: Vec<Member>)
    ensures
        Json::Object(members)@ == JsonView::Object(member_views(members@)),
{
    let j = Json::Object(members);
    assert(j@->Object_0 =~= member_views(members@));
}

/// Each key comes before the next one, in the order of strings.
pub open spec fn keys_ascend(members: Seq<MemberView>) -> bool {
    forall|i: int, j: int|
        0 <= i < j < members.len() ==> before(#[trigger] members[i].key, #[trigger] members[j].key)
}

/// The decimal text of a whole number from `i64::MIN` to `u64::MAX`.
pub open spec fn is_whole(t: Seq<char>) -> bool {
    ||| exists|n: nat| n <= u64::MAX && t == #[trigger] decimal_of(n)
    ||| exists|n: nat| 0 < n <= 0x8000_0000_0000_0000 && t == "-"@ + #[trigger] decimal_of(n)
}

/// Every number in the value is whole, and the keys of every object ascend.
pub open spec fn plain(j: JsonView) -> bool
    decreases j,
{
    match j {
        JsonView::Number(t) => is_whole(t),
        JsonView::Array(items) => forall|i: int|
            0 <= i < items.len() ==> plain(#[trigger] items[i]),
        JsonView::Object(members) => keys_ascend(members) && forall|i: int|
            0 <= i < members.len() ==> plain((#[trigger] members[i]).value),
        _ => true,
    }
}

/// No key occurs twice.
pub open spec fn keys_differ(members: Seq<MemberView>) -> bool {
    forall|i: int, j: int|
        0 <= i < j < members.len() ==> #[trigger] members[i].key != #[trigger] members[j].key
}

/// Every number in the value is whole, and no object has a key twice.
pub open spec fn unambiguous(j: JsonView) -> bool
    decreases j,
{
    match j {
        JsonView::Number(t) => is_whole(t),
        JsonView::Array(items) => forall|i: int|
            0 <= i < items.len() ==> unambiguous(#[trigger] items[i]),
        JsonView::Object(members) => keys_differ(members) && forall|i: int|
            0 <= i < members.len() ==> unambiguous((#[trigger] members[i]).value),
        _ => true,
    }
}

/// `h` says what `j` says, with the members of every object in the order of
/// their keys.
pub open spec fn read_as(j: JsonView, h: JsonView) -> bool
    decreases j,
{
    match (j, h) {
        (JsonView::Array(x), JsonView::Array(y)) => x.len() == y.len() && forall|i: int|
            0 <= i < x.len() ==> read_as(#[trigger] x[i], y[i]),
        (JsonView::Object(x), JsonView::Object(y)) => keys_ascend(y) && x.len() == y.len()
            && forall|i: int|
            0 <= i < x.len() ==> exists|k: int|
                0 <= k < y.len() && (#[trigger] y[k]).key == (#[trigger] x[i]).key && read_as(
                    x[i].value,
                    y[k].value,
                ),
        _ => j == h,
    }
}

/// No more than `n` arrays and objects stand inside one another.
pub open spec fn nests_within(j: JsonView, n: nat) -> bool
    decreases j,
{
    match j {
        JsonView::Array(items) => n > 0 && forall|i: int|
            0 <= i < items.len() ==> nests_within(#[trigger] items[i], (n - 1) as nat),
        JsonView::Object(members) => n > 0 && forall|i: int|
            0 <= i < members.len() ==> nests_within((#[trigger] members[i]).value, (n - 1) as nat),
        _ => true,
    }
}

// ---------------------------------------------------------------------
// serde_json
// ---------------------------------------------------------------------

/// The values of the crate `serde_json`.
#[verifier::external_type_specification]
#[verifier::external_body]
pub struct ExValue(serde_json::Value);

/// The errors of the crate `serde_json`.
#[verifier::external_type_specification]
#[verifier::external_body]
pub struct ExJsonError(serde_json::Error);

/// What a value of `serde_json` holds.
pub uninterp spec fn value_holds(v: serde_json::Value) -> JsonView;

/// What `serde_json::from_str` reads from a text, as a value; nothing, where it
/// refuses the text.
pub uninterp spec fn text_holds(text: Seq<char>) -> Option<JsonView>;

/// The compact text that `serde_json` writes for a value.
pub uninterp spec fn compact(j: JsonView) -> Seq<char>;

/// Where the parts of a value stand: all on one line, or each on a line of its
/// own, which starts with this text.
pub open spec fn gap(at: Option<Seq<char>>) -> Seq<char> {
    match at {
        Some(indent) => "\n"@ + indent,
        None => ""@,
    }
}

/// The parts of a part stand two further in.
pub open spec fn inner(at: Option<Seq<char>>) -> Option<Seq<char>> {
    match at {
        Some(indent) => Some(indent + "  "@),
        None => None,
    }
}

/// The parts of an array or an object, between its brackets.
pub open spec fn bracketed(
    open: Seq<char>,
    parts: Seq<Seq<char>>,
    close: Seq<char>,
    at: Option<Seq<char>>,
) -> Seq<char> {
    if parts.len() == 0 {
        open + close
    } else {
        open + gap(inner(at)) + joined(parts, ","@ + gap(inner(at))) + gap(at) + close
    }
}

/// The JSON text of a value, its members in the order in which they stand: on
/// one line without white space, or indented.
pub open spec fn written(j: JsonView, at: Option<Seq<char>>) -> Seq<char>
    decreases j,
{
    match j {
        JsonView::Null => "null"@,
        JsonView::Bool(b) => if b {
            "true"@
        } else {
            "false"@
        },
        JsonView::Number(t) => t,
        JsonView::Text(_) => compact(j),
        JsonView::Array(items) => bracketed(
            "["@,
            items_written(items, inner(at)),
            "]"@,
            at,
        ),
        JsonView::Object(members) => bracketed(
            "{"@,
            members_written(members, inner(at)),
            "}"@,
            at,
        ),
    }
}

/// The texts of the items of an array.
pub open spec fn items_written(items: Seq<JsonView>, at: Option<Seq<char>>) -> Seq<Seq<char>>
    decreases items,
{
    Seq::new(
        items.len(),
        |i: int|
            if 0 <= i < items.len() {
                written(items[i], at)
            } else {
                ""@
            },
    )
}

/// What stands between a key and its value.
pub open spec fn colon(at: Option<Seq<char>>) -> Seq<char> {
    if at is Some {
        ": "@
    } else {
        ":"@
    }
}

/// The texts of the members of an object.
pub open spec fn members_written(members: Seq<MemberView>, at: Option<Seq<char>>) -> Seq<Seq<char>>
    decreases members,
{
    Seq::new(
        members.len(),
        |i: int|
            if 0 <= i < members.len() {
                compact(JsonView::Text(members[i].key)) + colon(at) + written(members[i].value, at)
            } else {
                ""@
            },
    )
}

/// The indented JSON text of a value.
pub open spec fn pretty(j: JsonView) -> Seq<char> {
    written(j, Some(""@))
}

/// The text is the indented one of a value that can be read back: its numbers are
/// whole, no object has a key twice, and no more than 127 levels nest.
pub open spec fn writes_out(text: Seq<char>, j: JsonView) -> bool {
    text == pretty(j) && unambiguous(j) && nests_within(j, 127)
}

/// A value of `serde_json`, opened by one level.
enum Node {
    Null,
    Bool(bool),
    Number(String),
    Text(String),
    Array(Vec<serde_json::Value>),
    Object(Vec<(String, serde_json::Value)>),
}

spec fn member_holds(m: (String, serde_json::Value)) -> MemberView {
    MemberView { key: m.0@, value: value_holds(m.1) }
}

spec fn node_holds(n: Node) -> JsonView {
    match n {
        Node::Null => JsonView::Null,
        Node::Bool(b) => JsonView::Bool(b),
        Node::Number(t) => JsonView::Number(t@),
        Node::Text(t) => JsonView::Text(t@),
        Node::Array(v) => JsonView::Array(v@.map_values(|x: serde_json::Value| value_holds(x))),
        Node::Object(v) => JsonView::Object(
            v@.map_values(|m: (String, serde_json::Value)| member_holds(m)),
        ),
    }
}

/// `serde_json::from_str`, asked for a `serde_json::Value`: it succeeds on the
/// texts that are JSON, with the value that the text writes. White space between
/// the parts of a text is skipped, and the members of an object come in the order
/// of their keys whatever their order in the text: so the indented text of a value
/// is read as that value. No more than 127 levels are read.
#[verifier::external_body]
fn value_from_text(text: &str) -> (r: Result<serde_json::Value, serde_json::Error>)
    ensures
        match r {
            Ok(v) => text_holds(text@) == Some(value_holds(v)) && forall|j: JsonView|
                #[trigger] writes_out(text@, j) ==> read_as(j, value_holds(v)),
            Err(_) => text_holds(text@) is None && forall|j: JsonView|
                !#[trigger] writes_out(text@, j),
        },
{
    serde_json::from_str(text)
}

/// The variants of `serde_json::Value`, told apart, with what they carry: a
/// number by what `Number::to_string` writes, the members of an object in the
/// order of its keys, in which `serde_json::Map` keeps and yields them.
#[verifier::external_body]
fn open_value(v: serde_json::Value) -> (n: Node)
    ensures
        node_holds(n) == value_holds(v),
        match node_holds(n) {
            JsonView::Object(members) => keys_ascend(members),
            _ => true,
        },
{
    match v {
        serde_json::Value::Null => Node::Null,
        serde_json::Value::Bool(b) => Node::Bool(b),
        serde_json::Value::Number(n) => Node::Number(n.to_string()),
        serde_json::Value::String(s) => Node::Text(s),
        serde_json::Value::Array(a) => Node::Array(a),
        serde_json::Value::Object(m) => Node::Object(m.into_iter().collect()),
    }
}

/// The variants of `serde_json::Value`, made from what they carry. A number is
/// read by `serde_json::Number`'s `from_str`, which takes every whole number in
/// range and writes it back as the same text; `serde_json::Map` takes members
/// whose keys ascend in the order given.
#[verifier::external_body]
fn close_value(n: Node) -> (v: serde_json::Value)
    requires
        match node_holds(n) {
            JsonView::Number(t) => is_whole(t),
            JsonView::Object(members) => keys_ascend(members),
            _ => true,
        },
    ensures
        value_holds(v) == node_holds(n),
{
    match n {
        Node::Null => serde_json::Value::Null,
        Node::Bool(b) => serde_json::Value::Bool(b),
        Node::Number(t) => serde_json::Value::Number(t.parse().unwrap()),
        Node::Text(s) => serde_json::Value::String(s),
        Node::Array(a) => serde_json::Value::Array(a),
        Node::Object(m) => serde_json::Value::Object(m.into_iter().collect()),
    }
}

/// `serde_json::Value`'s `to_string`: the compact text of the value. Where all
/// its numbers are whole and it nests no deeper than `from_str` reads, which is
/// 127 levels, that text is read back as the same value.
#[verifier::external_body]
fn value_to_text(v: &serde_json::Value) -> (s: String)
    ensures
        s@ == compact(value_holds(*v)),
        plain(value_holds(*v)) && nests_within(value_holds(*v), 127) ==> text_holds(s@) == Some(
            value_holds(*v),
        ),
{
    v.to_string()
}

// ---------------------------------------------------------------------
// Reading and writing
// ---------------------------------------------------------------------

/// The value that a value of `serde_json` holds.
fn json_of(v: serde_json::Value) -> (j: Json)
    ensures
        j@ == value_holds(v),
    decreases value_holds(v),
{
    let ghost whole = value_holds(v);
    match open_value(v) {
        Node::Null => Json::Null,
        Node::Bool(b) => Json::Bool(b),
        Node::Number(t) => Json::Number(t),
        Node::Text(t) => Json::Text(t),
        Node::Array(items) => {
            let ghost held = items@;
            let mut rest = items;
            let mut out: Vec<Json> = Vec::new();
            while rest.len() > 0
                invariant
                    whole == JsonView::Array(
                        held.map_values(|x: serde_json::Value| value_holds(x)),
                    ),
                    whole == value_holds(v),
                    rest@ == held.skip(out@.len() as int),
                    out@.len() <= held.len(),
                    forall|i: int| 0 <= i < out@.len() ==> (#[trigger] out@[i])@ == value_holds(held[i]),
                decreases rest@.len(),
            {
                let x = rest.remove(0);
                proof {
                    let k = out@.len() as int;
                    assert(x == held[k]);
                    assert(whole->Array_0[k] == value_holds(x));
                }
                out.push(json_of(x));
                proof {
                    assert(rest@ =~= held.skip(out@.len() as int));
                }
            }
            let j = Json::Array(out);
            proof {
                assert(j@->Array_0 =~= whole->Array_0);
            }
            j
        },
        Node::Object(members) => {
            let ghost held = members@;
            let mut rest = members;
            let mut out: Vec<Member> = Vec::new();
            while rest.len() > 0
                invariant
                    whole == JsonView::Object(
                        held.map_values(
                            |m: (String, serde_json::Value)| member_holds(m),
                        ),
                    ),
                    whole == value_holds(v),
                    rest@ == held.skip(out@.len() as int),
                    out@.len() <= held.len(),
                    forall|i: int|
                        0 <= i < out@.len() ==> (#[trigger] out@[i])@ == member_holds(held[i]),
                decreases rest@.len(),
            {
                let (k, x) = rest.remove(0);
                proof {
                    let n = out@.len() as int;
                    assert((k, x) == held[n]);
                    assert(whole->Object_0[n] == member_holds((k, x)));
                    assert(decreases_to!(whole => whole->Object_0));
                    assert(decreases_to!(whole->Object_0 => whole->Object_0[n]));
                    assert(decreases_to!(whole->Object_0[n] => whole->Object_0[n].value));
                }
                out.push(Member { key: k, value: json_of(x) });
                proof {
                    assert(rest@ =~= held.skip(out@.len() as int));
                }
            }
            let j = Json::Object(out);
            proof {
                assert(j@->Object_0 =~= whole->Object_0);
            }
            j
        },
    }
}

/// Read a JSON text.
pub fn parse_json(text: &str) -> (r: Option<Json>)
    ensures
        match text_holds(text@) {
            Some(h) => r matches Some(j) && j@ == h,
            None => r is None,
        },
        forall|j: JsonView| #[trigger]
            writes_out(text@, j) ==> (r matches Some(h) && read_as(j, h@)),
{
    match value_from_text(text) {
        Ok(v) => Some(json_of(v)),
        Err(_) => None,
    }
}

/// The value of `serde_json` that holds what `j` says.
fn value_of(j: &Json) -> (v: serde_json::Value)
    requires
        plain(j@),
    ensures
        value_holds(v) == j@,
    decreases j,
{
    match j {
        Json::Null => close_value(Node::Null),
        Json::Bool(b) => close_value(Node::Bool(*b)),
        Json::Number(t) => close_value(Node::Number(t.clone())),
        Json::Text(t) => close_value(Node::Text(t.clone())),
        Json::Array(items) => {
            let mut out: Vec<serde_json::Value> = Vec::new();
            for i in 0..items.len()
                invariant
                    j == &Json::Array(*items),
                    plain(j@),
                    out@.len() == i,
                    forall|k: int| 0 <= k < i ==> value_holds(#[trigger] out@[k]) == items@[k]@,
            {
                proof {
                    assert(j@->Array_0[i as int] == items@[i as int]@);
                    assert(decreases_to!(j => items@[i as int]));
                }
                out.push(value_of(&items[i]));
            }
            let n = Node::Array(out);
            proof {
                assert(node_holds(n)->Array_0 =~= j@->Array_0);
            }
            close_value(n)
        },
        Json::Object(members) => {
            let mut out: Vec<(String, serde_json::Value)> = Vec::new();
            for i in 0..members.len()
                invariant
                    j == &Json::Object(*members),
                    plain(j@),
                    out@.len() == i,
                    forall|k: int|
                        0 <= k < i ==> member_holds(#[trigger] out@[k]) == members@[k]@,
            {
                proof {
                    lemma_object_view(*members);
                    assert(j@->Object_0[i as int] == members@[i as int]@);
                    assert(decreases_to!(j => members@[i as int].value));
                }
                out.push((members[i].key.clone(), value_of(&members[i].value)));
            }
            let n = Node::Object(out);
            proof {
                lemma_object_view(*members);
                assert(node_holds(n)->Object_0 =~= j@->Object_0);
            }
            close_value(n)
        },
    }
}

/// Write a value as compact JSON text, which reads back as the same value.
pub fn render_json(j: &Json) -> (s: String)
    requires
        plain(j@),
    ensures
        s@ == compact(j@),
        nests_within(j@, 127) ==> text_holds(s@) == Some(j@),
{
    value_to_text(&value_of(j))
}

/// Write a value as JSON text, its members in the order in which they stand: on
/// one line, or indented, with `indent` in front of the lines of the value.
pub fn write_json(j: &Json, indent: Option<&str>) -> (r: String)
    ensures
        r@ == written(j@, opt_view(indent)),
    decreases j,
{
    let ghost at = opt_view(indent);
    let further = match indent {
        Some(s) => {
            let mut t = s.to_string();
            t.append("  ");
            Some(t)
        },
        None => None,
    };
    let below = match &further {
        Some(t) => Some(t.as_str()),
        None => None,
    };
    proof {
        assert(opt_view(below) == inner(at));
    }
    match j {
        Json::Null => "null".to_string(),
        Json::Bool(b) => if *b {
            "true".to_string()
        } else {
            "false".to_string()
        },
        Json::Number(t) => t.clone(),
        Json::Text(t) => quoted(t.as_str()),
        Json::Array(items) => {
            let mut parts: Vec<String> = Vec::new();
            for i in 0..items.len()
                invariant
                    j == &Json::Array(*items),
                    opt_view(below) == inner(at),
                    parts@.len() == i,
                    forall|k: int|
                        0 <= k < i ==> (#[trigger] parts@[k])@ == written(items@[k]@, inner(at)),
            {
                proof {
                    assert(j@->Array_0[i as int] == items@[i as int]@);
                    assert(decreases_to!(j => items@[i as int]));
                }
                parts.push(write_json(&items[i], below));
            }
            proof {
                lemma_array_view(*items);
                assert(views(parts@) =~= items_written(j@->Array_0, inner(at)));
            }
            bracket("[", &parts, "]", indent, below)
        },
        Json::Object(members) => {
            let mark = match indent {
                Some(_) => ": ",
                None => ":",
            };
            let mut parts: Vec<String> = Vec::new();
            for i in 0..members.len()
                invariant
                    j == &Json::Object(*members),
                    opt_view(below) == inner(at),
                    mark@ == colon(inner(at)),
                    parts@.len() == i,
                    forall|k: int|
                        0 <= k < i ==> (#[trigger] parts@[k])@ == compact(
                            JsonView::Text(members@[k].key@),
                        ) + colon(inner(at)) + written(members@[k].value@, inner(at)),
            {
                proof {
                    lemma_object_view(*members);
                    assert(j@->Object_0[i as int] == members@[i as int]@);
                    assert(decreases_to!(j => members@[i as int].value));
                }
                let mut part = quoted(members[i].key.as_str());
                part.append(mark);
                part.append(write_json(&members[i].value, below).as_str());
                parts.push(part);
            }
            proof {
                lemma_object_view(*members);
                assert(views(parts@) =~= members_written(j@->Object_0, inner(at)));
            }
            bracket("{", &parts, "}", indent, below)
        },
    }
}

fn line_break(indent: Option<&str>) -> (r: String)
    ensures
        r@ == gap(opt_view(indent)),
{
    match indent {
        Some(s) => {
            let mut t = "\n".to_string();
            t.append(s);
            t
        },
        None => "".to_string(),
    }
}

fn bracket(
    open: &str,
    parts: &Vec<String>,
    close: &str,
    indent: Option<&str>,
    below: Option<&str>,
) -> (r: String)
    requires
        opt_view(below) == inner(opt_view(indent)),
    ensures
        r@ == bracketed(open@, views(parts@), close@, opt_view(indent)),
{
    let mut s = open.to_string();
    if parts.len() > 0 {
        let first = line_break(below);
        let mut sep = ",".to_string();
        sep.append(first.as_str());
        s.append(first.as_str());
        s.append(join(parts, sep.as_str()).as_str());
        s.append(line_break(indent).as_str());
    }
    s.append(close);
    s
}

// ---------------------------------------------------------------------
// Looking into a value, and building one
// ---------------------------------------------------------------------

/// The position of the member with this key.
pub open spec fn member_from(members: Seq<MemberView>, key: Seq<char>, from: int) -> Option<int>
    decreases members.len() - from,
{
    if from < 0 || from >= members.len() {
        None
    } else if members[from].key == key {
        Some(from)
    } else {
        member_from(members, key, from + 1)
    }
}

/// What an object holds under a key.
pub open spec fn field(j: JsonView, key: Seq<char>) -> Option<JsonView> {
    match j {
        JsonView::Object(members) => match member_from(members, key, 0) {
            Some(i) => Some(members[i].value),
            None => None,
        },
        _ => None,
    }
}

/// What a value that may be missing holds under a key.
pub open spec fn field_in(j: Option<JsonView>, key: Seq<char>) -> Option<JsonView> {
    match j {
        Some(v) => field(v, key),
        None => None,
    }
}

/// The text that a value is, if it is one.
pub open spec fn text_in(j: Option<JsonView>) -> Option<Seq<char>> {
    match j {
        Some(JsonView::Text(t)) => Some(t),
        _ => None,
    }
}

/// What a value that may be missing says.
pub open spec fn opt_json(j: Option<&Json>) -> Option<JsonView> {
    match j {
        Some(v) => Some(v@),
        None => None,
    }
}

/// The position of the member with this key.
pub(crate) fn member_index(members: &Vec<Member>, key: &str) -> (r: Option<usize>)
    ensures
        match member_from(member_views(members@), key@, 0) {
            Some(i) => (r matches Some(k) && k == i) && i < members@.len() && members@[i].key@ == key@,
            None => r is None,
        },
{
    let ghost all = member_views(members@);
    for i in 0..members.len()
        invariant
            all == member_views(members@),
            member_from(all, key@, 0) == member_from(all, key@, i as int),
    {
        proof {
            assert(all[i as int] == members@[i as int]@);
        }
        if same(members[i].key.as_str(), key) {
            return Some(i);
        }
    }
    None
}

impl Json {
    /// What the value holds under a key, where it is an object that has it.
    pub fn get(&self, key: &str) -> (r: Option<&Json>)
        ensures
            opt_json(r) == field(self@, key@),
    {
        match self {
            Json::Object(members) => {
                proof {
                    lemma_object_view(*members);
                }
                match member_index(members, key) {
                    Some(i) => {
                        proof {
                            assert(self@->Object_0[i as int] == members@[i as int]@);
                        }
                        Some(&members[i].value)
                    },
                    None => None,
                }
            },
            _ => None,
        }
    }

    /// The text that the value is, if it is one.
    pub fn as_text(&self) -> (r: Option<&str>)
        ensures
            opt_view(r) == text_in(Some(self@)),
    {
        match self {
            Json::Text(t) => Some(t.as_str()),
            _ => None,
        }
    }
}

/// Whether a value is this text.
pub fn same_text(j: &Json, t: &str) -> (r: bool)
    ensures
        r == (j@ == JsonView::Text(t@)),
{
    match j {
        Json::Text(s) => same(s.as_str(), t),
        _ => false,
    }
}

pub open spec fn entry(key: Seq<char>, value: JsonView) -> MemberView {
    MemberView { key, value }
}

/// A member of an object.
pub fn member(key: &str, value: Json) -> (m: Member)
    ensures
        m@ == (MemberView { key: key@, value: value@ }),
{
    Member { key: key.to_string(), value }
}

/// An object with these members.
pub fn object(members: Vec<Member>) -> (j: Json)
    ensures
        j@ == JsonView::Object(member_views(members@)),
{
    proof {
        lemma_object_view(members);
    }
    Json::Object(members)
}

/// An array of these items.
pub fn array(items: Vec<Json>) -> (j: Json)
    ensures
        j@ == JsonView::Array(json_views(items@)),
{
    proof {
        lemma_array_view(items);
    }
    Json::Array(items)
}

/// A text as a value.
pub fn text(s: &str) -> (j: Json)
    ensures
        j@ == JsonView::Text(s@),
{
    Json::Text(s.to_string())
}

/// A whole number as a value.
pub fn whole(n: u64) -> (j: Json)
    ensures
        j@ == JsonView::Number(decimal_of(n as nat)),
{
    Json::Number(decimal(n))
}

/// A text, or null where there is none.
pub open spec fn text_or_null(t: Option<Seq<char>>) -> JsonView {
    match t {
        Some(s) => JsonView::Text(s),
        None => JsonView::Null,
    }
}

pub fn maybe_text(t: &Option<String>) -> (j: Json)
    ensures
        j@ == text_or_null(opt_text(*t)),
{
    match t {
        Some(s) => text(s.as_str()),
        None => Json::Null,
    }
}

/// An array of texts.
pub open spec fn texts_view(ss: Seq<Seq<char>>) -> JsonView {
    JsonView::Array(ss.map_values(|s: Seq<char>| JsonView::Text(s)))
}

pub fn texts(v: &Vec<String>) -> (j: Json)
    ensures
        j@ == texts_view(views(v@)),
{
    let mut items: Vec<Json> = Vec::new();
    for i in 0..v.len()
        invariant
            items@.len() == i,
            forall|k: int| 0 <= k < i ==> (#[trigger] items@[k])@ == JsonView::Text(v@[k]@),
    {
        items.push(text(v[i].as_str()));
    }
    proof {
        assert(json_views(items@) =~= views(v@).map_values(
            |s: Seq<char>| JsonView::Text(s),
        ));
    }
    array(items)
}

/// The compact text of a string value: the string in quotes, with what JSON
/// escapes in it escaped.
pub fn quoted(s: &str) -> (r: String)
    ensures
        r@ == compact(JsonView::Text(s@)),
{
    render_json(&text(s))
}

// ---------------------------------------------------------------------
// What can be written and is read back
// ---------------------------------------------------------------------

/// A value that nests no deeper than `m` nests no deeper than `n`, if `m <= n`.
pub proof fn lemma_nests_more(j: JsonView, m: nat, n: nat)
    requires
        nests_within(j, m),
        m <= n,
    ensures
        nests_within(j, n),
    decreases j,
{
    match j {
        JsonView::Array(items) => {
            assert forall|i: int| 0 <= i < items.len() implies nests_within(
                #[trigger] items[i],
                (n - 1) as nat,
            ) by {
                lemma_nests_more(items[i], (m - 1) as nat, (n - 1) as nat);
            }
        },
        JsonView::Object(members) => {
            assert forall|i: int| 0 <= i < members.len() implies nests_within(
                (#[trigger] members[i]).value,
                (n - 1) as nat,
            ) by {
                assert(decreases_to!(members[i] => members[i].value));
                lemma_nests_more(members[i].value, (m - 1) as nat, (n - 1) as nat);
            }
        },
        _ => {},
    }
}

/// Keys each of which comes before the next one ascend.
proof fn lemma_ascend_by_steps(members: Seq<MemberView>)
    requires
        forall|i: int|
            0 <= i < members.len() - 1 ==> before(#[trigger] members[i].key, members[i + 1].key),
    ensures
        keys_ascend(members),
{
    assert forall|i: int, j: int| 0 <= i < j < members.len() implies before(
        #[trigger] members[i].key,
        #[trigger] members[j].key,
    ) by {
        lemma_before_far(members, i, j);
    }
}

proof fn lemma_before_far(members: Seq<MemberView>, i: int, j: int)
    requires
        0 <= i < j < members.len(),
        forall|k: int|
            0 <= k < members.len() - 1 ==> before(#[trigger] members[k].key, members[k + 1].key),
    ensures
        before(members[i].key, members[j].key),
    decreases j - i,
{
    assert(before(members[i].key, members[i + 1].key));
    if i + 1 < j {
        lemma_before_far(members, i + 1, j);
        let a = members[i].key;
        let b = members[i + 1].key;
        let c = members[j].key;
        lemma_at_most_trans(a, b, c);
        if a == c {
            lemma_at_most_antisymmetric(a, b);
        }
    }
}

/// A value that can be written and nests no deeper than `n`.
pub open spec fn fits(j: JsonView, n: nat) -> bool {
    plain(j) && nests_within(j, n)
}

pub proof fn lemma_fits_more(j: JsonView, m: nat, n: nat)
    requires
        fits(j, m),
        m <= n,
    ensures
        fits(j, n),
{
    lemma_nests_more(j, m, n);
}

pub proof fn lemma_object_fits(members: Seq<MemberView>, n: nat)
    requires
        forall|i: int|
            0 <= i < members.len() - 1 ==> before(#[trigger] members[i].key, members[i + 1].key),
        forall|i: int| 0 <= i < members.len() ==> fits((#[trigger] members[i]).value, n),
    ensures
        fits(JsonView::Object(members), n + 1),
{
    lemma_ascend_by_steps(members);
    assert forall|i: int| 0 <= i < members.len() implies plain((#[trigger] members[i]).value)
        && nests_within(members[i].value, n) by {
        assert(fits(members[i].value, n));
    }
}

pub proof fn lemma_array_fits(items: Seq<JsonView>, n: nat)
    requires
        forall|i: int| 0 <= i < items.len() ==> fits(#[trigger] items[i], n),
    ensures
        fits(JsonView::Array(items), n + 1),
{
    assert forall|i: int| 0 <= i < items.len() implies plain(#[trigger] items[i]) && nests_within(
        items[i],
        n,
    ) by {
        assert(fits(items[i], n));
    }
}

pub proof fn lemma_leaf_fits(n: nat)
    ensures
        forall|t: Option<Seq<char>>| fits(#[trigger] text_or_null(t), n),
        forall|t: Seq<char>| #[trigger] fits(JsonView::Text(t), n),
        forall|b: bool| #[trigger] fits(JsonView::Bool(b), n),
        fits(JsonView::Null, n),
        forall|k: nat| k <= u64::MAX ==> #[trigger] fits(JsonView::Number(decimal_of(k)), n),
{
    assert forall|k: nat| k <= u64::MAX implies #[trigger] fits(
        JsonView::Number(decimal_of(k)),
        n,
    ) by {
        assert(is_whole(decimal_of(k)));
    }
}

/// A list of texts can be written.
pub proof fn lemma_texts_fits(ss: Seq<Seq<char>>)
    ensures
        fits(texts_view(ss), 1),
{
    let items = texts_view(ss)->Array_0;
    assert forall|i: int| 0 <= i < items.len() implies fits(#[trigger] items[i], 0) by {
        assert(items[i] == JsonView::Text(ss[i]));
    }
    lemma_array_fits(items, 0);
}

/// A value that is read as it was written, and nests no deeper than `n`.
pub open spec fn clear(j: JsonView, n: nat) -> bool {
    unambiguous(j) && nests_within(j, n)
}

pub proof fn lemma_clear_more(j: JsonView, m: nat, n: nat)
    requires
        clear(j, m),
        m <= n,
    ensures
        clear(j, n),
{
    lemma_nests_more(j, m, n);
}

pub proof fn lemma_object_clear(members: Seq<MemberView>, n: nat)
    requires
        keys_differ(members),
        forall|i: int| 0 <= i < members.len() ==> clear((#[trigger] members[i]).value, n),
    ensures
        clear(JsonView::Object(members), n + 1),
{
    assert forall|i: int| 0 <= i < members.len() implies unambiguous((#[trigger] members[i]).value)
        && nests_within(members[i].value, n) by {
        assert(clear(members[i].value, n));
    }
}

pub proof fn lemma_array_clear(items: Seq<JsonView>, n: nat)
    requires
        forall|i: int| 0 <= i < items.len() ==> clear(#[trigger] items[i], n),
    ensures
        clear(JsonView::Array(items), n + 1),
{
    assert forall|i: int| 0 <= i < items.len() implies unambiguous(#[trigger] items[i])
        && nests_within(items[i], n) by {
        assert(clear(items[i], n));
    }
}

/// A list of texts is read as it was written.
pub proof fn lemma_texts_clear(ss: Seq<Seq<char>>)
    ensures
        clear(texts_view(ss), 1),
{
    let items = texts_view(ss)->Array_0;
    assert forall|i: int| 0 <= i < items.len() implies clear(#[trigger] items[i], 0) by {
        assert(items[i] == JsonView::Text(ss[i]));
    }
    lemma_array_clear(items, 0);
}

/// Where keys ascend, the first member with a key is the only one.
proof fn lemma_member_at(members: Seq<MemberView>, k: int, from: int)
    requires
        keys_ascend(members),
        0 <= from <= k < members.len(),
    ensures
        member_from(members, members[k].key, from) == Some(k),
    decreases k - from,
{
    if from < k {
        assert(before(members[from].key, members[k].key));
        lemma_member_at(members, k, from + 1);
    }
}

proof fn lemma_member_found(members: Seq<MemberView>, key: Seq<char>, from: int)
    requires
        0 <= from,
    ensures
        member_from(members, key, from) matches Some(i) ==> from <= i < members.len()
            && members[i].key == key,
    decreases members.len() - from,
{
    if from < members.len() && members[from].key != key {
        lemma_member_found(members, key, from + 1);
    }
}

/// What an object holds under a key is read back under that key.
pub proof fn lemma_field_read(j: JsonView, h: JsonView, key: Seq<char>)
    requires
        read_as(j, h),
        field(j, key) is Some,
    ensures
        field(h, key) is Some,
        read_as(field(j, key)->Some_0, field(h, key)->Some_0),
{
    let x = j->Object_0;
    lemma_member_found(x, key, 0);
    let i = member_from(x, key, 0)->Some_0;
    let y = h->Object_0;
    assert(h is Object);
    let k = choose|k: int|
        0 <= k < y.len() && (#[trigger] y[k]).key == x[i].key && read_as(x[i].value, y[k].value);
    lemma_member_at(y, k, 0);
}

} // verus!
