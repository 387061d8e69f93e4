//! What the transport sends for the value that an action returned, the
//! `Server-Timing` header of a request's drifts, and the parameters of a
//! query string.

use vstd::prelude::*;
use vstd::string::StringExecFns;
use crate::fast_path::{collect_string_members, headers_view, string_members};
use crate::json::{
    find_key, get_member, json_text, member, members_view, with_member, Json, JsonValue,
};
use crate::number::{JsNumber, Num};
use crate::route::{first_index, insert_param, params_view, split};
use crate::text::{chars_of, decimal, decimal_text, digit, joined, text_of_range};

verus! {

/// What the transport sends.
#[derive(Clone, Debug)]
pub struct TransportResponse {
    pub status: u16,
    pub headers: Vec<(String, String)>,
    pub body: String,
}

/// The mathematical value of a [`TransportResponse`].
pub struct TransportView {
    pub status: u16,
    pub headers: Seq<(Seq<char>, Seq<char>)>,
    pub body: Seq<char>,
}

impl View for TransportResponse {
    type V = TransportView;

    open spec fn view(&self) -> TransportView {
        TransportView {
            status: self.status,
            headers: headers_view(self.headers@),
            body: self.body@,
        }
    }
}

/// The status that a structured response asks for: its member `status`
/// where that is an integer from 100 to 999, and 200 otherwise.
pub open spec fn spec_response_status(status: Option<Json>) -> u16 {
    match status {
        Some(Json::Number(Num::Int(v))) => if 100 <= v <= 999 {
            v as u16
        } else {
            200
        },
        _ => 200,
    }
}

/// The status of a redirect: the status asked for where it is a 3xx, and
/// 302 otherwise.
pub open spec fn redirect_status(status: u16) -> u16 {
    if status < 300 || status > 399 {
        302
    } else {
        status
    }
}

/// The body that a structured response asks for: its member `body` as it
/// is where that is a string, as JSON text where it is another value, and
/// nothing where there is none.
pub open spec fn spec_response_body(body: Option<Json>) -> Seq<char> {
    match body {
        Some(Json::Text(s)) => s,
        Some(other) => json_text(other),
        None => Seq::empty(),
    }
}

/// The headers that a structured response asks for: the members of its
/// member `headers` whose value is a string.
pub open spec fn spec_response_headers(headers: Option<Json>) -> Seq<(Seq<char>, Seq<char>)> {
    match headers {
        Some(Json::Object(entries)) => string_members(entries, entries.len()),
        _ => Seq::empty(),
    }
}

/// What the transport sends for a structured response: the status, headers
/// and body that it asks for; where it asks for a redirect, a 3xx status,
/// the target as `Location`, and no body.
pub open spec fn spec_structured(members: Seq<(Seq<char>, Json)>) -> TransportView {
    let status = spec_response_status(member(members, "status"@));
    let headers = spec_response_headers(member(members, "headers"@));
    match member(members, "redirect"@) {
        Some(Json::Text(target)) => TransportView {
            status: redirect_status(status),
            headers: headers.push(("Location"@, target)),
            body: Seq::empty(),
        },
        _ => TransportView { status, headers, body: spec_response_body(member(members, "body"@)) },
    }
}

/// What the transport sends for a value as JSON under the given status.
pub open spec fn spec_json_reply(status: u16, value: Json) -> TransportView {
    TransportView {
        status,
        headers: seq![("content-type"@, "application/json"@)],
        body: json_text(value),
    }
}

/// What the transport sends for the value that an action returned: an
/// object with a member `error` goes out as JSON with status 500; an
/// object whose member `_isResponse` is `true` is a structured response;
/// any other value goes out as JSON with status 200.
pub open spec fn spec_shape(result: Json) -> TransportView {
    match result {
        Json::Object(members) => if member(members, "error"@) is Some {
            spec_json_reply(500, result)
        } else if member(members, "_isResponse"@) == Some(Json::Bool(true)) {
            spec_structured(members)
        } else {
            spec_json_reply(200, result)
        },
        _ => spec_json_reply(200, result),
    }
}

/// A response with the `Server-Timing` header added, where there is
/// something to tell.
pub open spec fn with_server_timing(response: TransportView, timing: Seq<char>) -> TransportView {
    if timing.len() == 0 {
        response
    } else {
        TransportView {
            status: response.status,
            headers: response.headers.push(("Server-Timing"@, timing)),
            body: response.body,
        }
    }
}

fn response_status(status: Option<&JsonValue>) -> (r: u16)
    ensures
        r == spec_response_status(
            match status {
                Some(v) => Some(v@),
                None => None,
            },
        ),
{
    match status {
        Some(JsonValue::Number(JsNumber::Int(v))) => {
            if 100 <= *v && *v <= 999 {
                *v as u16
            } else {
                200
            }
        },
        _ => 200,
    }
}

fn response_body(body: Option<&JsonValue>) -> (r: String)
    ensures
        r@ == spec_response_body(
            match body {
                Some(v) => Some(v@),
                None => None,
            },
        ),
{
    match body {
        Some(JsonValue::String(s)) => s.clone(),
        Some(other) => other.to_json_text(),
        None => String::new(),
    }
}

fn response_headers(headers: Option<&JsonValue>) -> (r: Vec<(String, String)>)
    ensures
        headers_view(r@) == spec_response_headers(
            match headers {
                Some(v) => Some(v@),
                None => None,
            },
        ),
{
    let empty: Vec<(String, String)> = Vec::new();
    assert(headers_view(empty@) =~= Seq::empty());
    match headers {
        Some(value) => match value.as_members() {
            Some(entries) => collect_string_members(entries),
            None => empty,
        },
        None => empty,
    }
}

fn structured(members: &Vec<(String, JsonValue)>) -> (r: TransportResponse)
    ensures
        r@ == spec_structured(members_view(members@)),
{
    let status = response_status(get_member(members, "status"));
    let mut headers = response_headers(get_member(members, "headers"));
    match get_member(members, "redirect") {
        Some(JsonValue::String(target)) => {
            let ghost before = headers_view(headers@);
            let coerced = if status < 300 || status > 399 {
                302
            } else {
                status
            };
            let name = String::from_str("Location");
            let value = target.clone();
            headers.push((name, value));
            assert(headers_view(headers@) =~= before.push(("Location"@, target@)));
            TransportResponse { status: coerced, headers, body: String::new() }
        },
        _ => TransportResponse {
            status,
            headers,
            body: response_body(get_member(members, "body")),
        },
    }
}

fn json_reply(status: u16, value: &JsonValue) -> (r: TransportResponse)
    ensures
        r@ == spec_json_reply(status, value@),
{
    let mut headers: Vec<(String, String)> = Vec::new();
    headers.push((String::from_str("content-type"), String::from_str("application/json")));
    assert(headers_view(headers@) =~= seq![("content-type"@, "application/json"@)]);
    TransportResponse { status, headers, body: value.to_json_text() }
}

/// What the transport sends for the value that an action returned: see
/// [`spec_shape`].
pub fn shape_response(result: &JsonValue) -> (r: TransportResponse)
    ensures
        r@ == spec_shape(result@),
{
    match result.as_members() {
        Some(members) => {
            if get_member(members, "error").is_some() {
                json_reply(500, result)
            } else {
                let structured_response = match get_member(members, "_isResponse") {
                    Some(JsonValue::Bool(b)) => *b,
                    _ => false,
                };
                if structured_response {
                    structured(members)
                } else {
                    json_reply(200, result)
                }
            }
        },
        None => json_reply(200, result),
    }
}

/// What the transport sends for a request that got no value: the value
/// that answers the error as JSON, under the error's status.
pub fn shape_error(error: &crate::worker::RequestError) -> (r: TransportResponse)
    ensures
        r@ == spec_json_reply(error.spec_status(), error.spec_value()),
{
    let value = error.to_json();
    json_reply(error.status(), &value)
}

/// Adds the `Server-Timing` header to a response: see
/// [`with_server_timing`].
pub fn add_server_timing(response: TransportResponse, timing: String) -> (r: TransportResponse)
    ensures
        r@ == with_server_timing(response@, timing@),
{
    let chars = chars_of(timing.as_str());
    if chars.len() == 0 {
        response
    } else {
        let mut headers = response.headers;
        let ghost before = headers_view(headers@);
        let name = String::from_str("Server-Timing");
        headers.push((name, timing));
        assert(headers_view(headers@) =~= before.push(("Server-Timing"@, timing@)));
        TransportResponse { status: response.status, headers, body: response.body }
    }
}

/// What the transport sends depends on the JSON value alone: two results
/// with the same value are sent as the same status, headers and body.
pub proof fn lemma_shape_depends_on_value(a: JsonValue, b: JsonValue)
    requires
        a@ == b@,
    ensures
        spec_shape(a@) == spec_shape(b@),
{
}

/// The members that hold a list of headers: each header as a member with
/// its value as a string.
pub open spec fn header_members(headers: Seq<(Seq<char>, Seq<char>)>) -> Seq<(Seq<char>, Json)> {
    Seq::new(headers.len(), |i: int| (headers[i].0, Json::Text(headers[i].1)))
}

/// The structured response that stands for a status, headers and a body:
/// an object with the members `_isResponse`, which is `true`, `status`,
/// `headers` and `body`.
pub open spec fn descriptor(status: u16, headers: Seq<(Seq<char>, Seq<char>)>, body: Seq<char>) -> Json {
    Json::Object(
        seq![
            ("_isResponse"@, Json::Bool(true)),
            ("status"@, Json::Number(Num::Int(status as int))),
            ("headers"@, Json::Object(header_members(headers))),
            ("body"@, Json::Text(body)),
        ],
    )
}

proof fn lemma_header_members(headers: Seq<(Seq<char>, Seq<char>)>, n: nat)
    requires
        n <= headers.len(),
    ensures
        string_members(header_members(headers), n) == headers.subrange(0, n as int),
    decreases n,
{
    if n > 0 {
        lemma_header_members(headers, (n - 1) as nat);
        assert(header_members(headers)[n - 1] == (headers[n - 1].0, Json::Text(headers[n - 1].1)));
    }
    assert(string_members(header_members(headers), n) =~= headers.subrange(0, n as int));
}

/// A structured response is sent as it stands: the transport sends for the
/// descriptor of a status, headers and a body exactly that status, those
/// headers and that body, whatever they are, as long as the status is one
/// that can be sent.
pub proof fn lemma_descriptor_is_sent_as_it_stands(
    status: u16,
    headers: Seq<(Seq<char>, Seq<char>)>,
    body: Seq<char>,
)
    requires
        100 <= status <= 999,
    ensures
        spec_shape(descriptor(status, headers, body)) == (TransportView { status, headers, body }),
{
    reveal_strlit("error");
    reveal_strlit("_isResponse");
    reveal_strlit("status");
    reveal_strlit("headers");
    reveal_strlit("body");
    reveal_strlit("redirect");
    let members = descriptor(status, headers, body)->Object_0;
    reveal_with_fuel(find_key, 6);
    assert("error"@.len() == 5);
    assert("_isResponse"@.len() == 11);
    assert("status"@.len() == 6);
    assert("headers"@.len() == 7);
    assert("body"@.len() == 4);
    assert("redirect"@.len() == 8);
    assert(members.len() == 4);
    assert(members[0].0 == "_isResponse"@);
    assert(members[1].0 == "status"@);
    assert(members[2].0 == "headers"@);
    assert(members[3].0 == "body"@);
    assert(member(members, "error"@) is None);
    assert(member(members, "_isResponse"@) == Some(Json::Bool(true)));
    assert(member(members, "status"@) == Some(Json::Number(Num::Int(status as int))));
    assert(member(members, "headers"@) == Some(Json::Object(header_members(headers))));
    assert(member(members, "redirect"@) is None);
    assert(member(members, "body"@) == Some(Json::Text(body)));
    lemma_header_members(headers, headers.len());
    assert(headers.subrange(0, headers.len() as int) =~= headers);
    assert(header_members(headers).len() == headers.len());
}

/// A duration in microseconds as milliseconds with two decimals, the
/// further decimals cut off.
pub open spec fn millis_text(micros: nat) -> Seq<char> {
    decimal(micros / 1000) + "."@ + seq![digit((micros % 1000) / 100), digit(((micros % 1000) / 10) % 10)]
}

/// The entry of one timing in the `Server-Timing` header: the label as the
/// metric's name, and the duration in milliseconds.
pub open spec fn timing_entry(label: Seq<char>, micros: nat) -> Seq<char> {
    label + ";dur="@ + millis_text(micros)
}

/// The value of the `Server-Timing` header for the first `n` timings: their
/// entries, with a comma and a space between neighbours.
pub open spec fn spec_server_timing(timings: Seq<(String, u64)>, n: nat) -> Seq<char>
    decreases n,
{
    if n == 0 || n > timings.len() {
        Seq::empty()
    } else if n == 1 {
        timing_entry(timings[0].0@, timings[0].1 as nat)
    } else {
        spec_server_timing(timings, (n - 1) as nat) + ", "@ + timing_entry(
            timings[n - 1].0@,
            timings[n - 1].1 as nat,
        )
    }
}

fn entry_of(label: &str, micros: u64) -> (r: String)
    ensures
        r@ == timing_entry(label@, micros as nat),
{
    let mut out = joined(label, ";dur=");
    out.append(decimal_text(micros / 1000).as_str());
    out.append(".");
    let rest = micros % 1000;
    let tenths = decimal_text(rest / 100);
    let hundredths = decimal_text((rest / 10) % 10);
    out.append(tenths.as_str());
    out.append(hundredths.as_str());
    proof {
        reveal_with_fuel(decimal, 2);
        assert(tenths@ == seq![digit((rest / 100) as nat)]);
        assert(hundredths@ == seq![digit(((rest / 10) % 10) as nat)]);
        assert(out@ =~= timing_entry(label@, micros as nat));
    }
    out
}

/// The value of the `Server-Timing` header for the timings of a request:
/// see [`spec_server_timing`].
pub fn server_timing(timings: &Vec<(String, u64)>) -> (r: String)
    ensures
        r@ == spec_server_timing(timings@, timings@.len()),
{
    let mut out = String::new();
    let mut i: usize = 0;
    while i < timings.len()
        invariant
            i <= timings.len(),
            out@ == spec_server_timing(timings@, i as nat),
        decreases timings.len() - i,
    {
        if i > 0 {
            out.append(", ");
        }
        let entry = entry_of(timings[i].0.as_str(), timings[i].1);
        out.append(entry.as_str());
        assert(out@ =~= spec_server_timing(timings@, (i + 1) as nat));
        i = i + 1;
    }
    out
}

/// The key and the value of one piece of a query string: the text before
/// its first `=` and the text after it; a piece without `=` is a key with
/// an empty value.
pub open spec fn query_pair(piece: Seq<char>) -> (Seq<char>, Seq<char>) {
    let at = first_index(piece, '=', 0);
    if at < piece.len() {
        (piece.subrange(0, at), piece.subrange(at + 1, piece.len() as int))
    } else {
        (piece, Seq::empty())
    }
}

/// The parameters of the first `n` pieces of a query string; a key that
/// occurs twice keeps its first place and last value.
pub open spec fn query_params(pieces: Seq<Seq<char>>, n: nat) -> Seq<(Seq<char>, Seq<char>)>
    decreases n,
{
    if n == 0 || n > pieces.len() {
        Seq::empty()
    } else {
        let pair = query_pair(pieces[n - 1]);
        with_member(query_params(pieces, (n - 1) as nat), pair.0, pair.1)
    }
}

/// The parameters of a query string: its pieces between `&`, each as a key
/// and a value.
pub open spec fn spec_parse_query(query: Seq<char>) -> Seq<(Seq<char>, Seq<char>)> {
    query_params(split(query, '&'), split(query, '&').len())
}

fn pair_of(piece: &Vec<char>) -> (r: (String, String))
    ensures
        (r.0@, r.1@) == query_pair(piece@),
{
    let mut i: usize = 0;
    while i < piece.len() && piece[i] != '='
        invariant
            i <= piece.len(),
            first_index(piece@, '=', 0) == first_index(piece@, '=', i as int),
        decreases piece.len() - i,
    {
        i = i + 1;
    }
    if i < piece.len() {
        (text_of_range(piece, 0, i), text_of_range(piece, i + 1, piece.len()))
    } else {
        let key = text_of_range(piece, 0, piece.len());
        assert(piece@.subrange(0, piece@.len() as int) =~= piece@);
        (key, String::new())
    }
}

/// The parameters of a query string: see [`spec_parse_query`].
pub fn parse_query(query: &str) -> (r: Vec<(String, String)>)
    ensures
        params_view(r@) == spec_parse_query(query@),
{
    let pieces = crate::route::split_text(query, '&');
    let ghost views = crate::route::pieces_view(pieces@);
    let mut out: Vec<(String, String)> = Vec::new();
    let mut i: usize = 0;
    assert(params_view(out@) =~= Seq::empty());
    while i < pieces.len()
        invariant
            i <= pieces.len(),
            views == crate::route::pieces_view(pieces@),
            params_view(out@) == query_params(views, i as nat),
        decreases pieces.len() - i,
    {
        assert(views[i as int] == pieces@[i as int]@);
        let (key, value) = pair_of(&pieces[i]);
        insert_param(&mut out, key, value);
        i = i + 1;
    }
    out
}

} // verus!
