//! The static-action analysis on a module, the responses it computes and the
//! registry that serves them without entering the JavaScript engine.

use vstd::prelude::*;
use vstd::string::StringExecFns;
use vstd::utf8::encode_utf8;
use crate::ast::{Argument, Expr, Module, Property, Site};
use crate::buffer::{buffer_from, buffers_equal, contents};
use crate::eval::{eval_static, spec_eval};
use crate::actions::{file_extension, file_stem, split_file_name};
use crate::json::{
    find_key, get_member, json_text, member, members_view, with_member, Json, JsonValue,
};
use crate::number::spec_unsigned;
use crate::text::{bytes_of, lowercase_text, same_text};

verus! {

/// A response computed ahead of any request.
#[derive(Clone, Debug)]
pub struct StaticResponse {
    pub body: bytes::Bytes,
    pub content_type: &'static str,
    pub status: u16,
    pub extra_headers: Vec<(String, String)>,
}

/// The mathematical value of a [`StaticResponse`].
pub struct ResponseView {
    pub body: Seq<u8>,
    pub content_type: Seq<char>,
    pub status: u16,
    pub headers: Seq<(Seq<char>, Seq<char>)>,
}

/// The names and values of a list of headers.
pub open spec fn headers_view(headers: Seq<(String, String)>) -> Seq<(Seq<char>, Seq<char>)> {
    Seq::new(headers.len(), |i: int| (headers[i].0@, headers[i].1@))
}

impl View for StaticResponse {
    type V = ResponseView;

    open spec fn view(&self) -> ResponseView {
        ResponseView {
            body: contents(self.body),
            content_type: self.content_type@,
            status: self.status,
            headers: headers_view(self.extra_headers@),
        }
    }
}

/// The view of an optional response.
pub open spec fn response_view(o: Option<StaticResponse>) -> Option<ResponseView> {
    match o {
        Some(r) => Some(r@),
        None => None,
    }
}

/// A copy of a list of headers.
pub fn copy_headers(headers: &Vec<(String, String)>) -> (r: Vec<(String, String)>)
    ensures
        headers_view(r@) == headers_view(headers@),
{
    let mut out: Vec<(String, String)> = Vec::new();
    let mut i: usize = 0;
    while i < headers.len()
        invariant
            i <= headers.len(),
            headers_view(out@) == headers_view(headers@).subrange(0, i as int),
        decreases headers.len() - i,
    {
        let ghost before = headers_view(out@);
        let name = headers[i].0.clone();
        let value = headers[i].1.clone();
        out.push((name, value));
        assert(headers_view(out@) =~= before.push((name@, value@)));
        assert(headers_view(headers@).subrange(0, i + 1) =~= headers_view(headers@).subrange(
            0,
            i as int,
        ).push(headers_view(headers@)[i as int]));
        i = i + 1;
    }
    assert(headers_view(headers@).subrange(0, headers@.len() as int) =~= headers_view(headers@));
    out
}

/// Whether two lists of headers hold the same names and values in the same
/// order.
pub fn same_headers(a: &Vec<(String, String)>, b: &Vec<(String, String)>) -> (r: bool)
    ensures
        r == (headers_view(a@) == headers_view(b@)),
{
    if a.len() != b.len() {
        assert(headers_view(a@).len() != headers_view(b@).len());
        return false;
    }
    let mut i: usize = 0;
    while i < a.len()
        invariant
            i <= a.len(),
            a.len() == b.len(),
            forall|j: int| 0 <= j < i ==> headers_view(a@)[j] == headers_view(b@)[j],
        decreases a.len() - i,
    {
        if !(a[i].0 == b[i].0 && a[i].1 == b[i].1) {
            assert(headers_view(a@)[i as int] != headers_view(b@)[i as int]);
            return false;
        }
        i = i + 1;
    }
    assert(headers_view(a@) =~= headers_view(b@));
    true
}

impl PartialEq for StaticResponse {
    /// Whether two responses are the same in body, content type, status and
    /// headers.
    fn eq(&self, other: &StaticResponse) -> (r: bool) {
        self.same_as(other)
    }
}

impl vstd::std_specs::cmp::PartialEqSpecImpl for StaticResponse {
    open spec fn obeys_eq_spec() -> bool {
        true
    }

    open spec fn eq_spec(&self, other: &StaticResponse) -> bool {
        self@ == other@
    }
}

impl StaticResponse {
    /// Whether two responses are the same in body, content type, status and
    /// headers.
    pub fn same_as(&self, other: &StaticResponse) -> (r: bool)
        ensures
            r == (self@ == other@),
    {
        buffers_equal(&self.body, &other.body) && same_text(self.content_type, other.content_type)
            && self.status == other.status && same_headers(
            &self.extra_headers,
            &other.extra_headers,
        )
    }

    /// A copy of the response; the body is shared, not copied.
    pub fn duplicate(&self) -> (r: StaticResponse)
        ensures
            r@ == self@,
    {
        StaticResponse {
            body: self.body.clone(),
            content_type: self.content_type,
            status: self.status,
            extra_headers: copy_headers(&self.extra_headers),
        }
    }
}

/// The methods of `t.response` that build a response.
#[derive(Clone, Copy, Debug, PartialEq, Eq, Structural)]
pub enum ResponseMethod {
    Json,
    Text,
    Html,
}

impl ResponseMethod {
    /// The content type that the method gives its response.
    pub open spec fn spec_content_type(self) -> Seq<char> {
        match self {
            ResponseMethod::Json => "application/json"@,
            ResponseMethod::Text => "text/plain"@,
            ResponseMethod::Html => "text/html"@,
        }
    }

    /// The content type that the method gives its response.
    pub fn content_type(self) -> (r: &'static str)
        ensures
            r@ == self.spec_content_type(),
    {
        match self {
            ResponseMethod::Json => "application/json",
            ResponseMethod::Text => "text/plain",
            ResponseMethod::Html => "text/html",
        }
    }
}

/// The method that a callee names, where the callee is `t.response.json`,
/// `t.response.text` or `t.response.html`.
pub open spec fn spec_method(callee: Expr) -> Option<ResponseMethod> {
    match callee {
        Expr::StaticMember { object: outer, property: method } => match *outer {
            Expr::StaticMember { object: inner, property: holder } => match *inner {
                Expr::Identifier { name, symbol } => if name@ == "t"@ && holder@ == "response"@ {
                    if method@ == "json"@ {
                        Some(ResponseMethod::Json)
                    } else if method@ == "text"@ {
                        Some(ResponseMethod::Text)
                    } else if method@ == "html"@ {
                        Some(ResponseMethod::Html)
                    } else {
                        None
                    }
                } else {
                    None
                },
                _ => None,
            },
            _ => None,
        },
        _ => None,
    }
}

/// The method that `callee` names: see [`spec_method`].
pub fn detect_response_method(callee: &Expr) -> (r: Option<ResponseMethod>)
    ensures
        r == spec_method(*callee),
{
    match callee {
        Expr::StaticMember { object: outer, property: method } => match &**outer {
            Expr::StaticMember { object: inner, property: holder } => match &**inner {
                Expr::Identifier { name, symbol } => {
                    if same_text(name.as_str(), "t") && same_text(holder.as_str(), "response") {
                        if same_text(method.as_str(), "json") {
                            Some(ResponseMethod::Json)
                        } else if same_text(method.as_str(), "text") {
                            Some(ResponseMethod::Text)
                        } else if same_text(method.as_str(), "html") {
                            Some(ResponseMethod::Html)
                        } else {
                            None
                        }
                    } else {
                        None
                    }
                },
                _ => None,
            },
            _ => None,
        },
        _ => None,
    }
}

/// The status and headers that the second argument of a response call asks
/// for.
#[derive(Clone, Debug)]
pub struct ResponseOptions {
    pub status: u16,
    pub headers: Vec<(String, String)>,
}

/// The mathematical value of [`ResponseOptions`].
pub struct OptionsView {
    pub status: u16,
    pub headers: Seq<(Seq<char>, Seq<char>)>,
}

impl View for ResponseOptions {
    type V = OptionsView;

    open spec fn view(&self) -> OptionsView {
        OptionsView { status: self.status, headers: headers_view(self.headers@) }
    }
}

/// The options of a call without a second argument.
pub open spec fn default_options() -> OptionsView {
    OptionsView { status: 200, headers: Seq::empty() }
}

/// The status that an options value asks for: its member `status` when that
/// is an integer from 100 to 599, and 200 otherwise.
pub open spec fn spec_status(options: Json) -> u16 {
    match options {
        Json::Object(members) => match member(members, "status"@) {
            Some(Json::Number(n)) => match spec_unsigned(n) {
                Some(v) => if 100 <= v <= 599 {
                    v as u16
                } else {
                    200
                },
                None => 200,
            },
            _ => 200,
        },
        _ => 200,
    }
}

/// Those of the first `n` members whose value is a string, in their order.
pub open spec fn string_members(members: Seq<(Seq<char>, Json)>, n: nat) -> Seq<
    (Seq<char>, Seq<char>),
>
    decreases n,
{
    if n == 0 || n > members.len() {
        Seq::empty()
    } else {
        let before = string_members(members, (n - 1) as nat);
        match members[n - 1].1 {
            Json::Text(value) => before.push((members[n - 1].0, value)),
            _ => before,
        }
    }
}

/// The headers that an options value asks for: the members of its member
/// `headers` whose value is a string.
pub open spec fn spec_headers(options: Json) -> Seq<(Seq<char>, Seq<char>)> {
    match options {
        Json::Object(members) => match member(members, "headers"@) {
            Some(Json::Object(headers)) => string_members(headers, headers.len()),
            _ => Seq::empty(),
        },
        _ => Seq::empty(),
    }
}

/// The options that an options value asks for.
pub open spec fn spec_options(options: Json) -> OptionsView {
    OptionsView { status: spec_status(options), headers: spec_headers(options) }
}

/// Those of `members` whose value is a string, in their order.
pub fn collect_string_members(members: &Vec<(String, JsonValue)>) -> (r: Vec<(String, String)>)
    ensures
        headers_view(r@) == string_members(members_view(members@), members@.len()),
{
    let mut out: Vec<(String, String)> = Vec::new();
    let mut i: usize = 0;
    assert(headers_view(out@) =~= Seq::empty());
    while i < members.len()
        invariant
            i <= members.len(),
            headers_view(out@) == string_members(members_view(members@), i as nat),
        decreases members.len() - i,
    {
        let ghost before = headers_view(out@);
        match members[i].1.as_text() {
            Some(value) => {
                out.push((members[i].0.clone(), value.clone()));
                assert(headers_view(out@) =~= before.push((members[i as int].0@, value@)));
            },
            None => {},
        }
        i = i + 1;
    }
    out
}

/// The status and headers that `value` asks for: see [`spec_options`].
pub fn extract_response_options(value: &JsonValue) -> (r: ResponseOptions)
    ensures
        r@ == spec_options(value@),
{
    let mut options = ResponseOptions { status: 200, headers: Vec::new() };
    assert(headers_view(options.headers@) =~= Seq::empty());
    let members = match value.as_members() {
        Some(members) => members,
        None => {
            return options;
        },
    };
    match get_member(members, "status") {
        Some(JsonValue::Number(n)) => {
            match n.as_unsigned() {
                Some(v) => {
                    if 100 <= v && v <= 599 {
                        options.status = v as u16;
                    }
                },
                None => {},
            }
        },
        _ => {},
    }
    match get_member(members, "headers") {
        Some(headers) => {
            match headers.as_members() {
                Some(entries) => {
                    options.headers = collect_string_members(entries);
                },
                None => {},
            }
        },
        None => {},
    }
    options
}

/// What the analysis finds of one response call.
#[derive(Debug)]
pub enum CallOutcome {
    /// The response of the call is not known ahead of the request.
    Dynamic,
    /// The call gives this response on every request.
    Static(StaticResponse),
}

/// The mathematical value of a [`CallOutcome`].
pub enum OutcomeView {
    Dynamic,
    Static(ResponseView),
}

impl View for CallOutcome {
    type V = OutcomeView;

    open spec fn view(&self) -> OutcomeView {
        match self {
            CallOutcome::Dynamic => OutcomeView::Dynamic,
            CallOutcome::Static(r) => OutcomeView::Static(r@),
        }
    }
}

/// The body bytes that a method makes of a payload: the UTF-8 bytes of its
/// JSON text for `json`, the UTF-8 bytes of the string itself for `text` and
/// `html`, which take a string only.
pub open spec fn spec_body(method: ResponseMethod, payload: Json) -> Option<Seq<u8>> {
    match method {
        ResponseMethod::Json => Some(encode_utf8(json_text(payload))),
        _ => match payload {
            Json::Text(s) => Some(encode_utf8(s)),
            _ => None,
        },
    }
}

/// The options of a response call: those that its second argument asks for,
/// the default ones where it has none or a spread there, and `None` where
/// the second argument has no static value.
pub open spec fn spec_call_options(m: Module, arguments: Seq<Argument>) -> Option<OptionsView> {
    if arguments.len() > 1 {
        match arguments[1] {
            Argument::Spread => Some(default_options()),
            Argument::Value(e) => match spec_eval(m, e, 0) {
                Some(v) => Some(spec_options(v)),
                None => None,
            },
        }
    } else {
        Some(default_options())
    }
}

/// What the analysis finds of a call of `method` with `arguments`: a static
/// response where the payload and the options have static values and the
/// payload fits the method; a dynamic response otherwise, and so for a call
/// without argument.
pub open spec fn spec_call_outcome(m: Module, method: ResponseMethod, arguments: Seq<Argument>) -> OutcomeView {
    if arguments.len() == 0 {
        OutcomeView::Dynamic
    } else {
        match arguments[0] {
            Argument::Spread => OutcomeView::Dynamic,
            Argument::Value(payload) => match (
                spec_eval(m, payload, 0),
                spec_call_options(m, arguments),
            ) {
                (Some(value), Some(options)) => match spec_body(method, value) {
                    Some(body) => OutcomeView::Static(
                        ResponseView {
                            body,
                            content_type: method.spec_content_type(),
                            status: options.status,
                            headers: options.headers,
                        },
                    ),
                    None => OutcomeView::Dynamic,
                },
                _ => OutcomeView::Dynamic,
            },
        }
    }
}

fn body_of(method: ResponseMethod, payload: &JsonValue) -> (r: Option<Vec<u8>>)
    ensures
        match r {
            Some(bytes) => spec_body(method, payload@) == Some(bytes@),
            None => spec_body(method, payload@) is None,
        },
{
    match method {
        ResponseMethod::Json => Some(bytes_of(payload.to_json_text().as_str())),
        _ => match payload.as_text() {
            Some(s) => Some(bytes_of(s.as_str())),
            None => None,
        },
    }
}

/// Analyzes one call of `t.response.<method>`: see [`spec_call_outcome`].
pub fn analyze_response_call(module: &Module, method: ResponseMethod, arguments: &Vec<Argument>) -> (r:
    CallOutcome)
    ensures
        r@ == spec_call_outcome(*module, method, arguments@),
{
    if arguments.len() == 0 {
        return CallOutcome::Dynamic;
    }
    let payload = match &arguments[0] {
        Argument::Spread => {
            return CallOutcome::Dynamic;
        },
        Argument::Value(e) => e,
    };
    let value = match eval_static(module, payload, 0) {
        Some(v) => v,
        None => {
            return CallOutcome::Dynamic;
        },
    };
    let options = if arguments.len() > 1 {
        match &arguments[1] {
            Argument::Spread => {
                let d = ResponseOptions { status: 200, headers: Vec::new() };
                assert(headers_view(d.headers@) =~= Seq::empty());
                d
            },
            Argument::Value(e) => match eval_static(module, e, 0) {
                Some(v) => extract_response_options(&v),
                None => {
                    return CallOutcome::Dynamic;
                },
            },
        }
    } else {
        let d = ResponseOptions { status: 200, headers: Vec::new() };
        assert(headers_view(d.headers@) =~= Seq::empty());
        d
    };
    match body_of(method, &value) {
        Some(bytes) => CallOutcome::Static(
            StaticResponse {
                body: buffer_from(bytes),
                content_type: method.content_type(),
                status: options.status,
                extra_headers: options.headers,
            },
        ),
        None => CallOutcome::Dynamic,
    }
}

/// The one response that all of `responses` are equal to; `None` where there
/// is no response or two of them differ.
pub open spec fn spec_unique(responses: Seq<ResponseView>) -> Option<ResponseView> {
    if responses.len() > 0 && forall|i: int|
        0 <= i < responses.len() ==> #[trigger] responses[i] == responses[0] {
        Some(responses[0])
    } else {
        None
    }
}

/// The views of a list of responses.
pub open spec fn responses_view(responses: Seq<StaticResponse>) -> Seq<ResponseView> {
    Seq::new(responses.len(), |i: int| responses[i]@)
}

/// The one response that all of `responses` are equal to: see
/// [`spec_unique`].
pub fn unique_response(responses: &Vec<StaticResponse>) -> (r: Option<StaticResponse>)
    ensures
        response_view(r) == spec_unique(responses_view(responses@)),
{
    if responses.len() == 0 {
        return None;
    }
    let ghost views = responses_view(responses@);
    let mut i: usize = 1;
    while i < responses.len()
        invariant
            1 <= i <= responses.len(),
            views == responses_view(responses@),
            forall|j: int| 0 <= j < i ==> #[trigger] views[j] == views[0],
        decreases responses.len() - i,
    {
        if !responses[i].same_as(&responses[0]) {
            assert(views[i as int] != views[0]);
            return None;
        }
        i = i + 1;
    }
    Some(responses[0].duplicate())
}

/// What the analysis has gathered from a run of sites.
pub struct Collected {
    /// How many response calls, or plain returns, were met.
    pub found: nat,
    /// Whether one of them is dynamic.
    pub dynamic: bool,
    /// The static responses, in the order of their sites.
    pub responses: Seq<ResponseView>,
}

/// `c` after one more outcome.
pub open spec fn collect_outcome(c: Collected, outcome: OutcomeView) -> Collected {
    match outcome {
        OutcomeView::Dynamic => Collected {
            found: c.found + 1,
            dynamic: true,
            responses: c.responses,
        },
        OutcomeView::Static(r) => Collected {
            found: c.found + 1,
            dynamic: c.dynamic,
            responses: c.responses.push(r),
        },
    }
}

/// The outcome of a site as a response call; `None` where the site is not
/// a call of `t.response.json`, `t.response.text` or `t.response.html`.
pub open spec fn spec_site_outcome(m: Module, site: Site) -> Option<OutcomeView> {
    match site {
        Site::Call { callee, arguments } => match spec_method(callee) {
            Some(method) => Some(spec_call_outcome(m, method, arguments@)),
            None => None,
        },
        _ => None,
    }
}

/// What the response calls among the first `n` sites give.
pub open spec fn spec_collect(m: Module, n: nat) -> Collected
    decreases n,
{
    if n == 0 || n > m.sites@.len() {
        Collected { found: 0, dynamic: false, responses: Seq::empty() }
    } else {
        let c = spec_collect(m, (n - 1) as nat);
        match spec_site_outcome(m, m.sites@[n - 1]) {
            Some(outcome) => collect_outcome(c, outcome),
            None => c,
        }
    }
}

/// The keys by which the wrapper code of a bundler is known.
pub open spec fn is_boilerplate_key(key: Seq<char>) -> bool {
    key == "__esModule"@ || key == "__defProp"@ || key == "__copyProps"@
}

/// Whether a property is written under one of the bundler's keys.
pub open spec fn is_boilerplate_property(p: Property) -> bool {
    match p {
        Property::Member { key: Some(key), value } => is_boilerplate_key(key@),
        _ => false,
    }
}

/// Whether an expression is an object literal of a bundler's wrapper code:
/// one of its properties is written under one of the bundler's keys.
pub open spec fn is_boilerplate(e: Expr) -> bool {
    match e {
        Expr::Object(properties) => exists|i: int|
            0 <= i < properties@.len() && is_boilerplate_property(#[trigger] properties@[i]),
        _ => false,
    }
}

/// Whether a returned expression is a literal that a plain return may hold:
/// an object literal or a string literal.
pub open spec fn is_plain_return(e: Expr) -> bool {
    e is Object || e is Text
}

/// The outcome of a plain return: its value as a JSON response with status
/// 200 and no headers, where it has a static value.
pub open spec fn spec_return_outcome(m: Module, e: Expr) -> OutcomeView {
    match spec_eval(m, e, 0) {
        Some(value) => match spec_body(ResponseMethod::Json, value) {
            Some(body) => OutcomeView::Static(
                ResponseView {
                    body,
                    content_type: ResponseMethod::Json.spec_content_type(),
                    status: 200,
                    headers: Seq::empty(),
                },
            ),
            None => OutcomeView::Dynamic,
        },
        None => OutcomeView::Dynamic,
    }
}

/// The outcome of a site as a return; `None` where it is no return, or a
/// return of wrapper code, which is left out. A return of an object or
/// string literal gives the literal's response; a return of anything else,
/// or of nothing, is dynamic.
pub open spec fn spec_site_return(m: Module, site: Site) -> Option<OutcomeView> {
    match site {
        Site::Return { value: Some(e) } => if is_boilerplate(e) {
            None
        } else if is_plain_return(e) {
            Some(spec_return_outcome(m, e))
        } else {
            Some(OutcomeView::Dynamic)
        },
        Site::Return { value: None } => Some(OutcomeView::Dynamic),
        _ => None,
    }
}

/// What the plain returns among the first `n` sites give.
pub open spec fn spec_collect_returns(m: Module, n: nat) -> Collected
    decreases n,
{
    if n == 0 || n > m.sites@.len() {
        Collected { found: 0, dynamic: false, responses: Seq::empty() }
    } else {
        let c = spec_collect_returns(m, (n - 1) as nat);
        match spec_site_return(m, m.sites@[n - 1]) {
            Some(outcome) => collect_outcome(c, outcome),
            None => c,
        }
    }
}

/// The response of what was gathered: the one response that all are equal
/// to, unless one of them is dynamic.
pub open spec fn spec_verdict(c: Collected) -> Option<ResponseView> {
    if c.dynamic {
        None
    } else {
        spec_unique(c.responses)
    }
}

/// The static response of a module, if it has one: that of its response
/// calls, which must all give the same static response; where the module
/// has no response call, that of its returns, which must all be plain
/// returns of the same static literal, wrapper code left out.
pub open spec fn spec_analyze(m: Module) -> Option<ResponseView> {
    let calls = spec_collect(m, m.sites@.len());
    if calls.found > 0 {
        spec_verdict(calls)
    } else {
        spec_verdict(spec_collect_returns(m, m.sites@.len()))
    }
}

fn names_boilerplate(key: &str) -> (r: bool)
    ensures
        r == is_boilerplate_key(key@),
{
    same_text(key, "__esModule") || same_text(key, "__defProp") || same_text(key, "__copyProps")
}

fn holds_boilerplate(properties: &Vec<Property>) -> (r: bool)
    ensures
        r == exists|i: int|
            0 <= i < properties@.len() && is_boilerplate_property(#[trigger] properties@[i]),
{
    let mut i: usize = 0;
    while i < properties.len()
        invariant
            i <= properties.len(),
            forall|j: int| 0 <= j < i ==> !is_boilerplate_property(#[trigger] properties@[j]),
        decreases properties.len() - i,
    {
        let hit = match &properties[i] {
            Property::Member { key: Some(key), value } => names_boilerplate(key.as_str()),
            _ => false,
        };
        if hit {
            assert(is_boilerplate_property(properties@[i as int]));
            return true;
        }
        i = i + 1;
    }
    false
}

fn detect_boilerplate(e: &Expr) -> (r: bool)
    ensures
        r == is_boilerplate(*e),
{
    match e {
        Expr::Object(properties) => holds_boilerplate(properties),
        _ => false,
    }
}

fn return_outcome(module: &Module, e: &Expr) -> (r: CallOutcome)
    ensures
        r@ == spec_return_outcome(*module, *e),
{
    match eval_static(module, e, 0) {
        Some(value) => match body_of(ResponseMethod::Json, &value) {
            Some(bytes) => {
                let headers: Vec<(String, String)> = Vec::new();
                assert(headers_view(headers@) =~= Seq::empty());
                CallOutcome::Static(
                    StaticResponse {
                        body: buffer_from(bytes),
                        content_type: ResponseMethod::Json.content_type(),
                        status: 200,
                        extra_headers: headers,
                    },
                )
            },
            None => CallOutcome::Dynamic,
        },
        None => CallOutcome::Dynamic,
    }
}

fn site_outcome(module: &Module, site: &Site) -> (r: Option<CallOutcome>)
    ensures
        match r {
            Some(outcome) => spec_site_outcome(*module, *site) == Some(outcome@),
            None => spec_site_outcome(*module, *site) is None,
        },
{
    match site {
        Site::Call { callee, arguments } => match detect_response_method(callee) {
            Some(method) => Some(analyze_response_call(module, method, arguments)),
            None => None,
        },
        _ => None,
    }
}

fn site_return(module: &Module, site: &Site) -> (r: Option<CallOutcome>)
    ensures
        match r {
            Some(outcome) => spec_site_return(*module, *site) == Some(outcome@),
            None => spec_site_return(*module, *site) is None,
        },
{
    match site {
        Site::Return { value: Some(e) } => {
            let literal = match e {
                Expr::Object(_) => true,
                Expr::Text(_) => true,
                _ => false,
            };
            if detect_boilerplate(e) {
                None
            } else if literal {
                Some(return_outcome(module, e))
            } else {
                Some(CallOutcome::Dynamic)
            }
        },
        Site::Return { value: None } => Some(CallOutcome::Dynamic),
        _ => None,
    }
}

/// The static response of `module`, if it has one: see [`spec_analyze`].
pub fn analyze_module(module: &Module) -> (r: Option<StaticResponse>)
    ensures
        response_view(r) == spec_analyze(*module),
{
    let mut responses: Vec<StaticResponse> = Vec::new();
    let mut dynamic = false;
    let mut found = false;
    let mut i: usize = 0;
    assert(responses_view(responses@) =~= Seq::empty());
    while i < module.sites.len()
        invariant
            i <= module.sites.len(),
            spec_collect(*module, i as nat).dynamic == dynamic,
            spec_collect(*module, i as nat).responses == responses_view(responses@),
            found == (spec_collect(*module, i as nat).found > 0),
        decreases module.sites.len() - i,
    {
        let ghost before = responses_view(responses@);
        match site_outcome(module, &module.sites[i]) {
            Some(CallOutcome::Dynamic) => {
                found = true;
                dynamic = true;
            },
            Some(CallOutcome::Static(response)) => {
                found = true;
                responses.push(response);
                assert(responses_view(responses@) =~= before.push(response@));
            },
            None => {},
        }
        i = i + 1;
    }
    if found {
        return if dynamic {
            None
        } else {
            unique_response(&responses)
        };
    }
    proof {
        lemma_nothing_found(*module, module.sites@.len());
        assert(responses_view(responses@).len() == 0);
    }
    i = 0;
    while i < module.sites.len()
        invariant
            i <= module.sites.len(),
            spec_collect_returns(*module, i as nat).dynamic == dynamic,
            spec_collect_returns(*module, i as nat).responses == responses_view(responses@),
        decreases module.sites.len() - i,
    {
        let ghost before = responses_view(responses@);
        match site_return(module, &module.sites[i]) {
            Some(CallOutcome::Dynamic) => {
                dynamic = true;
            },
            Some(CallOutcome::Static(response)) => {
                responses.push(response);
                assert(responses_view(responses@) =~= before.push(response@));
            },
            None => {},
        }
        i = i + 1;
    }
    if dynamic {
        None
    } else {
        unique_response(&responses)
    }
}

/// Where no response call was met, nothing was gathered.
proof fn lemma_nothing_found(m: Module, n: nat)
    requires
        n <= m.sites@.len(),
        spec_collect(m, n).found == 0,
    ensures
        spec_collect(m, n).responses.len() == 0,
        !spec_collect(m, n).dynamic,
    decreases n,
{
    if n > 0 {
        lemma_nothing_found(m, (n - 1) as nat);
    }
}

/// Whether a response is well formed: its status is from 100 to 599 and
/// its content type is one of the three that the response methods give.
pub open spec fn is_well_formed_response(r: ResponseView) -> bool {
    &&& 100 <= r.status <= 599
    &&& (r.content_type == "application/json"@ || r.content_type == "text/plain"@
        || r.content_type == "text/html"@)
}

proof fn lemma_collect_calls(m: Module, n: nat)
    requires
        n <= m.sites@.len(),
    ensures
        forall|k: int|
            0 <= k < spec_collect(m, n).responses.len() ==> is_well_formed_response(
                #[trigger] spec_collect(m, n).responses[k],
            ),
        forall|i: int|
            0 <= i < n && spec_site_outcome(m, #[trigger] m.sites@[i]) == Some(
                OutcomeView::Dynamic,
            ) ==> spec_collect(m, n).dynamic,
        forall|i: int|
            0 <= i < n ==> (spec_site_outcome(m, #[trigger] m.sites@[i]) matches Some(
                OutcomeView::Static(r),
            ) ==> spec_collect(m, n).responses.contains(r)),
    decreases n,
{
    if n > 0 {
        lemma_collect_calls(m, (n - 1) as nat);
        let before = spec_collect(m, (n - 1) as nat);
        let after = spec_collect(m, n);
        assert forall|i: int| 0 <= i < n implies (spec_site_outcome(
            m,
            #[trigger] m.sites@[i],
        ) matches Some(OutcomeView::Static(r)) ==> after.responses.contains(r)) by {
            match spec_site_outcome(m, m.sites@[i]) {
                Some(OutcomeView::Static(r)) => {
                    if i < n - 1 {
                        assert(before.responses.contains(r));
                        let k = choose|k: int|
                            0 <= k < before.responses.len() && before.responses[k] == r;
                        assert(after.responses[k] == r);
                    } else {
                        assert(after.responses[after.responses.len() - 1] == r);
                    }
                },
                _ => {},
            }
        }
    }
}

proof fn lemma_collect_returns(m: Module, n: nat)
    requires
        n <= m.sites@.len(),
    ensures
        forall|k: int|
            0 <= k < spec_collect_returns(m, n).responses.len() ==> is_well_formed_response(
                #[trigger] spec_collect_returns(m, n).responses[k],
            ),
    decreases n,
{
    if n > 0 {
        lemma_collect_returns(m, (n - 1) as nat);
        let before = spec_collect_returns(m, (n - 1) as nat);
        let after = spec_collect_returns(m, n);
        assert forall|k: int| 0 <= k < after.responses.len() implies is_well_formed_response(
            #[trigger] after.responses[k],
        ) by {
            if k < before.responses.len() {
                assert(after.responses[k] == before.responses[k]);
            } else {
                match spec_site_return(m, m.sites@[n - 1]) {
                    Some(OutcomeView::Static(r)) => {
                        assert(after.responses[k] == r);
                        assert(r.content_type == ResponseMethod::Json.spec_content_type());
                    },
                    _ => {},
                }
            }
        }
    }
}

/// The response of an analysis has a status from 100 to 599 and one of the
/// three content types of the response methods.
pub proof fn lemma_analysis_is_well_formed(m: Module)
    ensures
        spec_analyze(m) matches Some(r) ==> is_well_formed_response(r),
{
    lemma_collect_calls(m, m.sites@.len());
    lemma_collect_returns(m, m.sites@.len());
}

/// A module is static only if all its response calls agree: where the
/// analysis of a module with response calls finds a response, every
/// response call of the module gives exactly that response, statically.
pub proof fn lemma_static_calls_agree(m: Module, i: int)
    requires
        spec_collect(m, m.sites@.len()).found > 0,
        spec_analyze(m) is Some,
        0 <= i < m.sites@.len(),
        spec_site_outcome(m, m.sites@[i]) is Some,
    ensures
        spec_site_outcome(m, m.sites@[i]) == Some(OutcomeView::Static(spec_analyze(m)->0)),
{
    lemma_collect_calls(m, m.sites@.len());
    let all = spec_collect(m, m.sites@.len());
    match spec_site_outcome(m, m.sites@[i])->0 {
        OutcomeView::Static(r) => {
            assert(all.responses.contains(r));
            let k = choose|k: int| 0 <= k < all.responses.len() && all.responses[k] == r;
            assert(all.responses[k] == all.responses[0]);
        },
        _ => {},
    }
}

/// Whether a header names the content type, whatever the case of its
/// letters. The transport sets that header itself.
pub open spec fn names_content_type(name: Seq<char>) -> bool {
    lowercase_text(name) == "content-type"@
}

/// Whether a header names the server, whatever the case of its letters.
pub open spec fn names_server(name: Seq<char>) -> bool {
    lowercase_text(name) == "server"@
}

/// The server name that the transport sends, given the first `n` headers of
/// a response: the value of the last of them that names the server, and
/// `TitanPL` where none does.
pub open spec fn server_name(headers: Seq<(Seq<char>, Seq<char>)>, n: nat) -> Seq<char>
    decreases n,
{
    if n == 0 || n > headers.len() {
        "TitanPL"@
    } else if names_server(headers[n - 1].0) {
        headers[n - 1].1
    } else {
        server_name(headers, (n - 1) as nat)
    }
}

/// Those of the first `n` headers that name neither the content type nor
/// the server.
pub open spec fn passed_headers(headers: Seq<(Seq<char>, Seq<char>)>, n: nat) -> Seq<
    (Seq<char>, Seq<char>),
>
    decreases n,
{
    if n == 0 || n > headers.len() {
        Seq::empty()
    } else {
        let before = passed_headers(headers, (n - 1) as nat);
        if names_content_type(headers[n - 1].0) || names_server(headers[n - 1].0) {
            before
        } else {
            before.push(headers[n - 1])
        }
    }
}

/// The headers that the transport sends for a response of the given
/// content type and extra headers: the content type; one server header,
/// with the name that the response asks for among its extra headers, and
/// the transport's own where it asks for none; and the extra headers that
/// name neither.
pub open spec fn spec_transport_headers(
    content_type: Seq<char>,
    extra: Seq<(Seq<char>, Seq<char>)>,
) -> Seq<(Seq<char>, Seq<char>)> {
    seq![("content-type"@, content_type), ("server"@, server_name(extra, extra.len()))]
        + passed_headers(extra, extra.len())
}

/// Whether a header name, given in lower case, names the server.
pub fn is_server_name(lower: &str) -> (r: bool)
    ensures
        r == (lower@ == "server"@),
{
    same_text(lower, "server")
}

/// Whether a header name, given in lower case, names a header that the
/// transport sets itself: the content type or the server.
pub fn is_transport_name(lower: &str) -> (r: bool)
    ensures
        r == (lower@ == "content-type"@ || lower@ == "server"@),
{
    same_text(lower, "content-type") || is_server_name(lower)
}

fn server_of(extra: &Vec<(String, String)>) -> (r: String)
    ensures
        r@ == server_name(headers_view(extra@), extra@.len()),
{
    let mut name = String::from_str("TitanPL");
    let mut i: usize = 0;
    while i < extra.len()
        invariant
            i <= extra.len(),
            name@ == server_name(headers_view(extra@), i as nat),
        decreases extra.len() - i,
    {
        let lower = extra[i].0.to_lowercase();
        if is_server_name(lower.as_str()) {
            name = extra[i].1.clone();
        }
        i = i + 1;
    }
    name
}

fn is_passed(name: &str) -> (r: bool)
    ensures
        r == !(names_content_type(name@) || names_server(name@)),
{
    let lower = name.to_lowercase();
    !is_transport_name(lower.as_str())
}

/// The headers that the transport sends: see [`spec_transport_headers`].
pub fn transport_headers(content_type: &str, extra: &Vec<(String, String)>) -> (r: Vec<
    (String, String),
>)
    ensures
        headers_view(r@) == spec_transport_headers(content_type@, headers_view(extra@)),
{
    let mut out: Vec<(String, String)> = Vec::new();
    let server = server_of(extra);
    out.push((String::from_str("content-type"), String::from_str(content_type)));
    out.push((String::from_str("server"), server));
    let ghost fixed = headers_view(out@);
    assert(fixed =~= seq![
        ("content-type"@, content_type@),
        ("server"@, server_name(headers_view(extra@), extra@.len())),
    ]);
    let mut i: usize = 0;
    assert(headers_view(out@) =~= fixed + passed_headers(headers_view(extra@), 0));
    while i < extra.len()
        invariant
            i <= extra.len(),
            headers_view(out@) == fixed + passed_headers(headers_view(extra@), i as nat),
        decreases extra.len() - i,
    {
        let ghost before = headers_view(out@);
        if is_passed(extra[i].0.as_str()) {
            let name = extra[i].0.clone();
            let value = extra[i].1.clone();
            out.push((name, value));
            assert(headers_view(out@) =~= before.push((name@, value@)));
            assert(headers_view(out@) =~= fixed + passed_headers(
                headers_view(extra@),
                (i + 1) as nat,
            ));
        }
        i = i + 1;
    }
    out
}

impl StaticResponse {
    /// The headers that the transport sends for the response.
    pub fn response_headers(&self) -> (r: Vec<(String, String)>)
        ensures
            headers_view(r@) == spec_transport_headers(self@.content_type, self@.headers),
    {
        transport_headers(self.content_type, &self.extra_headers)
    }
}

/// The response of a route that replies with a fixed value.
#[derive(Clone, Debug)]
pub struct PrecomputedRoute {
    pub body: bytes::Bytes,
    pub content_type: &'static str,
}

impl PrecomputedRoute {
    /// The reply with a JSON value: its JSON text as body.
    pub fn from_json(val: &JsonValue) -> (r: PrecomputedRoute)
        ensures
            r.content_type@ == "application/json"@,
            contents(r.body) == encode_utf8(json_text(val@)),
    {
        let bytes = bytes_of(val.to_json_text().as_str());
        PrecomputedRoute { body: buffer_from(bytes), content_type: "application/json" }
    }

    /// The reply with a text: its UTF-8 bytes as body.
    pub fn from_text(text: &str) -> (r: PrecomputedRoute)
        ensures
            r.content_type@ == "text/plain; charset=utf-8"@,
            contents(r.body) == encode_utf8(text@),
    {
        PrecomputedRoute {
            body: buffer_from(bytes_of(text)),
            content_type: "text/plain; charset=utf-8",
        }
    }

    /// The headers that the transport sends for the reply, whose status is
    /// 200.
    pub fn response_headers(&self) -> (r: Vec<(String, String)>)
        ensures
            headers_view(r@) == spec_transport_headers(self.content_type@, Seq::empty()),
    {
        let none: Vec<(String, String)> = Vec::new();
        assert(headers_view(none@) =~= Seq::empty());
        transport_headers(self.content_type, &none)
    }
}

/// The actions that are served without entering the JavaScript engine, each
/// with its response.
pub struct FastPathRegistry {
    actions: Vec<(String, StaticResponse)>,
}

/// The names and responses of a list of entries.
pub open spec fn entries_view(entries: Seq<(String, StaticResponse)>) -> Seq<
    (Seq<char>, ResponseView),
> {
    Seq::new(entries.len(), |i: int| (entries[i].0@, entries[i].1@))
}

/// Whether a file may hold an action: its extension is `js` or `jsbundle`
/// and its stem is not empty.
pub open spec fn is_action_file(file_name: Seq<char>) -> bool {
    (file_extension(file_name) == Some("js"@) || file_extension(file_name) == Some("jsbundle"@))
        && file_stem(file_name).len() > 0
}

/// Whether a file holds a bundled action: its extension is `jsbundle`.
pub open spec fn is_bundle_file(file_name: Seq<char>) -> bool {
    file_extension(file_name) == Some("jsbundle"@)
}

/// Whether the `j`-th file goes before the `k`-th as the source of the one
/// action that both name: a bundle goes before a file that is none, and of
/// two files of one kind the later one goes first.
pub open spec fn outranks(files: Seq<(String, String)>, j: int, k: int) -> bool {
    &&& 0 <= j < files.len()
    &&& 0 <= k < files.len()
    &&& is_action_file(files[j].0@)
    &&& file_stem(files[j].0@) == file_stem(files[k].0@)
    &&& if is_bundle_file(files[j].0@) == is_bundle_file(files[k].0@) {
        j > k
    } else {
        is_bundle_file(files[j].0@)
    }
}

/// Whether the `k`-th file is the source of the action that it names: it
/// may hold an action, and no other file goes before it.
pub open spec fn decides(files: Seq<(String, String)>, k: int) -> bool {
    &&& 0 <= k < files.len()
    &&& is_action_file(files[k].0@)
    &&& forall|j: int| !#[trigger] outranks(files, j, k)
}

/// Whether one of the first `n` files is the source of the action `name`.
pub open spec fn has_source(files: Seq<(String, String)>, n: int, name: Seq<char>) -> bool {
    exists|k: int| k < n && #[trigger] decides(files, k) && file_stem(files[k].0@) == name
}

/// One file is the source of an action: two files that are both the source
/// of the action they name, name different actions.
pub proof fn lemma_one_source_for_an_action(files: Seq<(String, String)>, j: int, k: int)
    requires
        decides(files, j),
        decides(files, k),
        file_stem(files[j].0@) == file_stem(files[k].0@),
    ensures
        j == k,
{
    if j != k {
        if outranks(files, j, k) {
        } else {
            assert(outranks(files, k, j));
        }
    }
}

/// A bundle is preferred: beside a bundle of the same action, wherever it
/// stands among the files, a file that is no bundle is not the source of
/// the action.
pub proof fn lemma_bundle_is_preferred(files: Seq<(String, String)>, bundle: int, other: int)
    requires
        0 <= bundle < files.len(),
        0 <= other < files.len(),
        is_action_file(files[bundle].0@),
        is_bundle_file(files[bundle].0@),
        !is_bundle_file(files[other].0@),
        file_stem(files[bundle].0@) == file_stem(files[other].0@),
    ensures
        !decides(files, other),
{
    assert(outranks(files, bundle, other));
}

impl View for FastPathRegistry {
    type V = Seq<(Seq<char>, ResponseView)>;

    closed spec fn view(&self) -> Seq<(Seq<char>, ResponseView)> {
        entries_view(self.actions@)
    }
}

impl FastPathRegistry {
    /// A registry without actions.
    pub fn new() -> (r: FastPathRegistry)
        ensures
            r@ == Seq::<(Seq<char>, ResponseView)>::empty(),
    {
        let r = FastPathRegistry { actions: Vec::new() };
        assert(r@ =~= Seq::empty());
        r
    }

    fn position_of(&self, name: &str) -> (at: usize)
        ensures
            at == find_key(self@, name@, 0),
            at <= self.actions.len(),
            self@.len() == self.actions.len(),
    {
        let mut i: usize = 0;
        while i < self.actions.len()
            invariant
                i <= self.actions.len(),
                find_key(self@, name@, 0) == find_key(self@, name@, i as int),
            decreases self.actions.len() - i,
        {
            if same_text(self.actions[i].0.as_str(), name) {
                return i;
            }
            i = i + 1;
        }
        i
    }

    /// Serves the action `name` with `response`, in place of any response
    /// that it had.
    pub fn insert(&mut self, name: String, response: StaticResponse)
        ensures
            final(self)@ == with_member(old(self)@, name@, response@),
    {
        let at = self.position_of(name.as_str());
        if at < self.actions.len() {
            self.actions[at] = (name, response);
        } else {
            self.actions.push((name, response));
        }
        assert(self@ =~= with_member(old(self)@, name@, response@));
    }

    /// The response of the action `action_name`, if it is served from
    /// here.
    pub fn get(&self, action_name: &str) -> (r: Option<&StaticResponse>)
        ensures
            match r {
                Some(response) => member(self@, action_name@) == Some(response@),
                None => member(self@, action_name@) is None,
            },
    {
        let at = self.position_of(action_name);
        if at < self.actions.len() {
            Some(&self.actions[at].1)
        } else {
            None
        }
    }

    /// The number of actions served from here.
    pub fn len(&self) -> (r: usize)
        ensures
            r == self@.len(),
    {
        self.actions.len()
    }
}

} // verus!
