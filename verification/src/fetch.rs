//! The options and the outcome of an HTTP fetch, as actions and the
//! executor exchange them.

use vstd::prelude::*;
use vstd::string::StringExecFns;
use crate::drift::TitanAsyncOp;
use crate::fast_path::headers_view;
use crate::json::{lemma_object_view, members_view, Json, JsonValue};
use crate::number::{JsNumber, Num};
use crate::text::chars_of;

verus! {

/// The options of a fetch.
#[derive(Clone, Debug)]
pub struct FetchOptions {
    pub method: String,
    pub headers: Option<Vec<(String, String)>>,
    pub body: Option<String>,
}

impl Default for FetchOptions {
    /// No method, no headers and no body.
    fn default() -> (r: FetchOptions)
        ensures
            r.method@ == Seq::<char>::empty(),
            r.headers is None,
            r.body is None,
    {
        FetchOptions { method: String::new(), headers: None, body: None }
    }
}

impl FetchOptions {
    /// The method that the fetch uses: the method of the options, or `GET`
    /// where the options name none.
    pub open spec fn spec_method(&self) -> Seq<char> {
        if self.method@.len() == 0 {
            "GET"@
        } else {
            self.method@
        }
    }

    /// The operation that fetches `url` with these options.
    pub fn into_op(self, url: String) -> (r: TitanAsyncOp)
        ensures
            r matches TitanAsyncOp::Fetch { url: u, method, body, headers } && u == url
                && method@ == self.spec_method() && body == self.body && headers_view(headers@)
                == match self.headers {
                Some(list) => headers_view(list@),
                None => Seq::<(Seq<char>, Seq<char>)>::empty(),
            },
    {
        let chars = chars_of(self.method.as_str());
        let method = if chars.len() == 0 {
            String::from_str("GET")
        } else {
            self.method
        };
        let headers = match self.headers {
            Some(list) => list,
            None => {
                let none: Vec<(String, String)> = Vec::new();
                assert(headers_view(none@) =~= Seq::empty());
                none
            },
        };
        TitanAsyncOp::Fetch { url, method, body: self.body, headers }
    }
}

/// The outcome of a fetch that got an answer.
#[derive(Clone, Debug)]
pub struct FetchResponse {
    pub status: u16,
    pub body: String,
    pub ok: bool,
}

impl FetchResponse {
    /// The outcome for an answer of the given status and body; it is `ok`
    /// when the status is a 2xx.
    pub fn new(status: u16, body: String) -> (r: FetchResponse)
        ensures
            r.status == status,
            r.body == body,
            r.ok == (200 <= status < 300),
    {
        FetchResponse { status, body, ok: status >= 200 && status < 300 }
    }

    /// The value that stands for the outcome in JSON.
    pub open spec fn spec_json(&self) -> Json {
        Json::Object(
            seq![
                ("ok"@, Json::Bool(self.ok)),
                ("status"@, Json::Number(Num::Int(self.status as int))),
                ("body"@, Json::Text(self.body@)),
            ],
        )
    }

    /// The value that an action sees for the outcome: an object with the
    /// members `ok`, `status` and `body`.
    pub fn to_json(&self) -> (r: JsonValue)
        ensures
            r@ == self.spec_json(),
    {
        let mut members: Vec<(String, JsonValue)> = Vec::new();
        members.push((String::from_str("ok"), JsonValue::Bool(self.ok)));
        members.push(
            (String::from_str("status"), JsonValue::Number(JsNumber::Int(self.status as i64))),
        );
        members.push((String::from_str("body"), JsonValue::String(self.body.clone())));
        proof {
            lemma_object_view(members);
            assert(members_view(members@) =~= seq![
                ("ok"@, Json::Bool(self.ok)),
                ("status"@, Json::Number(Num::Int(self.status as int))),
                ("body"@, Json::Text(self.body@)),
            ]);
        }
        JsonValue::Object(members)
    }
}

/// The value that an action sees for a fetch that failed: an object with
/// the member `ok`, which is `false`, and the member `error`.
pub fn fetch_failure(error: &str) -> (r: JsonValue)
    ensures
        r@ == Json::Object(seq![("ok"@, Json::Bool(false)), ("error"@, Json::Text(error@))]),
{
    let mut members: Vec<(String, JsonValue)> = Vec::new();
    members.push((String::from_str("ok"), JsonValue::Bool(false)));
    members.push((String::from_str("error"), JsonValue::String(String::from_str(error))));
    proof {
        lemma_object_view(members);
        assert(members_view(members@) =~= seq![
            ("ok"@, Json::Bool(false)),
            ("error"@, Json::Text(error@)),
        ]);
    }
    JsonValue::Object(members)
}

} // verus!
