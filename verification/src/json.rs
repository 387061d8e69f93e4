//! JSON values as the analyzer computes them, and their compact text.

use vstd::prelude::*;
use vstd::string::StringExecFns;
use crate::number::{number_text, JsNumber, Num};

verus! {

broadcast use {vstd::std_specs::vec::axiom_vec_index_decreases, vstd::seq::group_seq_axioms};

/// A JSON value. The members of an object keep the order in which their keys
/// were first written.
#[derive(Debug)]
pub enum JsonValue {
    Null,
    Bool(bool),
    Number(JsNumber),
    String(String),
    Array(Vec<JsonValue>),
    Object(Vec<(String, JsonValue)>),
}

/// The mathematical value of a [`JsonValue`].
pub enum Json {
    Null,
    Bool(bool),
    Number(Num),
    Text(Seq<char>),
    Array(Seq<Json>),
    Object(Seq<(Seq<char>, Json)>),
}

impl View for JsonValue {
    type V = Json;

    open spec fn view(&self) -> Json
        decreases self, 0nat,
    {
        match self {
            JsonValue::Null => Json::Null,
            JsonValue::Bool(b) => Json::Bool(*b),
            JsonValue::Number(n) => Json::Number(n@),
            JsonValue::String(s) => Json::Text(s@),
            JsonValue::Array(items) => Json::Array(first_items_view(*items, items@.len())),
            JsonValue::Object(members) => Json::Object(
                first_members_view(*members, members@.len()),
            ),
        }
    }
}

/// The values of the first `n` items.
pub open spec fn first_items_view(items: Vec<JsonValue>, n: nat) -> Seq<Json>
    decreases items, n,
{
    if n == 0 || n > items@.len() {
        Seq::empty()
    } else {
        first_items_view(items, (n - 1) as nat).push(items@[n - 1].view())
    }
}

/// The keys and values of the first `n` members.
pub open spec fn first_members_view(members: Vec<(String, JsonValue)>, n: nat) -> Seq<
    (Seq<char>, Json),
>
    decreases members, n,
{
    if n == 0 || n > members@.len() {
        Seq::empty()
    } else {
        first_members_view(members, (n - 1) as nat).push(
            (members@[n - 1].0@, members@[n - 1].1.view()),
        )
    }
}

proof fn lemma_first_items_view(items: Vec<JsonValue>, n: nat)
    requires
        n <= items@.len(),
    ensures
        first_items_view(items, n) == items_view(items@).subrange(0, n as int),
    decreases n,
{
    if n > 0 {
        lemma_first_items_view(items, (n - 1) as nat);
        assert(items_view(items@)[n - 1] == items@[n - 1].view());
    }
    assert(first_items_view(items, n) =~= items_view(items@).subrange(0, n as int));
}

proof fn lemma_first_members_view(members: Vec<(String, JsonValue)>, n: nat)
    requires
        n <= members@.len(),
    ensures
        first_members_view(members, n) == members_view(members@).subrange(0, n as int),
    decreases n,
{
    if n > 0 {
        lemma_first_members_view(members, (n - 1) as nat);
        assert(members_view(members@)[n - 1] == (members@[n - 1].0@, members@[n - 1].1.view()));
    }
    assert(first_members_view(members, n) =~= members_view(members@).subrange(0, n as int));
}

/// The values of a sequence of items.
pub open spec fn items_view(items: Seq<JsonValue>) -> Seq<Json> {
    Seq::new(items.len(), |i: int| items[i]@)
}

/// The keys and values of a sequence of members.
pub open spec fn members_view(members: Seq<(String, JsonValue)>) -> Seq<(Seq<char>, Json)> {
    Seq::new(members.len(), |i: int| (members[i].0@, members[i].1@))
}

/// The view of an array is the sequence of its items' views.
pub proof fn lemma_array_view(items: Vec<JsonValue>)
    ensures
        JsonValue::Array(items)@ == Json::Array(items_view(items@)),
{
    lemma_first_items_view(items, items@.len());
    assert(items_view(items@).subrange(0, items@.len() as int) =~= items_view(items@));
}

/// The view of an object is the sequence of its members' views.
pub proof fn lemma_object_view(members: Vec<(String, JsonValue)>)
    ensures
        JsonValue::Object(members)@ == Json::Object(members_view(members@)),
{
    lemma_first_members_view(members, members@.len());
    assert(members_view(members@).subrange(0, members@.len() as int) =~= members_view(members@));
}

/// The view of an optional value.
pub open spec fn value_view(o: Option<JsonValue>) -> Option<Json> {
    match o {
        Some(v) => Some(v@),
        None => None,
    }
}

/// The first position at or after `from` whose key is `key`; the length of
/// `members` where there is none.
pub open spec fn find_key<V>(members: Seq<(Seq<char>, V)>, key: Seq<char>, from: int) -> int
    decreases members.len() - from,
{
    if from < 0 || from >= members.len() {
        members.len() as int
    } else if members[from].0 == key {
        from
    } else {
        find_key(members, key, from + 1)
    }
}

/// The members after `key` was written with `value`: the first member of
/// that key takes the value and keeps its place; a new key goes to the end.
pub open spec fn with_member<V>(members: Seq<(Seq<char>, V)>, key: Seq<char>, value: V) -> Seq<
    (Seq<char>, V),
> {
    let at = find_key(members, key, 0);
    if at < members.len() {
        members.update(at, (key, value))
    } else {
        members.push((key, value))
    }
}

/// The value of the first member whose key is `key`.
pub open spec fn member<V>(members: Seq<(Seq<char>, V)>, key: Seq<char>) -> Option<V> {
    let at = find_key(members, key, 0);
    if at < members.len() {
        Some(members[at].1)
    } else {
        None
    }
}

/// `find_key` stays within the sequence and finds only the key asked for.
pub proof fn lemma_find_key<V>(members: Seq<(Seq<char>, V)>, key: Seq<char>, from: int)
    requires
        0 <= from <= members.len(),
    ensures
        from <= find_key(members, key, from) <= members.len(),
        find_key(members, key, from) < members.len() ==> members[find_key(
            members,
            key,
            from,
        )].0 == key,
        forall|j: int| from <= j < find_key(members, key, from) ==> members[j].0 != key,
    decreases members.len() - from,
{
    if from < members.len() && members[from].0 != key {
        lemma_find_key(members, key, from + 1);
    }
}

proof fn lemma_find_key_after_update<V>(
    members: Seq<(Seq<char>, V)>,
    at: int,
    key: Seq<char>,
    value: V,
    other: Seq<char>,
    from: int,
)
    requires
        0 <= at < members.len(),
        members[at].0 == key,
        0 <= from <= members.len(),
    ensures
        find_key(members.update(at, (key, value)), other, from) == find_key(members, other, from),
    decreases members.len() - from,
{
    let updated = members.update(at, (key, value));
    if from < members.len() {
        assert(updated[from].0 == members[from].0);
        if members[from].0 != other {
            lemma_find_key_after_update(members, at, key, value, other, from + 1);
        }
    }
}

proof fn lemma_find_key_after_push<V>(
    members: Seq<(Seq<char>, V)>,
    key: Seq<char>,
    value: V,
    other: Seq<char>,
    from: int,
)
    requires
        0 <= from <= members.len(),
    ensures
        find_key(members.push((key, value)), other, from) == if find_key(members, other, from)
            < members.len() || other == key {
            find_key(members, other, from)
        } else {
            (members.len() + 1) as int
        },
    decreases members.len() - from,
{
    let pushed = members.push((key, value));
    if from < members.len() {
        assert(pushed[from] == members[from]);
        if members[from].0 != other {
            lemma_find_key_after_push(members, key, value, other, from + 1);
        }
    } else {
        assert(pushed[from] == (key, value));
        assert(find_key(pushed, other, from + 1) == pushed.len());
        assert(find_key(members, other, from) == members.len());
    }
}

/// Whether no key occurs twice among the members.
pub open spec fn distinct_keys<V>(members: Seq<(Seq<char>, V)>) -> bool {
    forall|i: int, j: int|
        0 <= i < j < members.len() ==> (#[trigger] members[i]).0 != (#[trigger] members[j]).0
}

/// Writing under a key never makes a key occur twice.
pub proof fn lemma_write_keeps_keys_distinct<V>(
    members: Seq<(Seq<char>, V)>,
    key: Seq<char>,
    value: V,
)
    requires
        distinct_keys(members),
    ensures
        distinct_keys(with_member(members, key, value)),
{
    lemma_find_key(members, key, 0);
    let at = find_key(members, key, 0);
    let after = with_member(members, key, value);
    assert forall|i: int, j: int| 0 <= i < j < after.len() implies (#[trigger] after[i]).0 != (
    #[trigger] after[j]).0 by {
        if at < members.len() {
            assert(after[i].0 == members[i].0);
            assert(after[j].0 == members[j].0);
        } else {
            assert(after[i] == members[i]);
            if j < members.len() {
                assert(after[j] == members[j]);
            }
        }
    }
}

/// Writing under a key adds a member where the key is new, and none where
/// it is not.
pub proof fn lemma_write_adds_new_keys_only<V>(
    members: Seq<(Seq<char>, V)>,
    key: Seq<char>,
    value: V,
)
    ensures
        with_member(members, key, value).len() == if member(members, key) is Some {
            members.len()
        } else {
            members.len() + 1
        },
{
    lemma_find_key(members, key, 0);
}

/// What is written under a key is read back under it.
pub proof fn lemma_written_member_is_read<V>(
    members: Seq<(Seq<char>, V)>,
    key: Seq<char>,
    value: V,
)
    ensures
        member(with_member(members, key, value), key) == Some(value),
{
    lemma_find_key(members, key, 0);
    let at = find_key(members, key, 0);
    if at < members.len() {
        lemma_find_key_after_update(members, at, key, value, key, 0);
    } else {
        lemma_find_key_after_push(members, key, value, key, 0);
    }
}

/// Writing under one key leaves what is read under every other key.
pub proof fn lemma_other_members_are_kept<V>(
    members: Seq<(Seq<char>, V)>,
    key: Seq<char>,
    value: V,
    other: Seq<char>,
)
    requires
        other != key,
    ensures
        member(with_member(members, key, value), other) == member(members, other),
{
    lemma_find_key(members, key, 0);
    lemma_find_key(members, other, 0);
    let at = find_key(members, key, 0);
    if at < members.len() {
        lemma_find_key_after_update(members, at, key, value, other, 0);
        lemma_find_key(members.update(at, (key, value)), other, 0);
    } else {
        lemma_find_key_after_push(members, key, value, other, 0);
    }
}

fn position_of(members: &Vec<(String, JsonValue)>, key: &str) -> (at: usize)
    ensures
        at == find_key(members_view(members@), key@, 0),
        at <= members.len(),
{
    let mut i: usize = 0;
    while i < members.len()
        invariant
            i <= members.len(),
            find_key(members_view(members@), key@, 0) == find_key(
                members_view(members@),
                key@,
                i as int,
            ),
        decreases members.len() - i,
    {
        if crate::text::same_text(members[i].0.as_str(), key) {
            return i;
        }
        i = i + 1;
    }
    i
}

/// Writes `value` under `key`: see [`with_member`].
pub fn insert_member(members: &mut Vec<(String, JsonValue)>, key: String, value: JsonValue)
    ensures
        members_view(final(members)@) == with_member(members_view(old(members)@), key@, value@),
{
    let at = position_of(members, key.as_str());
    if at < members.len() {
        members[at] = (key, value);
    } else {
        members.push((key, value));
    }
    assert(members_view(members@) =~= with_member(members_view(old(members)@), key@, value@));
}

/// The value under `key`: see [`member`].
pub fn get_member<'a>(members: &'a Vec<(String, JsonValue)>, key: &str) -> (r: Option<
    &'a JsonValue,
>)
    ensures
        match r {
            Some(v) => member(members_view(members@), key@) == Some(v@),
            None => member(members_view(members@), key@) is None,
        },
{
    let at = position_of(members, key);
    if at < members.len() {
        Some(&members[at].1)
    } else {
        None
    }
}

/// The JSON string literal that `serde_json` writes for a text, quotes and
/// escapes included.
pub uninterp spec fn json_quoted(text: Seq<char>) -> Seq<char>;

/// `serde_json::Error`: why a value could not be written.
#[verifier::external_type_specification]
#[verifier::external_body]
pub struct ExJsonError(serde_json::Error);

/// `serde_json::to_string` on a string slice. The literal is written into
/// a byte vector, which takes every write, so the call succeeds; the
/// contract gives the literal the name [`json_quoted`].
#[verifier::external_body]
fn quote(text: &str) -> (r: Result<String, serde_json::Error>)
    ensures
        r is Ok,
        r matches Ok(quoted) ==> quoted@ == json_quoted(text@),
{
    serde_json::to_string(text)
}

/// Appends the JSON string literal of `text` to `out`.
fn write_quoted(text: &str, out: &mut String)
    ensures
        final(out)@ == old(out)@ + json_quoted(text@),
{
    match quote(text) {
        Ok(quoted) => {
            out.append(quoted.as_str());
        },
        Err(_) => {},
    }
}

/// The compact JSON text of a value: no white space, members in their
/// order, strings as `serde_json` quotes them.
pub open spec fn json_text(j: Json) -> Seq<char>
    decreases j, 0nat,
{
    match j {
        Json::Null => "null"@,
        Json::Bool(b) => if b {
            "true"@
        } else {
            "false"@
        },
        Json::Number(n) => number_text(n),
        Json::Text(s) => json_quoted(s),
        Json::Array(items) => "["@ + items_text(items, items.len()) + "]"@,
        Json::Object(members) => "{"@ + members_text(members, members.len()) + "}"@,
    }
}

/// The texts of the first `n` items, with a comma between neighbours.
pub open spec fn items_text(items: Seq<Json>, n: nat) -> Seq<char>
    decreases items, n,
{
    if n == 0 || n > items.len() {
        Seq::empty()
    } else if n == 1 {
        json_text(items[0])
    } else {
        items_text(items, (n - 1) as nat) + ","@ + json_text(items[n - 1])
    }
}

/// The text of a member: its quoted key, a colon and its value.
pub open spec fn member_text(key: Seq<char>, value: Json) -> Seq<char>
    decreases value, 1nat,
{
    json_quoted(key) + ":"@ + json_text(value)
}

/// The texts of the first `n` members, with a comma between neighbours.
pub open spec fn members_text(members: Seq<(Seq<char>, Json)>, n: nat) -> Seq<char>
    decreases members, n,
{
    if n == 0 || n > members.len() {
        Seq::empty()
    } else if n == 1 {
        member_text(members[0].0, members[0].1)
    } else {
        members_text(members, (n - 1) as nat) + ","@ + member_text(
            members[n - 1].0,
            members[n - 1].1,
        )
    }
}

/// Appends the compact JSON text of `value` to `out`.
fn write_json(value: &JsonValue, out: &mut String)
    ensures
        final(out)@ == old(out)@ + json_text(value@),
    decreases value, 1nat,
{
    match value {
        JsonValue::Null => {
            out.append("null");
        },
        JsonValue::Bool(b) => {
            if *b {
                out.append("true");
            } else {
                out.append("false");
            }
        },
        JsonValue::Number(n) => {
            let text = n.text();
            out.append(text.as_str());
        },
        JsonValue::String(s) => {
            write_quoted(s.as_str(), out);
        },
        JsonValue::Array(items) => {
            proof {
                lemma_array_view(*items);
            }
            out.append("[");
            write_items(items, out);
            out.append("]");
            assert(out@ =~= old(out)@ + ("["@ + items_text(items_view(items@), items@.len())
                + "]"@));
        },
        JsonValue::Object(members) => {
            proof {
                lemma_object_view(*members);
            }
            out.append("{");
            write_members(members, out);
            out.append("}");
            assert(out@ =~= old(out)@ + ("{"@ + members_text(
                members_view(members@),
                members@.len(),
            ) + "}"@));
        },
    }
}

fn write_items(items: &Vec<JsonValue>, out: &mut String)
    ensures
        final(out)@ == old(out)@ + items_text(items_view(items@), items@.len()),
    decreases items, 0nat,
{
    let ghost views = items_view(items@);
    let mut i: usize = 0;
    assert(out@ =~= old(out)@ + Seq::<char>::empty());
    while i < items.len()
        invariant
            i <= items.len(),
            views == items_view(items@),
            out@ == old(out)@ + items_text(views, i as nat),
        decreases items.len() - i,
    {
        if i > 0 {
            out.append(",");
        }
        write_json(&items[i], out);
        i = i + 1;
        assert(out@ =~= old(out)@ + items_text(views, i as nat));
    }
}

fn write_members(members: &Vec<(String, JsonValue)>, out: &mut String)
    ensures
        final(out)@ == old(out)@ + members_text(members_view(members@), members@.len()),
    decreases members, 0nat,
{
    let ghost views = members_view(members@);
    let mut i: usize = 0;
    assert(out@ =~= old(out)@ + Seq::<char>::empty());
    while i < members.len()
        invariant
            i <= members.len(),
            views == members_view(members@),
            out@ == old(out)@ + members_text(views, i as nat),
        decreases members.len() - i,
    {
        let ghost before = members_text(views, i as nat);
        if i > 0 {
            out.append(",");
        }
        write_quoted(members[i].0.as_str(), out);
        out.append(":");
        write_json(&members[i].1, out);
        proof {
            let key = members@[i as int].0@;
            let value = members@[i as int].1@;
            assert(views[i as int] == (key, value));
            assert(member_text(key, value) == json_quoted(key) + ":"@ + json_text(value));
            if i > 0 {
                assert(out@ =~= old(out)@ + (before + ","@ + member_text(key, value)));
            } else {
                assert(out@ =~= old(out)@ + member_text(key, value));
            }
        }
        i = i + 1;
        assert(out@ == old(out)@ + members_text(views, i as nat));
    }
}


fn copy_items(items: &Vec<JsonValue>) -> (r: Vec<JsonValue>)
    ensures
        items_view(r@) == items_view(items@),
    decreases items, 0nat,
{
    let mut out: Vec<JsonValue> = Vec::new();
    let mut i: usize = 0;
    while i < items.len()
        invariant
            i <= items.len(),
            out@.len() == i,
            forall|j: int| 0 <= j < i ==> out@[j]@ == items@[j]@,
        decreases items.len() - i,
    {
        out.push(items[i].duplicate());
        i = i + 1;
    }
    assert(items_view(out@) =~= items_view(items@));
    out
}

fn copy_members(members: &Vec<(String, JsonValue)>) -> (r: Vec<(String, JsonValue)>)
    ensures
        members_view(r@) == members_view(members@),
    decreases members, 0nat,
{
    let mut out: Vec<(String, JsonValue)> = Vec::new();
    let mut i: usize = 0;
    while i < members.len()
        invariant
            i <= members.len(),
            out@.len() == i,
            forall|j: int|
                0 <= j < i ==> out@[j].0@ == members@[j].0@ && out@[j].1@ == members@[j].1@,
        decreases members.len() - i,
    {
        out.push((members[i].0.clone(), members[i].1.duplicate()));
        i = i + 1;
    }
    assert(members_view(out@) =~= members_view(members@));
    out
}

impl JsonValue {
    /// A copy of the value.
    pub fn duplicate(&self) -> (r: JsonValue)
        ensures
            r@ == self@,
        decreases self, 1nat,
    {
        match self {
            JsonValue::Null => JsonValue::Null,
            JsonValue::Bool(b) => JsonValue::Bool(*b),
            JsonValue::Number(n) => JsonValue::Number(n.duplicate()),
            JsonValue::String(s) => JsonValue::String(s.clone()),
            JsonValue::Array(items) => {
                let copy = copy_items(items);
                proof {
                    lemma_array_view(*items);
                    lemma_array_view(copy);
                }
                JsonValue::Array(copy)
            },
            JsonValue::Object(members) => {
                let copy = copy_members(members);
                proof {
                    lemma_object_view(*members);
                    lemma_object_view(copy);
                }
                JsonValue::Object(copy)
            },
        }
    }

    /// The compact JSON text of the value: see [`json_text`].
    pub fn to_json_text(&self) -> (r: String)
        ensures
            r@ == json_text(self@),
    {
        let mut out = String::new();
        write_json(self, &mut out);
        assert(Seq::<char>::empty() + json_text(self@) =~= json_text(self@));
        out
    }

    /// The text of a string value.
    pub fn as_text(&self) -> (r: Option<&String>)
        ensures
            match r {
                Some(s) => self@ == Json::Text(s@),
                None => !(self@ is Text),
            },
    {
        match self {
            JsonValue::String(s) => Some(s),
            _ => None,
        }
    }

    /// The members of an object value.
    pub fn as_members(&self) -> (r: Option<&Vec<(String, JsonValue)>>)
        ensures
            match r {
                Some(members) => self@ == Json::Object(members_view(members@)),
                None => !(self@ is Object),
            },
    {
        match self {
            JsonValue::Object(members) => {
                proof {
                    lemma_object_view(*members);
                }
                Some(members)
            },
            _ => None,
        }
    }
}

} // verus!
