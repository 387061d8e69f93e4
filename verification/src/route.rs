//! The route table: exact routes keyed by method and path, and dynamic
//! routes whose patterns bind path segments to typed parameters.

use vstd::prelude::*;
use vstd::string::StringExecFns;
use crate::json::{find_key, member, with_member, Json, JsonValue};
use crate::text::{chars_of, joined, same_text, text_of, text_of_range};

verus! {

/// `s` without the characters `c` at its start.
pub open spec fn trim_start(s: Seq<char>, c: char) -> Seq<char>
    decreases s.len(),
{
    if s.len() > 0 && s[0] == c {
        trim_start(s.drop_first(), c)
    } else {
        s
    }
}

/// `s` without the characters `c` at its end.
pub open spec fn trim_end(s: Seq<char>, c: char) -> Seq<char>
    decreases s.len(),
{
    if s.len() > 0 && s.last() == c {
        trim_end(s.drop_last(), c)
    } else {
        s
    }
}

/// `s` without the characters `c` at both ends.
pub open spec fn trimmed(s: Seq<char>, c: char) -> Seq<char> {
    trim_end(trim_start(s, c), c)
}

/// The pieces of `s` between the separators `sep`: one more than there are
/// separators, empty pieces included.
pub open spec fn split(s: Seq<char>, sep: char) -> Seq<Seq<char>>
    decreases s.len(),
{
    if s.len() == 0 {
        seq![Seq::empty()]
    } else {
        let before = split(s.drop_last(), sep);
        if s.last() == sep {
            before.push(Seq::empty())
        } else {
            before.drop_last().push(before.last().push(s.last()))
        }
    }
}

/// A split has at least one piece.
pub proof fn lemma_split_nonempty(s: Seq<char>, sep: char)
    ensures
        split(s, sep).len() >= 1,
    decreases s.len(),
{
    if s.len() > 0 {
        lemma_split_nonempty(s.drop_last(), sep);
    }
}

/// The character sequences of a list of pieces.
pub open spec fn pieces_view(pieces: Seq<Vec<char>>) -> Seq<Seq<char>> {
    Seq::new(pieces.len(), |i: int| pieces[i]@)
}

proof fn lemma_trim_start(s: Seq<char>, c: char, k: int)
    requires
        0 <= k <= s.len(),
        forall|j: int| 0 <= j < k ==> s[j] == c,
        k == s.len() || s[k] != c,
    ensures
        trim_start(s, c) == s.subrange(k, s.len() as int),
    decreases k,
{
    if k > 0 {
        let rest = s.drop_first();
        lemma_trim_start(rest, c, k - 1);
        assert(rest.subrange(k - 1, rest.len() as int) =~= s.subrange(k, s.len() as int));
    } else {
        assert(s.subrange(0, s.len() as int) =~= s);
    }
}

proof fn lemma_trim_end(s: Seq<char>, c: char, k: int)
    requires
        0 <= k <= s.len(),
        forall|j: int| k <= j < s.len() ==> s[j] == c,
        k == 0 || s[k - 1] != c,
    ensures
        trim_end(s, c) == s.subrange(0, k),
    decreases s.len() - k,
{
    if k < s.len() {
        let rest = s.drop_last();
        lemma_trim_end(rest, c, k);
        assert(rest.subrange(0, k) =~= s.subrange(0, k));
    } else {
        assert(s.subrange(0, s.len() as int) =~= s);
    }
}

/// The bounds of `chars[from..to]` without the characters `c` at its end.
fn trim_end_bound(chars: &Vec<char>, from: usize, to: usize, c: char) -> (end: usize)
    requires
        from <= to <= chars.len(),
    ensures
        from <= end <= to,
        chars@.subrange(from as int, end as int) == trim_end(
            chars@.subrange(from as int, to as int),
            c,
        ),
{
    let mut end = to;
    while end > from && chars[end - 1] == c
        invariant
            from <= end <= to <= chars.len(),
            forall|j: int| end <= j < to ==> chars@[j] == c,
        decreases end,
    {
        end = end - 1;
    }
    proof {
        let s = chars@.subrange(from as int, to as int);
        lemma_trim_end(s, c, end - from);
        assert(s.subrange(0, end - from) =~= chars@.subrange(from as int, end as int));
    }
    end
}

/// The bounds of `chars` without the characters `c` at both ends.
fn trim_bounds(chars: &Vec<char>, c: char) -> (r: (usize, usize))
    ensures
        r.0 <= r.1 <= chars.len(),
        chars@.subrange(r.0 as int, r.1 as int) == trimmed(chars@, c),
{
    let mut start: usize = 0;
    while start < chars.len() && chars[start] == c
        invariant
            start <= chars.len(),
            forall|j: int| 0 <= j < start ==> chars@[j] == c,
        decreases chars.len() - start,
    {
        start = start + 1;
    }
    proof {
        lemma_trim_start(chars@, c, start as int);
    }
    let end = trim_end_bound(chars, start, chars.len(), c);
    (start, end)
}

/// The pieces of `chars[from..to]` between the separators `sep`.
fn split_range(chars: &Vec<char>, from: usize, to: usize, sep: char) -> (r: Vec<Vec<char>>)
    requires
        from <= to <= chars.len(),
    ensures
        pieces_view(r@) == split(chars@.subrange(from as int, to as int), sep),
{
    let mut pieces: Vec<Vec<char>> = Vec::new();
    let mut current: Vec<char> = Vec::new();
    let mut i: usize = from;
    assert(chars@.subrange(from as int, from as int) =~= Seq::empty());
    assert(pieces_view(pieces@).push(current@) =~= seq![Seq::<char>::empty()]);
    while i < to
        invariant
            from <= i <= to <= chars.len(),
            pieces_view(pieces@).push(current@) == split(
                chars@.subrange(from as int, i as int),
                sep,
            ),
        decreases to - i,
    {
        let ghost done = pieces_view(pieces@);
        let ghost prefix = chars@.subrange(from as int, i as int);
        let ghost next = chars@.subrange(from as int, i + 1);
        assert(next.drop_last() =~= prefix);
        assert(next.last() == chars@[i as int]);
        if chars[i] == sep {
            pieces.push(current);
            current = Vec::new();
            assert(pieces_view(pieces@).push(current@) =~= split(prefix, sep).push(Seq::empty()));
        } else {
            let ghost old_current = current@;
            current.push(chars[i]);
            assert(pieces_view(pieces@).push(current@) =~= split(prefix, sep).drop_last().push(
                split(prefix, sep).last().push(chars@[i as int]),
            ));
        }
        i = i + 1;
    }
    let ghost done = pieces_view(pieces@);
    let ghost last = current@;
    pieces.push(current);
    assert(pieces_view(pieces@) =~= done.push(last));
    pieces
}

/// The pieces of `text` between the separators `sep`: see [`split`].
pub fn split_text(text: &str, sep: char) -> (r: Vec<Vec<char>>)
    ensures
        pieces_view(r@) == split(text@, sep),
{
    let chars = chars_of(text);
    assert(chars@.subrange(0, chars@.len() as int) =~= chars@);
    split_range(&chars, 0, chars.len(), sep)
}

/// Whether a character is a decimal digit.
pub open spec fn is_digit(c: char) -> bool {
    '0' <= c <= '9'
}

/// The number that a sequence of decimal digits writes.
pub open spec fn digits_value(s: Seq<char>) -> nat
    decreases s.len(),
{
    if s.len() == 0 {
        0
    } else {
        digits_value(s.drop_last()) * 10 + ((s.last() as u32 - '0' as u32) as nat)
    }
}

/// Whether every character of `s` is a decimal digit.
pub open spec fn all_digits(s: Seq<char>) -> bool {
    forall|i: int| 0 <= i < s.len() ==> is_digit(#[trigger] s[i])
}

/// Whether `s` is a decimal numeral of at least one digit whose value is at
/// most `limit`.
pub open spec fn is_numeral_within(s: Seq<char>, limit: nat) -> bool {
    s.len() > 0 && all_digits(s) && digits_value(s) <= limit
}

/// Whether a text writes a signed 64-bit integer: an optional sign, then at
/// least one decimal digit and nothing else, with a value in range.
pub open spec fn is_integer_text(s: Seq<char>) -> bool {
    if s.len() > 0 && s[0] == '-' {
        is_numeral_within(s.drop_first(), 0x8000_0000_0000_0000)
    } else if s.len() > 0 && s[0] == '+' {
        is_numeral_within(s.drop_first(), 0x7fff_ffff_ffff_ffff)
    } else {
        is_numeral_within(s, 0x7fff_ffff_ffff_ffff)
    }
}

/// The value of the first digits of a numeral is at most the value of the
/// numeral.
pub proof fn lemma_digits_grow(s: Seq<char>, k: int)
    requires
        0 <= k <= s.len(),
    ensures
        digits_value(s.subrange(0, k)) <= digits_value(s),
    decreases s.len() - k,
{
    if k < s.len() {
        lemma_digits_grow(s.drop_last(), k);
        assert(s.drop_last().subrange(0, k) =~= s.subrange(0, k));
    } else {
        assert(s.subrange(0, k) =~= s);
    }
}

/// Whether `chars[from..]` is a numeral within `limit`.
fn numeral_within(chars: &Vec<char>, from: usize, limit: u64) -> (r: bool)
    requires
        from <= chars.len(),
        limit <= 0x8000_0000_0000_0000,
    ensures
        r == is_numeral_within(chars@.subrange(from as int, chars@.len() as int), limit as nat),
{
    let ghost s = chars@.subrange(from as int, chars@.len() as int);
    if from == chars.len() {
        return false;
    }
    let mut value: u64 = 0;
    let mut i: usize = from;
    assert(s.subrange(0, 0) =~= Seq::empty());
    while i < chars.len()
        invariant
            from <= i <= chars.len(),
            s == chars@.subrange(from as int, chars@.len() as int),
            all_digits(s.subrange(0, i - from)),
            value == digits_value(s.subrange(0, i - from)),
            value <= limit <= 0x8000_0000_0000_0000,
        decreases chars.len() - i,
    {
        let c = chars[i];
        let ghost prefix = s.subrange(0, i - from);
        let ghost next = s.subrange(0, i + 1 - from);
        assert(next.drop_last() =~= prefix);
        assert(next.last() == c);
        if !('0' <= c && c <= '9') {
            assert(!is_digit(s[i - from]));
            return false;
        }
        let d: u64 = (c as u32 - '0' as u32) as u64;
        let wide: u128 = value as u128 * 10 + d as u128;
        if wide > limit as u128 {
            proof {
                lemma_digits_grow(s, i + 1 - from);
            }
            return false;
        }
        value = wide as u64;
        assert(all_digits(next)) by {
            assert forall|j: int| 0 <= j < next.len() implies is_digit(#[trigger] next[j]) by {
                if j < prefix.len() {
                    assert(next[j] == prefix[j]);
                }
            }
        }
        i = i + 1;
    }
    assert(s.subrange(0, s.len() as int) =~= s);
    true
}

/// Whether `chars` writes a signed 64-bit integer: see
/// [`is_integer_text`].
pub fn parses_as_integer(chars: &Vec<char>) -> (r: bool)
    ensures
        r == is_integer_text(chars@),
{
    if chars.len() > 0 && chars[0] == '-' {
        assert(chars@.drop_first() =~= chars@.subrange(1, chars@.len() as int));
        numeral_within(chars, 1, 0x8000_0000_0000_0000)
    } else if chars.len() > 0 && chars[0] == '+' {
        assert(chars@.drop_first() =~= chars@.subrange(1, chars@.len() as int));
        numeral_within(chars, 1, 0x7fff_ffff_ffff_ffff)
    } else {
        assert(chars@ =~= chars@.subrange(0, chars@.len() as int));
        numeral_within(chars, 0, 0x7fff_ffff_ffff_ffff)
    }
}

/// A route whose pattern binds path segments to parameters: a segment
/// `:name` takes any text, a segment `:name<number>` an integer only.
#[derive(Clone, Debug)]
pub struct DynamicRoute {
    pub method: String,
    pub pattern: String,
    pub action: String,
}

/// The mathematical value of a [`DynamicRoute`].
pub struct RouteView {
    pub method: Seq<char>,
    pub pattern: Seq<char>,
    pub action: Seq<char>,
}

impl View for DynamicRoute {
    type V = RouteView;

    open spec fn view(&self) -> RouteView {
        RouteView { method: self.method@, pattern: self.pattern@, action: self.action@ }
    }
}

/// The views of a list of routes.
pub open spec fn routes_view(routes: Seq<DynamicRoute>) -> Seq<RouteView> {
    Seq::new(routes.len(), |i: int| routes[i]@)
}

/// The names and values of a list of parameters.
pub open spec fn params_view(params: Seq<(String, String)>) -> Seq<(Seq<char>, Seq<char>)> {
    Seq::new(params.len(), |i: int| (params[i].0@, params[i].1@))
}

/// The first position at or after `from` where `s` holds `c`; the length of
/// `s` where there is none.
pub open spec fn first_index(s: Seq<char>, c: char, from: int) -> int
    decreases s.len() - from,
{
    if from < 0 || from >= s.len() {
        s.len() as int
    } else if s[from] == c {
        from
    } else {
        first_index(s, c, from + 1)
    }
}

/// The name and the kind that a placeholder declares, given the text after
/// its colon: `name<kind>` declares both, with any `>` at the end taken off
/// the kind; a text without `<` is a name of kind `string`.
pub open spec fn placeholder(inner: Seq<char>) -> (Seq<char>, Seq<char>) {
    let at = first_index(inner, '<', 0);
    if at < inner.len() {
        (inner.subrange(0, at), trim_end(inner.subrange(at + 1, inner.len() as int), '>'))
    } else {
        (inner, "string"@)
    }
}

/// Whether a parameter of the given kind takes the value: `number` takes an
/// integer, `string` takes anything, and no other kind takes a value.
pub open spec fn accepts(kind: Seq<char>, value: Seq<char>) -> bool {
    if kind == "number"@ {
        is_integer_text(value)
    } else {
        kind == "string"@
    }
}

/// The parameters bound by the first `n` segments of a pattern against the
/// segments of a path, or `None` where one of them does not match. A name
/// bound twice keeps its first place and last value.
pub open spec fn match_segments(pattern: Seq<Seq<char>>, path: Seq<Seq<char>>, n: nat) -> Option<
    Seq<(Seq<char>, Seq<char>)>,
>
    decreases n,
{
    if n == 0 || n > pattern.len() || n > path.len() {
        Some(Seq::empty())
    } else {
        match match_segments(pattern, path, (n - 1) as nat) {
            None => None,
            Some(params) => {
                let pat = pattern[n - 1];
                let value = path[n - 1];
                if pat.len() > 0 && pat[0] == ':' {
                    let (name, kind) = placeholder(pat.drop_first());
                    if accepts(kind, value) {
                        Some(with_member(params, name, value))
                    } else {
                        None
                    }
                } else if pat == value {
                    Some(params)
                } else {
                    None
                }
            },
        }
    }
}

/// The segments of a path or of a pattern: the text without the slashes at
/// its ends, split at the slashes.
pub open spec fn segments_of(path: Seq<char>) -> Seq<Seq<char>> {
    split(trimmed(path, '/'), '/')
}

/// The parameters that a route binds for a request, or `None` where the
/// route does not match it: the method is the route's, the path has as many
/// segments as the pattern, and every segment matches.
pub open spec fn route_params(route: RouteView, method: Seq<char>, path: Seq<Seq<char>>) -> Option<
    Seq<(Seq<char>, Seq<char>)>,
> {
    let pattern = segments_of(route.pattern);
    if route.method != method || pattern.len() != path.len() {
        None
    } else {
        match_segments(pattern, path, pattern.len())
    }
}

/// The position of the first route at or after `from` that matches the
/// request; the number of routes where none does.
pub open spec fn first_match(
    routes: Seq<RouteView>,
    method: Seq<char>,
    path: Seq<Seq<char>>,
    from: int,
) -> int
    decreases routes.len() - from,
{
    if from < 0 || from >= routes.len() {
        routes.len() as int
    } else if route_params(routes[from], method, path) is Some {
        from
    } else {
        first_match(routes, method, path, from + 1)
    }
}

/// The action and the parameters of the first route that matches the
/// request, if any does.
pub open spec fn spec_match_dynamic_route(
    method: Seq<char>,
    path: Seq<char>,
    routes: Seq<RouteView>,
) -> Option<(Seq<char>, Seq<(Seq<char>, Seq<char>)>)> {
    let segments = segments_of(path);
    let at = first_match(routes, method, segments, 0);
    if at < routes.len() {
        Some((routes[at].action, route_params(routes[at], method, segments)->0))
    } else {
        None
    }
}

/// `first_match` finds a matching route, and none matches before it.
pub proof fn lemma_first_match(
    routes: Seq<RouteView>,
    method: Seq<char>,
    path: Seq<Seq<char>>,
    from: int,
)
    requires
        0 <= from <= routes.len(),
    ensures
        from <= first_match(routes, method, path, from) <= routes.len(),
        first_match(routes, method, path, from) < routes.len() ==> route_params(
            routes[first_match(routes, method, path, from)],
            method,
            path,
        ) is Some,
        forall|j: int|
            from <= j < first_match(routes, method, path, from) ==> route_params(
                #[trigger] routes[j],
                method,
                path,
            ) is None,
    decreases routes.len() - from,
{
    if from < routes.len() && route_params(routes[from], method, path) is None {
        lemma_first_match(routes, method, path, from + 1);
    }
}

/// Whether two texts, each given by its characters, are the same.
pub fn same_chars(a: &Vec<char>, b: &Vec<char>) -> (r: bool)
    ensures
        r == (a@ == b@),
{
    if a.len() != b.len() {
        return false;
    }
    let mut i: usize = 0;
    while i < a.len()
        invariant
            i <= a.len(),
            a.len() == b.len(),
            forall|j: int| 0 <= j < i ==> a@[j] == b@[j],
        decreases a.len() - i,
    {
        if a[i] != b[i] {
            return false;
        }
        i = i + 1;
    }
    assert(a@ =~= b@);
    true
}

fn position_of(params: &Vec<(String, String)>, name: &str) -> (at: usize)
    ensures
        at == find_key(params_view(params@), name@, 0),
        at <= params.len(),
{
    let mut i: usize = 0;
    while i < params.len()
        invariant
            i <= params.len(),
            find_key(params_view(params@), name@, 0) == find_key(
                params_view(params@),
                name@,
                i as int,
            ),
        decreases params.len() - i,
    {
        if same_text(params[i].0.as_str(), name) {
            return i;
        }
        i = i + 1;
    }
    i
}

/// Binds `name` to `value`: a name bound before keeps its place and takes
/// the new value; a new name goes to the end.
pub fn insert_param(params: &mut Vec<(String, String)>, name: String, value: String)
    ensures
        params_view(final(params)@) == with_member(params_view(old(params)@), name@, value@),
{
    let at = position_of(params, name.as_str());
    if at < params.len() {
        params[at] = (name, value);
    } else {
        params.push((name, value));
    }
    assert(params_view(params@) =~= with_member(params_view(old(params)@), name@, value@));
}

/// The value bound to `name`, if there is one.
pub fn get_param<'a>(params: &'a Vec<(String, String)>, name: &str) -> (r: Option<&'a String>)
    ensures
        match r {
            Some(v) => member(params_view(params@), name@) == Some(v@),
            None => member(params_view(params@), name@) is None,
        },
{
    let at = position_of(params, name);
    if at < params.len() {
        Some(&params[at].1)
    } else {
        None
    }
}

/// The name and the kind that the placeholder `pat` declares, `pat` being a
/// pattern segment that starts with a colon.
fn read_placeholder(pat: &Vec<char>) -> (r: (String, String))
    requires
        pat.len() > 0,
    ensures
        (r.0@, r.1@) == placeholder(pat@.drop_first()),
{
    let ghost inner = pat@.drop_first();
    let mut i: usize = 1;
    while i < pat.len() && pat[i] != '<'
        invariant
            1 <= i <= pat.len(),
            inner == pat@.drop_first(),
            first_index(inner, '<', 0) == first_index(inner, '<', i - 1),
        decreases pat.len() - i,
    {
        i = i + 1;
    }
    if i < pat.len() {
        let name = text_of_range(pat, 1, i);
        let end = trim_end_bound(pat, i + 1, pat.len(), '>');
        let kind = text_of_range(pat, i + 1, end);
        proof {
            assert(first_index(inner, '<', 0) == i - 1);
            assert(inner.subrange(0, i - 1) =~= pat@.subrange(1, i as int));
            assert(inner.subrange(i as int, inner.len() as int) =~= pat@.subrange(
                i + 1,
                pat@.len() as int,
            ));
        }
        (name, kind)
    } else {
        let name = text_of_range(pat, 1, pat.len());
        proof {
            assert(first_index(inner, '<', 0) == inner.len());
            assert(inner =~= pat@.subrange(1, pat@.len() as int));
        }
        (name, String::from_str("string"))
    }
}

/// Whether a parameter of kind `kind` takes `value`: see [`accepts`].
fn takes(kind: &str, value: &Vec<char>) -> (r: bool)
    ensures
        r == accepts(kind@, value@),
{
    if same_text(kind, "number") {
        parses_as_integer(value)
    } else {
        same_text(kind, "string")
    }
}

/// The segments of `path`: see [`segments_of`].
pub fn path_segments(path: &str) -> (r: Vec<Vec<char>>)
    ensures
        pieces_view(r@) == segments_of(path@),
{
    let chars = chars_of(path);
    let (start, end) = trim_bounds(&chars, '/');
    split_range(&chars, start, end, '/')
}

/// The parameters that `route` binds for the request: see
/// [`route_params`].
pub fn match_route(route: &DynamicRoute, method: &str, path: &Vec<Vec<char>>) -> (r: Option<
    Vec<(String, String)>,
>)
    ensures
        match r {
            Some(params) => route_params(route@, method@, pieces_view(path@)) == Some(
                params_view(params@),
            ),
            None => route_params(route@, method@, pieces_view(path@)) is None,
        },
{
    if !same_text(route.method.as_str(), method) {
        return None;
    }
    let pattern = path_segments(route.pattern.as_str());
    if pattern.len() != path.len() {
        return None;
    }
    let ghost pats = pieces_view(pattern@);
    let ghost vals = pieces_view(path@);
    let mut params: Vec<(String, String)> = Vec::new();
    let mut i: usize = 0;
    assert(params_view(params@) =~= Seq::empty());
    while i < pattern.len()
        invariant
            i <= pattern.len(),
            pattern.len() == path.len(),
            pats == pieces_view(pattern@),
            pats == segments_of(route@.pattern),
            route@.method == method@,
            vals == pieces_view(path@),
            match_segments(pats, vals, i as nat) == Some(params_view(params@)),
        decreases pattern.len() - i,
    {
        let pat = &pattern[i];
        let value = &path[i];
        assert(pats[i as int] == pat@);
        assert(vals[i as int] == value@);
        if pat.len() > 0 && pat[0] == ':' {
            let (name, kind) = read_placeholder(pat);
            if takes(kind.as_str(), value) {
                insert_param(&mut params, name, text_of(value));
            } else {
                proof {
                    lemma_segments_fail(pats, vals, i as nat + 1, pattern@.len());
                }
                return None;
            }
        } else if !same_chars(pat, value) {
            proof {
                lemma_segments_fail(pats, vals, i as nat + 1, pattern@.len());
            }
            return None;
        }
        i = i + 1;
    }
    Some(params)
}

proof fn lemma_segments_fail(pattern: Seq<Seq<char>>, path: Seq<Seq<char>>, n: nat, k: nat)
    requires
        1 <= n <= k <= pattern.len(),
        k <= path.len(),
        match_segments(pattern, path, n) is None,
    ensures
        match_segments(pattern, path, k) is None,
    decreases k,
{
    if n < k {
        lemma_segments_fail(pattern, path, n, (k - 1) as nat);
    }
}

/// The views of a slice of routes.
pub open spec fn slice_view(routes: &[DynamicRoute]) -> Seq<RouteView> {
    routes_view(routes@)
}

/// The action and the parameters of the first of `routes` that matches the
/// request: see [`spec_match_dynamic_route`].
pub fn match_dynamic_route(method: &str, path: &str, routes: &[DynamicRoute]) -> (r: Option<
    (String, Vec<(String, String)>),
>)
    ensures
        match r {
            Some((action, params)) => spec_match_dynamic_route(
                method@,
                path@,
                routes_view(routes@),
            ) == Some((action@, params_view(params@))),
            None => spec_match_dynamic_route(method@, path@, routes_view(routes@)) is None,
        },
{
    let segments = path_segments(path);
    let ghost views = routes_view(routes@);
    let ghost segs = pieces_view(segments@);
    let mut i: usize = 0;
    while i < routes.len()
        invariant
            i <= routes.len(),
            views == routes_view(routes@),
            segs == pieces_view(segments@),
            segs == segments_of(path@),
            first_match(views, method@, segs, 0) == first_match(views, method@, segs, i as int),
        decreases routes.len() - i,
    {
        assert(views[i as int] == routes@[i as int]@);
        match match_route(&routes[i], method, &segments) {
            Some(params) => {
                return Some((routes[i].action.clone(), params));
            },
            None => {},
        }
        i = i + 1;
    }
    None
}

/// What an exact route leads to: its kind and its value. The kind
/// `action` names an action, the kind `json` replies with the value, and
/// any other kind replies with the value as text.
#[derive(Debug)]
pub struct RouteVal {
    pub kind: String,
    pub value: JsonValue,
}

/// The mathematical value of a [`RouteVal`].
pub struct RouteValView {
    pub kind: Seq<char>,
    pub value: Json,
}

impl View for RouteVal {
    type V = RouteValView;

    open spec fn view(&self) -> RouteValView {
        RouteValView { kind: self.kind@, value: self.value@ }
    }
}

/// The keys and values of a list of exact routes.
pub open spec fn exact_view(routes: Seq<(String, RouteVal)>) -> Seq<(Seq<char>, RouteValView)> {
    Seq::new(routes.len(), |i: int| (routes[i].0@, routes[i].1@))
}

/// The exact routes and the dynamic routes of an application.
pub struct RouteTable {
    routes: Vec<(String, RouteVal)>,
    dynamic_routes: Vec<DynamicRoute>,
}

/// The mathematical value of a [`RouteTable`].
pub struct TableView {
    pub exact: Seq<(Seq<char>, RouteValView)>,
    pub dynamic: Seq<RouteView>,
}

impl View for RouteTable {
    type V = TableView;

    closed spec fn view(&self) -> TableView {
        TableView {
            exact: exact_view(self.routes@),
            dynamic: routes_view(self.dynamic_routes@),
        }
    }
}

/// Where a request leads.
#[derive(Debug)]
pub enum Resolution {
    /// To an action, with the parameters that the path binds; `dynamic`
    /// tells whether a dynamic route led there.
    Action { name: String, params: Vec<(String, String)>, dynamic: bool },
    /// To a fixed JSON reply.
    Json(JsonValue),
    /// To a fixed text reply.
    Text(String),
    /// Nowhere.
    NotFound,
}

/// The mathematical value of a [`Resolution`].
pub enum ResolutionView {
    Action { name: Seq<char>, params: Seq<(Seq<char>, Seq<char>)>, dynamic: bool },
    Json(Json),
    Text(Seq<char>),
    NotFound,
}

impl View for Resolution {
    type V = ResolutionView;

    open spec fn view(&self) -> ResolutionView {
        match self {
            Resolution::Action { name, params, dynamic } => ResolutionView::Action {
                name: name@,
                params: params_view(params@),
                dynamic: *dynamic,
            },
            Resolution::Json(value) => ResolutionView::Json(value@),
            Resolution::Text(text) => ResolutionView::Text(text@),
            Resolution::NotFound => ResolutionView::NotFound,
        }
    }
}

/// The key of an exact route: the method, a colon, and the path.
pub open spec fn route_key(method: Seq<char>, path: Seq<char>) -> Seq<char> {
    method + ":"@ + path
}

/// Where an exact route leads: to the action that its value names
/// (`unknown` where the value is no string) for the kind `action`, to its
/// value for the kind `json`, to its value as text for any other kind with
/// a string as value; and nowhere by itself otherwise.
pub open spec fn exact_target(route: RouteValView) -> Option<ResolutionView> {
    if route.kind == "action"@ {
        Some(
            ResolutionView::Action {
                name: match route.value {
                    Json::Text(name) => name,
                    _ => "unknown"@,
                },
                params: Seq::empty(),
                dynamic: false,
            },
        )
    } else if route.kind == "json"@ {
        Some(ResolutionView::Json(route.value))
    } else {
        match route.value {
            Json::Text(text) => Some(ResolutionView::Text(text)),
            _ => None,
        }
    }
}

/// Where the exact routes lead a request, if they lead it anywhere.
pub open spec fn exact_resolution(table: TableView, method: Seq<char>, path: Seq<char>) -> Option<
    ResolutionView,
> {
    match member(table.exact, route_key(method, path)) {
        Some(route) => exact_target(route),
        None => None,
    }
}

/// Where a request leads: where the exact route of its method and path
/// leads, if there is one that leads somewhere; else to the action of the
/// first dynamic route that matches; else nowhere.
pub open spec fn spec_resolve(table: TableView, method: Seq<char>, path: Seq<char>) -> ResolutionView {
    match exact_resolution(table, method, path) {
        Some(resolution) => resolution,
        None => match spec_match_dynamic_route(method, path, table.dynamic) {
            Some((action, params)) => ResolutionView::Action { name: action, params, dynamic: true },
            None => ResolutionView::NotFound,
        },
    }
}

impl RouteTable {
    /// A table without routes.
    pub fn new() -> (r: RouteTable)
        ensures
            r@.exact == Seq::<(Seq<char>, RouteValView)>::empty(),
            r@.dynamic == Seq::<RouteView>::empty(),
    {
        let r = RouteTable { routes: Vec::new(), dynamic_routes: Vec::new() };
        assert(r@.exact =~= Seq::empty());
        assert(r@.dynamic =~= Seq::empty());
        r
    }

    fn position_of(&self, key: &str) -> (at: usize)
        ensures
            at == find_key(self@.exact, key@, 0),
            at <= self.routes.len(),
            self@.exact.len() == self.routes.len(),
    {
        let mut i: usize = 0;
        while i < self.routes.len()
            invariant
                i <= self.routes.len(),
                find_key(self@.exact, key@, 0) == find_key(self@.exact, key@, i as int),
            decreases self.routes.len() - i,
        {
            if same_text(self.routes[i].0.as_str(), key) {
                return i;
            }
            i = i + 1;
        }
        i
    }

    /// Adds an exact route under its key, in place of any route of that
    /// key.
    pub fn add_exact(&mut self, key: String, route: RouteVal)
        ensures
            final(self)@.exact == with_member(old(self)@.exact, key@, route@),
            final(self)@.dynamic == old(self)@.dynamic,
    {
        let at = self.position_of(key.as_str());
        if at < self.routes.len() {
            self.routes[at] = (key, route);
        } else {
            self.routes.push((key, route));
        }
        assert(self@.exact =~= with_member(old(self)@.exact, key@, route@));
    }

    /// Adds a dynamic route after those that the table holds.
    pub fn add_dynamic(&mut self, route: DynamicRoute)
        ensures
            final(self)@.exact == old(self)@.exact,
            final(self)@.dynamic == old(self)@.dynamic.push(route@),
    {
        self.dynamic_routes.push(route);
        assert(self@.dynamic =~= old(self)@.dynamic.push(route@));
    }

    /// Where a request leads: see [`spec_resolve`].
    pub fn resolve(&self, method: &str, path: &str) -> (r: Resolution)
        ensures
            r@ == spec_resolve(self@, method@, path@),
    {
        let with_colon = joined(method, ":");
        let key = joined(with_colon.as_str(), path);
        assert(key@ =~= route_key(method@, path@));
        let at = self.position_of(key.as_str());
        if at < self.routes.len() {
            let route = &self.routes[at].1;
            assert(self@.exact[at as int].1 == route@);
            if same_text(route.kind.as_str(), "action") {
                let name = match &route.value {
                    JsonValue::String(name) => name.clone(),
                    _ => String::from_str("unknown"),
                };
                let params: Vec<(String, String)> = Vec::new();
                assert(params_view(params@) =~= Seq::empty());
                return Resolution::Action { name, params, dynamic: false };
            } else if same_text(route.kind.as_str(), "json") {
                return Resolution::Json(route.value.duplicate());
            } else {
                match &route.value {
                    JsonValue::String(text) => {
                        return Resolution::Text(text.clone());
                    },
                    _ => {},
                }
            }
        }
        match match_dynamic_route(method, path, self.dynamic_routes.as_slice()) {
            Some((name, params)) => Resolution::Action { name, params, dynamic: true },
            None => Resolution::NotFound,
        }
    }
}

/// An exact route overrides the dynamic routes: where the exact route of a
/// request leads somewhere, the request leads there whatever the dynamic
/// routes are.
pub proof fn lemma_exact_overrides_dynamic(
    table: TableView,
    other: TableView,
    method: Seq<char>,
    path: Seq<char>,
)
    requires
        other.exact == table.exact,
        exact_resolution(table, method, path) is Some,
    ensures
        spec_resolve(other, method, path) == spec_resolve(table, method, path),
        spec_resolve(table, method, path) == exact_resolution(table, method, path)->0,
{
}

/// The first dynamic route that matches wins: where no exact route leads
/// the request anywhere, the `i`-th dynamic route matches it and no
/// earlier one does, the request leads to the action of the `i`-th route
/// with the parameters that this route binds.
pub proof fn lemma_first_dynamic_match_wins(
    table: TableView,
    method: Seq<char>,
    path: Seq<char>,
    i: int,
)
    requires
        exact_resolution(table, method, path) is None,
        0 <= i < table.dynamic.len(),
        route_params(table.dynamic[i], method, segments_of(path)) is Some,
        forall|j: int|
            0 <= j < i ==> route_params(#[trigger] table.dynamic[j], method, segments_of(path))
                is None,
    ensures
        spec_resolve(table, method, path) == (ResolutionView::Action {
            name: table.dynamic[i].action,
            params: route_params(table.dynamic[i], method, segments_of(path))->0,
            dynamic: true,
        }),
{
    lemma_first_match(table.dynamic, method, segments_of(path), 0);
    let at = first_match(table.dynamic, method, segments_of(path), 0);
    if at < i {
        assert(route_params(table.dynamic[at], method, segments_of(path)) is None);
    }
    if at > i {
        assert(route_params(table.dynamic[i], method, segments_of(path)) is None);
    }
}

/// A request that no route matches leads nowhere.
pub proof fn lemma_unmatched_request_is_not_found(
    table: TableView,
    method: Seq<char>,
    path: Seq<char>,
)
    requires
        exact_resolution(table, method, path) is None,
        forall|j: int|
            0 <= j < table.dynamic.len() ==> route_params(
                #[trigger] table.dynamic[j],
                method,
                segments_of(path),
            ) is None,
    ensures
        spec_resolve(table, method, path) == ResolutionView::NotFound,
{
    lemma_first_match(table.dynamic, method, segments_of(path), 0);
    let at = first_match(table.dynamic, method, segments_of(path), 0);
    if at < table.dynamic.len() {
        assert(route_params(table.dynamic[at], method, segments_of(path)) is None);
    }
}

} // verus!
