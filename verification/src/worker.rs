//! What a worker decides around the JavaScript engine: whether an exception
//! is the suspension of a drift or the failure of the action, how a failure
//! is reported, whether a file may be read, and how the workers of the pool
//! are named and counted.

use vstd::prelude::*;
use vstd::string::StringExecFns;
use crate::json::{lemma_object_view, members_view, Json, JsonValue};
use crate::route::{
    all_digits, digits_value, is_digit, lemma_digits_grow, pieces_view, same_chars, split, trimmed,
};
use crate::text::{chars_of, decimal, decimal_text, joined, same_text, text_of_range};

verus! {

/// The capacity of the command queue of a worker.
pub const QUEUE_CAPACITY: usize = 100;

/// The number of characters of an exception's message that a failure
/// reports.
pub const MESSAGE_LIMIT: usize = 1024;

/// What an exception of the engine means.
#[derive(Debug)]
pub enum Thrown {
    /// The action met a drift for the first time: it waits for the result.
    Suspended,
    /// The action failed: here is the start of the exception's message.
    Failed(String),
}

/// The mathematical value of [`Thrown`].
pub enum ThrownView {
    Suspended,
    Failed(Seq<char>),
}

impl View for Thrown {
    type V = ThrownView;

    open spec fn view(&self) -> ThrownView {
        match self {
            Thrown::Suspended => ThrownView::Suspended,
            Thrown::Failed(message) => ThrownView::Failed(message@),
        }
    }
}

/// The first `limit` characters of a text.
pub open spec fn truncated(text: Seq<char>, limit: nat) -> Seq<char> {
    if text.len() <= limit {
        text
    } else {
        text.subrange(0, limit as int)
    }
}

/// The value that reports an error to the transport: an object with the
/// one member `error`.
pub open spec fn error_value(message: Seq<char>) -> Json {
    Json::Object(seq![("error"@, Json::Text(message))])
}

/// Whether a message is that of the sentinel which a drift throws to
/// suspend its request: the sentinel itself, or what the engine reports
/// for an uncaught error with the sentinel as its message. No other
/// message is taken for it, whatever it holds.
pub open spec fn is_suspension(message: Seq<char>) -> bool {
    message == "__TITAN_SUSPEND__"@ || message == "Uncaught Error: __TITAN_SUSPEND__"@
}

/// What an exception with the given message means: the suspension of a
/// drift when the message is that of the sentinel, and otherwise a
/// failure, reported with the start of the message.
pub open spec fn spec_classify_exception(message: Seq<char>) -> ThrownView {
    if is_suspension(message) {
        ThrownView::Suspended
    } else {
        ThrownView::Failed(truncated(message, MESSAGE_LIMIT as nat))
    }
}

/// The value that reports an error: see [`error_value`].
pub fn error_result(message: String) -> (r: JsonValue)
    ensures
        r@ == error_value(message@),
{
    let mut members: Vec<(String, JsonValue)> = Vec::new();
    members.push((String::from_str("error"), JsonValue::String(message)));
    proof {
        lemma_object_view(members);
        assert(members_view(members@) =~= seq![("error"@, Json::Text(message@))]);
    }
    JsonValue::Object(members)
}

/// What an exception with the given message means: see
/// [`spec_classify_exception`].
pub fn classify_exception(message: &str) -> (r: Thrown)
    ensures
        r@ == spec_classify_exception(message@),
{
    if same_text(message, "__TITAN_SUSPEND__") || same_text(
        message,
        "Uncaught Error: __TITAN_SUSPEND__",
    ) {
        Thrown::Suspended
    } else {
        let chars = chars_of(message);
        let kept = if chars.len() <= MESSAGE_LIMIT {
            String::from_str(message)
        } else {
            text_of_range(&chars, 0, MESSAGE_LIMIT)
        };
        Thrown::Failed(kept)
    }
}

/// Why a request got no value from its action.
#[derive(Debug)]
pub enum RequestError {
    /// No action of that name is loaded.
    ActionNotFound { action: String },
    /// The bundle of the action could not be read.
    BundleRead { action: String },
    /// The action threw an exception that is no suspension.
    ActionThrew { message: String },
    /// The queue of the worker is no longer read.
    WorkerDisconnected,
    /// The worker dropped the request before it answered.
    ChannelClosed,
}

impl RequestError {
    /// The status with which the error is answered: 404 for an action that
    /// does not exist, 500 for every other error.
    pub open spec fn spec_status(&self) -> u16 {
        match self {
            RequestError::ActionNotFound { .. } => 404,
            _ => 500,
        }
    }

    /// The value with which the error is answered: an object with the
    /// member `error`, and with the member `action` where a bundle could
    /// not be read.
    pub open spec fn spec_value(&self) -> Json {
        match self {
            RequestError::ActionNotFound { action } => error_value(
                "Action '"@ + action@ + "' not found"@,
            ),
            RequestError::BundleRead { action } => Json::Object(
                seq![
                    ("error"@, Json::Text("Action bundle not found"@)),
                    ("action"@, Json::Text(action@)),
                ],
            ),
            RequestError::ActionThrew { message } => error_value(message@),
            RequestError::WorkerDisconnected => error_value("Worker disconnected"@),
            RequestError::ChannelClosed => error_value("Worker channel closed"@),
        }
    }

    /// The status with which the error is answered: see
    /// [`RequestError::spec_status`].
    pub fn status(&self) -> (r: u16)
        ensures
            r == self.spec_status(),
            r == 404 || r == 500,
    {
        match self {
            RequestError::ActionNotFound { .. } => 404,
            _ => 500,
        }
    }

    /// The value with which the error is answered: see
    /// [`RequestError::spec_value`].
    pub fn to_json(&self) -> (r: JsonValue)
        ensures
            r@ == self.spec_value(),
    {
        match self {
            RequestError::ActionNotFound { action } => {
                let head = joined("Action '", action.as_str());
                let message = joined(head.as_str(), "' not found");
                assert(message@ =~= "Action '"@ + action@ + "' not found"@);
                error_result(message)
            },
            RequestError::BundleRead { action } => {
                let mut members: Vec<(String, JsonValue)> = Vec::new();
                members.push(
                    (
                        String::from_str("error"),
                        JsonValue::String(String::from_str("Action bundle not found")),
                    ),
                );
                members.push((String::from_str("action"), JsonValue::String(action.clone())));
                proof {
                    lemma_object_view(members);
                    assert(members_view(members@) =~= seq![
                        ("error"@, Json::Text("Action bundle not found"@)),
                        ("action"@, Json::Text(action@)),
                    ]);
                }
                JsonValue::Object(members)
            },
            RequestError::ActionThrew { message } => error_result(message.clone()),
            RequestError::WorkerDisconnected => error_result(
                String::from_str("Worker disconnected"),
            ),
            RequestError::ChannelClosed => error_result(String::from_str("Worker channel closed")),
        }
    }
}

/// The components of a path: its pieces between slashes, the slashes at
/// its ends left out; the path of the root directory has none.
pub open spec fn components(path: Seq<char>) -> Seq<Seq<char>> {
    if trimmed(path, '/').len() == 0 {
        Seq::empty()
    } else {
        split(trimmed(path, '/'), '/')
    }
}

/// Whether the path `target` lies in the directory `root` or is `root`
/// itself: the components of `root` are the first components of `target`.
pub open spec fn is_within(root: Seq<char>, target: Seq<char>) -> bool {
    components(root).len() <= components(target).len() && components(target).subrange(
        0,
        components(root).len() as int,
    ) == components(root)
}

/// Why a file may not be read.
#[derive(Clone, Copy, Debug, PartialEq, Eq, Structural)]
pub enum ReadError {
    /// The path that the action gave is absolute.
    AbsolutePath,
    /// No file lies at the path.
    NotFound,
    /// The file lies outside the project root.
    EscapesRoot,
}

/// Whether the file may be read, `path` being the path that the action
/// gave, `root` the canonical path of the project root and `target` the
/// canonical path of the file, if it exists: the path is relative, the
/// file exists and lies within the root.
pub open spec fn spec_check_read(path: Seq<char>, root: Seq<char>, target: Option<Seq<char>>) -> Result<
    (),
    ReadError,
> {
    if path.len() > 0 && path[0] == '/' {
        Err(ReadError::AbsolutePath)
    } else {
        match target {
            None => Err(ReadError::NotFound),
            Some(file) => if is_within(root, file) {
                Ok(())
            } else {
                Err(ReadError::EscapesRoot)
            },
        }
    }
}

fn path_components(path: &str) -> (r: Vec<Vec<char>>)
    ensures
        pieces_view(r@) == components(path@),
{
    let pieces = crate::route::path_segments(path);
    if pieces.len() == 1 && pieces[0].len() == 0 {
        proof {
            assert(pieces_view(pieces@)[0] == pieces@[0]@);
            lemma_split_of_empty(trimmed(path@, '/'), '/');
        }
        let none: Vec<Vec<char>> = Vec::new();
        assert(pieces_view(none@) =~= Seq::empty());
        none
    } else {
        proof {
            if trimmed(path@, '/').len() == 0 {
                assert(split(trimmed(path@, '/'), '/') =~= seq![Seq::<char>::empty()]);
                assert(pieces_view(pieces@)[0] == pieces@[0]@);
            }
        }
        pieces
    }
}

/// A text that splits into one empty piece is empty.
proof fn lemma_split_of_empty(s: Seq<char>, sep: char)
    requires
        split(s, sep).len() == 1,
        split(s, sep)[0].len() == 0,
    ensures
        s.len() == 0,
    decreases s.len(),
{
    if s.len() > 0 {
        crate::route::lemma_split_nonempty(s.drop_last(), sep);
    }
}

/// Whether `target` lies within `root`: see [`is_within`].
pub fn lies_within(root: &str, target: &str) -> (r: bool)
    ensures
        r == is_within(root@, target@),
{
    let base = path_components(root);
    let file = path_components(target);
    if base.len() > file.len() {
        return false;
    }
    let ghost b = pieces_view(base@);
    let ghost f = pieces_view(file@);
    let mut i: usize = 0;
    while i < base.len()
        invariant
            i <= base.len() <= file.len(),
            b == pieces_view(base@),
            f == pieces_view(file@),
            b == components(root@),
            f == components(target@),
            forall|j: int| 0 <= j < i ==> b[j] == f[j],
        decreases base.len() - i,
    {
        assert(b[i as int] == base@[i as int]@);
        assert(f[i as int] == file@[i as int]@);
        if !same_chars(&base[i], &file[i]) {
            assert(f.subrange(0, b.len() as int)[i as int] != b[i as int]);
            return false;
        }
        i = i + 1;
    }
    assert(f.subrange(0, b.len() as int) =~= b);
    true
}

/// Whether the file may be read: see [`spec_check_read`]. A file is read
/// only if it lies within the project root.
pub fn check_read(path: &str, root: &str, target: Option<&str>) -> (r: Result<(), ReadError>)
    ensures
        r == spec_check_read(
            path@,
            root@,
            match target {
                Some(file) => Some(file@),
                None => None,
            },
        ),
        r is Ok ==> target is Some && is_within(root@, target->0@),
{
    let chars = chars_of(path);
    if chars.len() > 0 && chars[0] == '/' {
        return Err(ReadError::AbsolutePath);
    }
    match target {
        None => Err(ReadError::NotFound),
        Some(file) => {
            if lies_within(root, file) {
                Ok(())
            } else {
                Err(ReadError::EscapesRoot)
            }
        },
    }
}

impl ReadError {
    /// The message of the exception that tells the action why the file at
    /// `path` was not read.
    pub open spec fn spec_message(self, path: Seq<char>) -> Seq<char> {
        match self {
            ReadError::AbsolutePath => "t.read expects a relative path like 'db/file.sql'"@,
            ReadError::NotFound => "t.read: file not found: "@ + path,
            ReadError::EscapesRoot => "t.read: path escapes allowed root"@,
        }
    }

    /// The message of the exception: see [`ReadError::spec_message`].
    pub fn message(self, path: &str) -> (r: String)
        ensures
            r@ == self.spec_message(path@),
    {
        match self {
            ReadError::AbsolutePath => String::from_str(
                "t.read expects a relative path like 'db/file.sql'",
            ),
            ReadError::NotFound => joined("t.read: file not found: ", path),
            ReadError::EscapesRoot => String::from_str("t.read: path escapes allowed root"),
        }
    }
}

/// The name of the thread of the worker of the given index.
pub fn worker_name(index: usize) -> (r: String)
    ensures
        r@ == "titan-worker-"@ + decimal(index as nat),
{
    let number = decimal_text(index as u64);
    joined("titan-worker-", number.as_str())
}

/// The number of workers of the pool: the number that the configuration
/// asks for where it asks for one above zero, and four for each processor
/// otherwise, as far as the machine can count.
pub open spec fn spec_worker_count(configured: Option<u64>, processors: nat) -> nat {
    match configured {
        Some(n) => if 0 < n && n <= usize::MAX {
            n as nat
        } else if n > 0 {
            usize::MAX as nat
        } else if processors * 4 <= usize::MAX {
            processors * 4
        } else {
            usize::MAX as nat
        },
        None => if processors * 4 <= usize::MAX {
            processors * 4
        } else {
            usize::MAX as nat
        },
    }
}

/// The number of workers of the pool: see [`spec_worker_count`].
pub fn worker_count(configured: Option<u64>, processors: usize) -> (r: usize)
    ensures
        r == spec_worker_count(configured, processors as nat),
{
    let fallback = if processors <= usize::MAX / 4 {
        processors * 4
    } else {
        usize::MAX
    };
    match configured {
        Some(n) => {
            if n > 0 {
                if n <= usize::MAX as u64 {
                    n as usize
                } else {
                    usize::MAX
                }
            } else {
                fallback
            }
        },
        None => fallback,
    }
}

/// Where in the source an exception was thrown.
#[derive(Clone, Debug)]
pub struct ErrorLocation {
    /// The name of the script, where the engine knows it.
    pub resource_name: Option<String>,
    /// The line of the source.
    pub line_number: usize,
    /// The column at which the faulty code starts.
    pub start_column: usize,
    /// The exception, as text.
    pub exception: String,
    /// The line of the source itself; empty where the engine has none.
    pub source_line: String,
}

/// `n` spaces.
pub open spec fn spaces(n: nat) -> Seq<char> {
    Seq::new(n, |i: int| ' ')
}

/// The report of an exception for the log: the script, line and column
/// with the exception; then, where the engine has the source line, that
/// line and under it a caret at the column.
pub open spec fn spec_format_error(action: Seq<char>, location: Option<ErrorLocation>) -> Seq<char> {
    match location {
        None => "Unknown error in action '"@ + action + "'"@,
        Some(at) => {
            let resource = match at.resource_name {
                Some(name) => name@,
                None => "app/actions/"@ + action + ".ts"@,
            };
            let line = decimal(at.line_number as nat);
            let head = "[JS] "@ + resource + ":"@ + line + ":"@ + decimal(at.start_column as nat)
                + " - "@ + at.exception@ + "\n"@;
            if at.source_line@.len() == 0 {
                head
            } else {
                head + "[JS] "@ + line + "    "@ + at.source_line@ + "\n"@ + "[JS] "@ + spaces(
                    line.len() + 4,
                ) + spaces(at.start_column as nat) + "^"@
            }
        },
    }
}

fn push_spaces(out: &mut String, n: usize)
    ensures
        final(out)@ == old(out)@ + spaces(n as nat),
{
    let mut i: usize = 0;
    assert(out@ =~= old(out)@ + spaces(0));
    while i < n
        invariant
            i <= n,
            out@ == old(out)@ + spaces(i as nat),
        decreases n - i,
    {
        out.push(' ');
        i = i + 1;
        assert(out@ =~= old(out)@ + spaces(i as nat));
    }
}

/// The report of an exception for the log: see [`spec_format_error`].
pub fn format_v8_error(action: &str, location: Option<&ErrorLocation>) -> (r: String)
    ensures
        r@ == spec_format_error(
            action@,
            match location {
                Some(at) => Some(*at),
                None => None,
            },
        ),
{
    let at = match location {
        Some(at) => at,
        None => {
            let head = joined("Unknown error in action '", action);
            return joined(head.as_str(), "'");
        },
    };
    let resource = match &at.resource_name {
        Some(name) => name.clone(),
        None => {
            let head = joined("app/actions/", action);
            joined(head.as_str(), ".ts")
        },
    };
    let line = decimal_text(at.line_number as u64);
    let line_chars = chars_of(line.as_str());
    let mut out = joined("[JS] ", resource.as_str());
    out.append(":");
    out.append(line.as_str());
    out.append(":");
    out.append(decimal_text(at.start_column as u64).as_str());
    out.append(" - ");
    out.append(at.exception.as_str());
    out.append("\n");
    let source = chars_of(at.source_line.as_str());
    if source.len() > 0 {
        out.append("[JS] ");
        out.append(line.as_str());
        out.append("    ");
        out.append(at.source_line.as_str());
        out.append("\n");
        out.append("[JS] ");
        push_spaces(&mut out, line_chars.len());
        push_spaces(&mut out, 4);
        push_spaces(&mut out, at.start_column);
        assert(spaces(line_chars@.len()) + spaces(4) =~= spaces(line_chars@.len() + 4));
        out.append("^");
    }
    assert(out@ =~= spec_format_error(action@, Some(*at)));
    out
}

/// The seconds in the unit that a letter names: `s`, `m`, `h` or `d`.
pub open spec fn unit_seconds(unit: char) -> Option<nat> {
    if unit == 's' {
        Some(1)
    } else if unit == 'm' {
        Some(60)
    } else if unit == 'h' {
        Some(3600)
    } else if unit == 'd' {
        Some(86400)
    } else {
        None
    }
}

/// The seconds that a numeral of at least one digit gives in a unit, where
/// they fit in 64 bits.
pub open spec fn numeral_seconds(digits: Seq<char>, unit: nat) -> Option<nat> {
    if digits.len() > 0 && all_digits(digits) && digits_value(digits) * unit <= u64::MAX {
        Some(digits_value(digits) * unit)
    } else {
        None
    }
}

/// The seconds that an expiry names: a decimal numeral, which counts
/// seconds by itself, minutes when `m` follows it, hours for `h` and days
/// for `d`; `s` may follow for seconds.
pub open spec fn spec_expires_in(text: Seq<char>) -> Option<nat> {
    if text.len() > 0 && unit_seconds(text.last()) is Some {
        numeral_seconds(text.drop_last(), unit_seconds(text.last())->0)
    } else {
        numeral_seconds(text, 1)
    }
}

fn seconds_of(chars: &Vec<char>, to: usize, unit: u64) -> (r: Option<u64>)
    requires
        to <= chars.len(),
        1 <= unit <= 86400,
    ensures
        match r {
            Some(v) => numeral_seconds(chars@.subrange(0, to as int), unit as nat) == Some(
                v as nat,
            ),
            None => numeral_seconds(chars@.subrange(0, to as int), unit as nat) is None,
        },
{
    let ghost s = chars@.subrange(0, to as int);
    if to == 0 {
        return None;
    }
    let limit: u64 = u64::MAX / unit;
    let mut value: u64 = 0;
    let mut i: usize = 0;
    assert(s.subrange(0, 0) =~= Seq::empty());
    while i < to
        invariant
            i <= to <= chars.len(),
            s == chars@.subrange(0, to as int),
            1 <= unit <= 86400,
            limit == u64::MAX / unit,
            all_digits(s.subrange(0, i as int)),
            value == digits_value(s.subrange(0, i as int)),
            value <= limit,
        decreases to - i,
    {
        let c = chars[i];
        let ghost prefix = s.subrange(0, i as int);
        let ghost next = s.subrange(0, i + 1);
        assert(next.drop_last() =~= prefix);
        assert(next.last() == c);
        if !('0' <= c && c <= '9') {
            assert(!is_digit(s[i as int]));
            return None;
        }
        let d: u64 = (c as u32 - '0' as u32) as u64;
        let wide: u128 = value as u128 * 10 + d as u128;
        if wide > limit as u128 {
            proof {
                lemma_digits_grow(s, i + 1);
                assert(digits_value(s) * unit > u64::MAX) by (nonlinear_arith)
                    requires
                        digits_value(s) > limit,
                        limit == u64::MAX / unit,
                        unit >= 1,
                ;
            }
            return None;
        }
        value = wide as u64;
        assert(all_digits(next)) by {
            assert forall|j: int| 0 <= j < next.len() implies is_digit(#[trigger] next[j]) by {
                if j < prefix.len() {
                    assert(next[j] == prefix[j]);
                }
            }
        }
        i = i + 1;
    }
    assert(s.subrange(0, s.len() as int) =~= s);
    assert(value * unit <= u64::MAX) by (nonlinear_arith)
        requires
            value <= limit,
            limit == u64::MAX / unit,
            unit >= 1,
    ;
    Some(value * unit)
}

/// The seconds that an expiry names: see [`spec_expires_in`].
pub fn parse_expires_in(text: &str) -> (r: Option<u64>)
    ensures
        match r {
            Some(seconds) => spec_expires_in(text@) == Some(seconds as nat),
            None => spec_expires_in(text@) is None,
        },
{
    let chars = chars_of(text);
    let n = chars.len();
    let unit: u64 = if n == 0 {
        0
    } else if chars[n - 1] == 's' {
        1
    } else if chars[n - 1] == 'm' {
        60
    } else if chars[n - 1] == 'h' {
        3600
    } else if chars[n - 1] == 'd' {
        86400
    } else {
        0
    };
    if unit > 0 {
        assert(chars@.drop_last() =~= chars@.subrange(0, n - 1));
        seconds_of(&chars, n - 1, unit)
    } else {
        assert(chars@ =~= chars@.subrange(0, n as int));
        seconds_of(&chars, n, 1)
    }
}

} // verus!
