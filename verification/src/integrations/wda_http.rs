//! The HTTP side of the automation server on the phone: how a request is written and how its
//! answer is read out of the bytes that have come so far.
use vstd::prelude::*;

use crate::integrations::AdapterError;
use crate::json;
use crate::json::{Json, JsonValue};
use crate::text;

verus! {

// ---------------------------------------------------------------------------
// Searching bytes
// ---------------------------------------------------------------------------

/// Whether `p` stands in `b` at position `i`.
pub open spec fn bytes_at(b: Seq<u8>, p: Seq<u8>, i: int) -> bool {
    0 <= i && i + p.len() <= b.len() && b.subrange(i, i + p.len()) == p
}

/// The first position at or after `from` at which `p` stands in `b`.
pub open spec fn bytes_from(b: Seq<u8>, p: Seq<u8>, from: int) -> Option<int>
    decreases b.len() - from,
{
    if p.len() == 0 || from < 0 || from + p.len() > b.len() {
        None
    } else if bytes_at(b, p, from) {
        Some(from)
    } else {
        bytes_from(b, p, from + 1)
    }
}

fn found_bytes(b: &[u8], p: &[u8], i: usize) -> (r: bool)
    requires
        i + p@.len() <= b@.len(),
    ensures
        r == bytes_at(b@, p@, i as int),
{
    let n: usize = b.len();
    let mut j: usize = 0;
    while j < p.len()
        invariant
            n == b@.len(),
            i + p@.len() <= n,
            j <= p@.len(),
            forall|k: int| 0 <= k < j ==> b@[i + k] == #[trigger] p@[k],
        decreases p@.len() - j,
    {
        if b[i + j] != p[j] {
            proof {
                let w = b@.subrange(i as int, i + p@.len());
                assert(w[j as int] == b@[i + j]);
            }
            return false;
        }
        j = j + 1;
    }
    assert(b@.subrange(i as int, i + p@.len()) =~= p@);
    true
}

/// The first position at or after `start` at which `needle` stands; an empty one stands
/// nowhere.
pub fn find_bytes_from(haystack: &[u8], needle: &[u8], start: usize) -> (r: Option<usize>)
    ensures
        match r {
            Some(i) => bytes_from(haystack@, needle@, start as int) == Some(i as int) && start <= i
                && i + needle@.len() <= haystack@.len(),
            None => bytes_from(haystack@, needle@, start as int) is None,
        },
{
    let n: usize = haystack.len();
    let m: usize = needle.len();
    if m == 0 || start > n || m > n {
        return None;
    }
    let mut i: usize = start;
    while i <= n - m
        invariant
            n == haystack@.len(),
            m == needle@.len(),
            0 < m <= n,
            start <= i,
            i <= n,
            bytes_from(haystack@, needle@, i as int) == bytes_from(
                haystack@,
                needle@,
                start as int,
            ),
        decreases n - i,
    {
        if found_bytes(haystack, needle, i) {
            return Some(i);
        }
        i = i + 1;
    }
    None
}

/// The first position at which `needle` stands.
pub fn find_bytes(haystack: &[u8], needle: &[u8]) -> (r: Option<usize>)
    ensures
        match r {
            Some(i) => bytes_from(haystack@, needle@, 0) == Some(i as int) && i + needle@.len()
                <= haystack@.len(),
            None => bytes_from(haystack@, needle@, 0) is None,
        },
{
    find_bytes_from(haystack, needle, 0)
}

/// `bytes_from` finds the first occurrence.
pub proof fn found_position_is_first(b: Seq<u8>, p: Seq<u8>, from: int)
    requires
        0 <= from,
    ensures
        match bytes_from(b, p, from) {
            Some(i) => from <= i && bytes_at(b, p, i) && forall|j: int|
                from <= j < i ==> !#[trigger] bytes_at(b, p, j),
            None => p.len() == 0 || forall|j: int| from <= j ==> !#[trigger] bytes_at(b, p, j),
        },
    decreases b.len() - from,
{
    if p.len() > 0 && from + p.len() <= b.len() && !bytes_at(b, p, from) {
        found_position_is_first(b, p, from + 1);
    }
}

// ---------------------------------------------------------------------------
// Requests
// ---------------------------------------------------------------------------

/// Everything of a request before its body; `payload` is the length of the body, where there
/// is one.
pub open spec fn head_text(
    method: Seq<char>,
    path: Seq<char>,
    address: Seq<char>,
    payload: Option<nat>,
) -> Seq<char> {
    method + " "@ + path + " HTTP/1.1\r\nHost: "@ + address
        + "\r\nConnection: keep-alive\r\nAccept: application/json\r\n"@ + (match payload {
        Some(_) => "Content-Type: application/json; charset=utf-8\r\n"@,
        None => ""@,
    }) + "Content-Length: "@ + text::dec(
        match payload {
            Some(n) => n,
            None => 0,
        },
    ) + "\r\n\r\n"@
}

/// Everything of a request before its body.
pub fn request_head(method: &str, path: &str, address: &str, payload: Option<usize>) -> (r: String)
    ensures
        r@ == head_text(
            method@,
            path@,
            address@,
            match payload {
                Some(n) => Some(n as nat),
                None => None,
            },
        ),
{
    let mut s = text::cat5(method, " ", path, " HTTP/1.1\r\nHost: ", address);
    s.append("\r\nConnection: keep-alive\r\nAccept: application/json\r\n");
    let n: usize = match payload {
        Some(n) => {
            s.append("Content-Type: application/json; charset=utf-8\r\n");
            n
        },
        None => {
            s.append("");
            0
        },
    };
    s.append("Content-Length: ");
    s.append(text::decimal(n as u64).as_str());
    s.append("\r\n\r\n");
    s
}

// ---------------------------------------------------------------------------
// Answers
// ---------------------------------------------------------------------------

/// What the head of an answer says.
#[derive(Debug, Clone, Copy, PartialEq, Eq, Structural)]
pub struct ResponseHead {
    pub status: u16,
    pub content_length: Option<usize>,
    pub chunked: bool,
}

/// The length and the coding of the body, by the first `n` header lines: the last length
/// counts, even where it cannot be read.
pub open spec fn body_by(lines: Seq<Seq<char>>, n: nat) -> (Option<nat>, bool)
    decreases n,
{
    if n == 0 || n > lines.len() {
        (None, false)
    } else {
        let (length, chunked) = body_by(lines, (n - 1) as nat);
        match text::parted(lines[n - 1], ':') {
            None => (length, chunked),
            Some((name, value)) => if text::lowered(name) == text::lowered("content-length"@) {
                (text::parsed(text::trimmed(value), usize::MAX as nat), chunked)
            } else if text::lowered(name) == text::lowered("transfer-encoding"@) && text::occurs(
                text::lowered(value),
                "chunked"@,
            ) {
                (length, true)
            } else {
                (length, chunked)
            },
        }
    }
}

/// The status on the first line: its second word.
pub open spec fn status_on(line: Seq<char>) -> Option<nat> {
    let w = text::words_of(line);
    if w.len() < 2 {
        None
    } else {
        text::parsed(w[1], u16::MAX as nat)
    }
}

pub open spec fn opt_usize(n: Option<nat>) -> Option<usize> {
    match n {
        Some(n) => Some(n as usize),
        None => None,
    }
}

/// What the head of an answer says; `None` where its status cannot be read.
pub open spec fn head_of(head: Seq<char>) -> Option<ResponseHead> {
    let lines = text::pieces_from(head, "\r\n"@, 0);
    let rest = lines.skip(1);
    if lines.len() == 0 {
        None
    } else {
        match status_on(lines[0]) {
            None => None,
            Some(status) => Some(
                ResponseHead {
                    status: status as u16,
                    content_length: opt_usize(body_by(rest, rest.len()).0),
                    chunked: body_by(rest, rest.len()).1,
                },
            ),
        }
    }
}

/// Reads the head of an answer.
pub fn response_head(head: &str) -> (r: Option<ResponseHead>)
    ensures
        r == head_of(head@),
{
    proof {
        reveal_strlit("\r\n");
    }
    let lines = text::split_text(head, "\r\n");
    let ghost all = text::texts(lines@);
    assert(all[0] == lines@[0]@);
    let w = text::words(lines[0].as_str());
    assert(text::texts(w@).len() == w@.len());
    if w.len() < 2 {
        return None;
    }
    assert(text::texts(w@)[1] == w@[1]@);
    let status = match text::parse_number(w[1].as_str(), u16::MAX as u64) {
        None => {
            return None;
        },
        Some(n) => n as u16,
    };
    let mut content_length: Option<usize> = None;
    let mut chunked = false;
    let ghost rest = all.skip(1);
    let mut i: usize = 1;
    while i < lines.len()
        invariant
            1 <= i <= lines@.len(),
            all == text::texts(lines@),
            rest == all.skip(1),
            content_length == opt_usize(body_by(rest, (i - 1) as nat).0),
            chunked == body_by(rest, (i - 1) as nat).1,
        decreases lines@.len() - i,
    {
        assert(rest[i - 1] == lines@[i as int]@);
        match text::split_once(lines[i].as_str(), ':') {
            Some((name, value)) => {
                if text::same_ignoring_case(name.as_str(), "content-length") {
                    let t = text::trim(value.as_str());
                    content_length =
                    match text::parse_number(t.as_str(), usize::MAX as u64) {
                        Some(n) => Some(n as usize),
                        None => None,
                    };
                } else if text::same_ignoring_case(name.as_str(), "transfer-encoding")
                    && text::contains(text::ascii_lower(value.as_str()).as_str(), "chunked") {
                    chunked = true;
                }
            },
            None => {},
        }
        i = i + 1;
    }
    Some(ResponseHead { status, content_length, chunked })
}

/// The length of a chunk, by its first line; what follows a semicolon does not count.
pub open spec fn chunk_length(line: Seq<char>) -> Option<nat> {
    let number = match text::parted(line, ';') {
        Some((a, _)) => a,
        None => line,
    };
    text::parsed_hex(text::trimmed(number), usize::MAX as nat)
}

/// The length of a chunk, by its first line.
pub fn chunk_size(line: &str) -> (r: Option<usize>)
    ensures
        match r {
            Some(n) => chunk_length(line@) == Some(n as nat),
            None => chunk_length(line@) is None,
        },
{
    let number = match text::split_once(line, ';') {
        Some((a, _)) => a,
        None => text::own(line),
    };
    let t = text::trim(number.as_str());
    match text::parse_hex(t.as_str(), usize::MAX as u64) {
        Some(n) => Some(n as usize),
        None => None,
    }
}

/// How far the bytes that have come make an answer.
#[derive(Debug)]
pub enum ResponseStep<B = Vec<u8>> {
    /// More bytes are needed.
    NeedMore,
    /// The status cannot be read.
    BadStatus,
    /// The length of a chunk cannot be read.
    BadChunk,
    /// The body goes on until the connection is closed; it begins at `body_start`.
    ToClose { status: u16, body_start: usize },
    /// The whole answer, and how many bytes it took.
    Done { status: u16, body: B, used: usize },
}

impl View for ResponseStep<Vec<u8>> {
    type V = ResponseStep<Seq<u8>>;

    open spec fn view(&self) -> ResponseStep<Seq<u8>> {
        match self {
            ResponseStep::NeedMore => ResponseStep::NeedMore,
            ResponseStep::BadStatus => ResponseStep::BadStatus,
            ResponseStep::BadChunk => ResponseStep::BadChunk,
            ResponseStep::ToClose { status, body_start } => ResponseStep::ToClose {
                status: *status,
                body_start: *body_start,
            },
            ResponseStep::Done { status, body, used } => ResponseStep::Done {
                status: *status,
                body: body@,
                used: *used,
            },
        }
    }
}

pub open spec fn crlf() -> Seq<u8> {
    seq![13u8, 10u8]
}

pub open spec fn blank_line() -> Seq<u8> {
    seq![13u8, 10u8, 13u8, 10u8]
}

/// The answer whose chunks go on at `cursor`, `body` being those before.
pub open spec fn chunks_from(b: Seq<u8>, status: u16, cursor: int, body: Seq<u8>) -> ResponseStep<
    Seq<u8>,
>
    decreases b.len() - cursor,
{
    match bytes_from(b, crlf(), cursor) {
        None => ResponseStep::NeedMore,
        Some(e) => if e < cursor || cursor < 0 {
            ResponseStep::NeedMore
        } else {
            match chunk_length(text::lossy_text(b.subrange(cursor, e))) {
                None => ResponseStep::BadChunk,
                Some(n) => {
                    let start = e + 2;
                    if n == 0 {
                        if b.len() < start + 2 {
                            ResponseStep::NeedMore
                        } else {
                            ResponseStep::Done { status, body, used: (start + 2) as usize }
                        }
                    } else if b.len() < start + n + 2 {
                        ResponseStep::NeedMore
                    } else {
                        chunks_from(
                            b,
                            status,
                            start + n + 2,
                            body + b.subrange(start, start + n),
                        )
                    }
                },
            }
        },
    }
}

/// The answer that the bytes which have come make: its head ends at the first blank line; its
/// body is chunked, of a given length, or goes on until the connection is closed.
pub open spec fn answer_in(b: Seq<u8>) -> ResponseStep<Seq<u8>> {
    match bytes_from(b, blank_line(), 0) {
        None => ResponseStep::NeedMore,
        Some(e) => match head_of(text::lossy_text(b.take(e))) {
            None => ResponseStep::BadStatus,
            Some(head) => {
                let start = e + 4;
                if head.chunked {
                    chunks_from(b, head.status, start, Seq::empty())
                } else {
                    match head.content_length {
                        Some(n) => if b.len() < start + n {
                            ResponseStep::NeedMore
                        } else {
                            ResponseStep::Done {
                                status: head.status,
                                body: b.subrange(start, start + n),
                                used: (start + n) as usize,
                            }
                        },
                        None => ResponseStep::ToClose {
                            status: head.status,
                            body_start: start as usize,
                        },
                    }
                }
            },
        },
    }
}

fn copy_bytes(b: &[u8], from: usize, to: usize) -> (r: Vec<u8>)
    requires
        from <= to <= b@.len(),
    ensures
        r@ == b@.subrange(from as int, to as int),
{
    let mut out: Vec<u8> = Vec::new();
    let mut i: usize = from;
    while i < to
        invariant
            from <= i <= to,
            to <= b@.len(),
            out@ =~= b@.subrange(from as int, i as int),
        decreases to - i,
    {
        out.push(b[i]);
        i = i + 1;
    }
    out
}

fn read_chunks(b: &[u8], status: u16, start: usize) -> (r: ResponseStep)
    requires
        start <= b@.len(),
    ensures
        r@ == chunks_from(b@, status, start as int, Seq::empty()),
{
    let n: usize = b.len();
    let mut body: Vec<u8> = Vec::new();
    let mut cursor: usize = start;
    loop
        invariant
            n == b@.len(),
            cursor <= n,
            chunks_from(b@, status, cursor as int, body@) == chunks_from(
                b@,
                status,
                start as int,
                Seq::empty(),
            ),
        decreases n - cursor,
    {
        let mark = [13u8, 10u8];
        assert(mark@ =~= crlf());
        let e = match find_bytes_from(b, &mark, cursor) {
            None => {
                return ResponseStep::NeedMore;
            },
            Some(e) => e,
        };
        let raw = copy_bytes(b, cursor, e);
        let line = text::from_utf8_lossy(&raw);
        let size = match chunk_size(line.as_str()) {
            None => {
                return ResponseStep::BadChunk;
            },
            Some(s) => s,
        };
        let data: usize = e + 2;
        if size == 0 {
            if n - data < 2 {
                return ResponseStep::NeedMore;
            }
            return ResponseStep::Done { status, body, used: data + 2 };
        }
        if n - data < 2 || size > n - data - 2 {
            return ResponseStep::NeedMore;
        }
        let mut piece = copy_bytes(b, data, data + size);
        let ghost before = body@;
        let ghost p = piece@;
        body.append(&mut piece);
        assert(body@ =~= before + p);
        cursor = data + size + 2;
    }
}

/// Reads an answer out of the bytes that have come so far.
pub fn parse_response(b: &[u8]) -> (r: ResponseStep)
    ensures
        r@ == answer_in(b@),
{
    let n: usize = b.len();
    let mark = [13u8, 10u8, 13u8, 10u8];
    assert(mark@ =~= blank_line());
    let e = match find_bytes(b, &mark) {
        None => {
            return ResponseStep::NeedMore;
        },
        Some(e) => e,
    };
    let raw = copy_bytes(b, 0, e);
    assert(raw@ =~= b@.take(e as int));
    let head_text = text::from_utf8_lossy(&raw);
    let head = match response_head(head_text.as_str()) {
        None => {
            return ResponseStep::BadStatus;
        },
        Some(h) => h,
    };
    let start: usize = e + 4;
    if head.chunked {
        return read_chunks(b, head.status, start);
    }
    match head.content_length {
        Some(length) => {
            if length > n - start {
                ResponseStep::NeedMore
            } else {
                ResponseStep::Done {
                    status: head.status,
                    body: copy_bytes(b, start, start + length),
                    used: start + length,
                }
            }
        },
        None => ResponseStep::ToClose { status: head.status, body_start: start },
    }
}

/// An answer that is whole stays the same when more bytes follow it, as long as its length is
/// given in the head.
pub proof fn whole_answers_are_stable(b: Seq<u8>, more: Seq<u8>, e: int, head: ResponseHead, n: usize)
    requires
        bytes_from(b, blank_line(), 0) == Some(e),
        head_of(text::lossy_text(b.take(e))) == Some(head),
        !head.chunked,
        head.content_length == Some(n),
        b.len() >= e + 4 + n,
    ensures
        answer_in(b + more) == answer_in(b),
{
    let c = b + more;
    found_position_is_first(b, blank_line(), 0);
    lemma_found_in_longer(b, more, blank_line(), 0, e);
    assert(c.take(e) =~= b.take(e));
    assert(c.subrange(e + 4, e + 4 + n) =~= b.subrange(e + 4, e + 4 + n));
}

proof fn lemma_found_in_longer(b: Seq<u8>, more: Seq<u8>, p: Seq<u8>, from: int, at: int)
    requires
        0 <= from <= at,
        p.len() > 0,
        bytes_from(b, p, from) == Some(at),
    ensures
        bytes_from(b + more, p, from) == Some(at),
    decreases at - from,
{
    let c = b + more;
    found_position_is_first(b, p, from);
    assert(c.subrange(from, from + p.len()) =~= b.subrange(from, from + p.len()));
    if from < at {
        lemma_found_in_longer(b, more, p, from + 1, at);
    }
}

/// Why an answer could not be read; nothing where it could.
pub open spec fn reading_problem(step: ResponseStep) -> Option<Seq<char>> {
    match step {
        ResponseStep::BadStatus => Some("WDA 返回了无效 HTTP 状态"@),
        ResponseStep::BadChunk => Some("WDA 分块响应长度无效"@),
        _ => None,
    }
}

/// What an answer that could not be read is reported with.
pub fn unreadable(step: &ResponseStep) -> (r: Option<AdapterError>)
    ensures
        match r {
            Some(e) => reading_problem(*step) is Some && e@ == AdapterError::IosUsbUnavailable(
                reading_problem(*step)->Some_0,
            ),
            None => reading_problem(*step) is None,
        },
{
    match step {
        ResponseStep::BadStatus => Some(
            AdapterError::IosUsbUnavailable(text::own("WDA 返回了无效 HTTP 状态")),
        ),
        ResponseStep::BadChunk => Some(
            AdapterError::IosUsbUnavailable(text::own("WDA 分块响应长度无效")),
        ),
        _ => None,
    }
}

/// The message of an error answer, or its status.
pub open spec fn error_detail(status: u16, body: Result<Json, Seq<char>>) -> Seq<char> {
    let said = match body {
        Ok(v) => json::get_in(v.get("value"@), "message"@),
        Err(_) => None,
    };
    match said {
        Some(Json::Text(s)) => s,
        _ => "HTTP "@ + text::dec(status as nat),
    }
}

/// What an answer means, `body` being what its body was read as: an error unless its status is
/// a success; nothing where the body is empty.
pub open spec fn meaning(
    method: Seq<char>,
    path: Seq<char>,
    status: u16,
    empty: bool,
    body: Result<Json, Seq<char>>,
) -> Result<Json, AdapterError<Seq<char>>> {
    if status < 200 || status >= 300 {
        Err(
            AdapterError::IosUsbUnavailable(
                "WDA 请求失败："@ + method + " "@ + path + "（"@ + error_detail(status, body)
                    + "）"@,
            ),
        )
    } else if empty {
        Ok(Json::Null)
    } else {
        match body {
            Ok(v) => Ok(v),
            Err(why) => Err(
                AdapterError::IosUsbUnavailable("解析 WDA 响应失败："@ + why),
            ),
        }
    }
}

/// The content of the outcome of a request.
pub open spec fn outcome(r: Result<JsonValue, AdapterError>) -> Result<
    Json,
    AdapterError<Seq<char>>,
> {
    match r {
        Ok(v) => Ok(v@),
        Err(e) => Err(e@),
    }
}

pub open spec fn body_content(r: Result<JsonValue, String>) -> Result<Json, Seq<char>> {
    match r {
        Ok(v) => Ok(v@),
        Err(e) => Err(e@),
    }
}

/// What an answer means, `body` being what its body was read as.
pub fn judge_answer(
    method: &str,
    path: &str,
    status: u16,
    empty: bool,
    body: Result<JsonValue, String>,
) -> (r: Result<JsonValue, AdapterError>)
    ensures
        outcome(r) == meaning(method@, path@, status, empty, body_content(body)),
{
    if status < 200 || status >= 300 {
        let said = match &body {
            Ok(v) => json::member(v.get("value"), "message"),
            Err(_) => None,
        };
        let code = text::cat2("HTTP ", text::decimal(status as u64).as_str());
        let detail = json::text_of_or(said, code.as_str());
        let mut s = text::cat5("WDA 请求失败：", method, " ", path, "（");
        s.append(detail.as_str());
        s.append("）");
        return Err(AdapterError::IosUsbUnavailable(s));
    }
    if empty {
        return Ok(JsonValue::Null);
    }
    match body {
        Ok(v) => Ok(v),
        Err(why) => Err(
            AdapterError::IosUsbUnavailable(
                text::cat2("解析 WDA 响应失败：", why.as_str()),
            ),
        ),
    }
}

/// What an answer means, by its status and the bytes of its body.
pub fn interpret_answer(method: &str, path: &str, status: u16, body: &[u8]) -> (r: Result<
    JsonValue,
    AdapterError,
>)
    ensures
        outcome(r) == meaning(
            method@,
            path@,
            status,
            body@.len() == 0,
            json::json_of_bytes(body@),
        ),
{
    judge_answer(method, path, status, body.len() == 0, json::parse_json_bytes(body))
}

// ---------------------------------------------------------------------------
// Laws
// ---------------------------------------------------------------------------

/// An answer means what its body was read as exactly where its status is a success, and nothing
/// where it has no body; every other status is an error, whatever the body says.
pub proof fn only_successes_mean_their_body(
    method: Seq<char>,
    path: Seq<char>,
    status: u16,
    empty: bool,
    body: Result<Json, Seq<char>>,
)
    ensures
        ({
            let m = meaning(method, path, status, empty, body);
            let success = 200 <= status <= 299;
            &&& !success ==> (m matches Err(AdapterError::IosUsbUnavailable(_)))
            &&& success && empty ==> m == Ok::<_, AdapterError<Seq<char>>>(Json::Null)
            &&& success && !empty && body is Ok ==> m == Ok::<_, AdapterError<Seq<char>>>(
                body->Ok_0,
            )
            &&& success && !empty && body is Err ==> m is Err
        }),
{
}

/// The detail of an error is the message inside the value of the body, where there is one, and
/// else the status.
pub proof fn errors_tell_their_message(status: u16, v: Json, inside: Json, message: Seq<char>)
    ensures
        v.get("value"@) == Some(inside) && inside.get("message"@) == Some(Json::Text(message))
            ==> error_detail(status, Ok(v)) == message,
        v.get("value"@) is None ==> error_detail(status, Ok(v)) == "HTTP "@ + text::dec(
            status as nat,
        ),
        error_detail(status, Err(message)) == "HTTP "@ + text::dec(status as nat),
{
}

/// A request begins with its method, its path and the version, and its head ends with the length
/// of its body, zero where there is none, and a blank line.
pub proof fn request_heads_hold_their_parts(
    method: Seq<char>,
    path: Seq<char>,
    address: Seq<char>,
    n: nat,
)
    ensures
        ({
            let with = head_text(method, path, address, Some(n));
            let without = head_text(method, path, address, None);
            let first = method + " "@ + path + " HTTP/1.1\r\nHost: "@ + address;
            let last = "Content-Length: "@ + text::dec(n) + "\r\n\r\n"@;
            let none = "Content-Length: "@ + text::dec(0) + "\r\n\r\n"@;
            &&& first.is_prefix_of(with) && first.is_prefix_of(without)
            &&& last.is_suffix_of(with) && none.is_suffix_of(without)
            &&& text::parsed(text::dec(n), n) == Some(n)
        }),
{
    text::decimal_numbers_read_back(n, n);
    let with = head_text(method, path, address, Some(n));
    let without = head_text(method, path, address, None);
    let first = method + " "@ + path + " HTTP/1.1\r\nHost: "@ + address;
    let last = "Content-Length: "@ + text::dec(n) + "\r\n\r\n"@;
    let none = "Content-Length: "@ + text::dec(0) + "\r\n\r\n"@;
    assert(with.subrange(0, first.len() as int) =~= first);
    assert(without.subrange(0, first.len() as int) =~= first);
    assert(with.subrange(with.len() - last.len(), with.len() as int) =~= last);
    assert(without.subrange(without.len() - none.len(), without.len() as int) =~= none);
}

/// An answer whose head gives the length of its body reads back: the status of the head, the body
/// behind the blank line, and how many bytes it took, whatever follows it. While bytes of it are
/// missing, more are needed.
pub proof fn answers_of_given_length_read_back(
    head: Seq<u8>,
    body: Seq<u8>,
    more: Seq<u8>,
    h: ResponseHead,
    k: int,
)
    requires
        forall|j: int|
            0 <= j < head.len() ==> !#[trigger] bytes_at(
                head + blank_line() + body + more,
                blank_line(),
                j,
            ),
        head_of(text::lossy_text(head)) == Some(h),
        !h.chunked,
        h.content_length == Some(body.len() as usize),
        head.len() + 4 + body.len() <= usize::MAX,
    ensures
        answer_in(head + blank_line() + body + more) == (ResponseStep::Done {
            status: h.status,
            body,
            used: (head.len() + 4 + body.len()) as usize,
        }),
        head.len() + 4 <= k < head.len() + 4 + body.len() ==> answer_in(
            (head + blank_line() + body + more).take(k),
        ) is NeedMore,
{
    let b = head + blank_line() + body + more;
    let n = head.len() as int;
    assert(b.subrange(n, n + 4) =~= blank_line());
    lemma_first_blank(b, 0, n);
    assert(b.take(n) =~= head);
    assert(b.subrange(n + 4, n + 4 + body.len()) =~= body);
    if n + 4 <= k < n + 4 + body.len() {
        let c = b.take(k);
        assert forall|j: int| 0 <= j < n implies !#[trigger] bytes_at(c, blank_line(), j) by {
            if bytes_at(c, blank_line(), j) {
                assert(c.subrange(j, j + 4) =~= b.subrange(j, j + 4));
                assert(bytes_at(b, blank_line(), j));
            }
        }
        assert(c.subrange(n, n + 4) =~= blank_line());
        lemma_first_blank(c, 0, n);
        assert(c.take(n) =~= head);
    }
}

proof fn lemma_first_blank(b: Seq<u8>, from: int, n: int)
    requires
        0 <= from <= n,
        bytes_at(b, blank_line(), n),
        forall|j: int| from <= j < n ==> !#[trigger] bytes_at(b, blank_line(), j),
    ensures
        bytes_from(b, blank_line(), from) == Some(n),
    decreases n - from,
{
    if from < n {
        assert(!bytes_at(b, blank_line(), from));
        lemma_first_blank(b, from + 1, n);
    }
}

/// Chunks are put together in their order: behind a line that gives a length stand so many bytes
/// of the body, then a line break and the next chunk. The chunk of length zero ends the answer.
pub proof fn chunks_are_put_together(
    b: Seq<u8>,
    status: u16,
    cursor: int,
    e: int,
    n: nat,
    body: Seq<u8>,
)
    requires
        0 <= cursor <= e,
        bytes_from(b, crlf(), cursor) == Some(e),
        chunk_length(text::lossy_text(b.subrange(cursor, e))) == Some(n),
        e + 2 + n + 2 <= b.len() <= usize::MAX,
    ensures
        n > 0 ==> chunks_from(b, status, cursor, body) == chunks_from(
            b,
            status,
            e + 2 + n + 2,
            body + b.subrange(e + 2, e + 2 + n),
        ),
        n == 0 ==> chunks_from(b, status, cursor, body) == (ResponseStep::Done {
            status,
            body,
            used: (e + 4) as usize,
        }),
{
}

/// The length of a chunk is read from its hexadecimal digits, in either case and with or without
/// anything behind a semicolon.
pub proof fn chunk_lengths_read_back(n: nat, width: nat, capital: bool, rest: Seq<char>)
    requires
        0 < width,
        n < vstd::arithmetic::power::pow(16, width),
        n <= usize::MAX,
    ensures
        chunk_length(text::hex(n, width, capital)) == Some(n),
        chunk_length(text::hex(n, width, capital).push(';') + rest) == Some(n),
{
    let d = text::hex(n, width, capital);
    text::hexadecimal_numbers_read_back(n, width, capital);
    let f = text::is_char(';');
    assert forall|j: int| 0 <= j < d.len() implies !f(#[trigger] d[j]) && !text::is_space(d[j]) by {
        assert(text::is_hex(d[j]));
    }
    text::lemma_find_from_is(d, f, 0, d.len() as int);
    text::words_are_not_trimmed(d);
    assert(text::is_hex(d[0]));
    let s = d.push(';') + rest;
    assert forall|j: int| 0 <= j < d.len() implies !f(#[trigger] s[j]) by {
        assert(s[j] == d[j]);
        assert(!f(d[j]));
    }
    assert(s[d.len() as int] == ';');
    text::lemma_find_from_is(s, f, 0, d.len() as int);
    assert(s.take(d.len() as int) =~= d);
}

proof fn lemma_body_by_front(lines: Seq<Seq<char>>, line: Seq<char>, n: nat)
    requires
        n <= lines.len(),
    ensures
        body_by(lines.push(line), n) == body_by(lines, n),
    decreases n,
{
    if n > 0 {
        lemma_body_by_front(lines, line, (n - 1) as nat);
        assert(lines.push(line)[n - 1] == lines[n - 1]);
    }
}

/// A header line that gives the length of the body counts, whatever lines stand before it, and
/// leaves the coding as it was; a line with another name changes nothing, and so does one without
/// a colon.
pub proof fn header_lines_give_the_length(
    lines: Seq<Seq<char>>,
    n: nat,
    name: Seq<char>,
    value: Seq<char>,
)
    requires
        n <= usize::MAX,
        forall|i: int| 0 <= i < name.len() ==> #[trigger] name[i] != ':',
    ensures
        ({
            let all = body_by(lines, lines.len());
            let given = lines.push("Content-Length:"@ + text::dec(n));
            let other = lines.push(name.push(':') + value);
            &&& body_by(given, given.len()) == (Some(n), all.1)
            &&& text::lowered(name) != text::lowered("content-length"@) && text::lowered(name)
                != text::lowered("transfer-encoding"@) ==> body_by(other, other.len()) == all
            &&& body_by(lines.push(name), lines.len() + 1) == all
        }),
{
    let f = text::is_char(':');
    let d = text::dec(n);
    text::decimal_numbers_read_back(n, usize::MAX as nat);
    let line = "Content-Length:"@ + d;
    reveal_strlit("Content-Length:");
    reveal_strlit("content-length");
    lemma_body_by_front(lines, line, lines.len());
    assert forall|j: int| 0 <= j < 14 implies !f(#[trigger] line[j]) by {
        assert(line[j] == "Content-Length:"@[j]);
    }
    assert(line[14] == ':');
    text::lemma_find_from_is(line, f, 0, 14);
    assert(line.skip(15) =~= d);
    assert(text::lowered(line.take(14)) =~= text::lowered("content-length"@));
    assert forall|j: int| 0 <= j < d.len() implies !text::is_space(#[trigger] d[j]) by {
        assert(text::is_digit(d[j]));
    }
    text::words_are_not_trimmed(d);
    let second = name.push(':') + value;
    lemma_body_by_front(lines, second, lines.len());
    assert forall|j: int| 0 <= j < name.len() implies !f(#[trigger] second[j]) by {
        assert(second[j] == name[j]);
    }
    assert(second[name.len() as int] == ':');
    text::lemma_find_from_is(second, f, 0, name.len() as int);
    assert(second.take(name.len() as int) =~= name);
    lemma_body_by_front(lines, name, lines.len());
    assert forall|j: int| 0 <= j < name.len() implies !f(#[trigger] name[j]) by {}
    text::lemma_find_from_is(name, f, 0, name.len() as int);
}

/// An answer is reported as not readable exactly where its status line or one of its chunks is
/// bad, and the two are told apart.
pub proof fn bad_answers_are_reported(step: ResponseStep)
    ensures
        reading_problem(step) is Some <==> step is BadStatus || step is BadChunk,
        step is BadStatus ==> reading_problem(step) == Some("WDA 返回了无效 HTTP 状态"@),
        step is BadChunk ==> reading_problem(step) == Some("WDA 分块响应长度无效"@),
{
}

} // verus!
