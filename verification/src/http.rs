//! The journal viewer's HTTP handling: which route a request takes, where
//! its body is and how long it says it is, how responses are framed, and the
//! small rules of the key and login routes.
use vstd::prelude::*;
use crate::text::{
    chars_of, decimal, find, find_chars, lemma_contains_find, push_decimal, push_range,
    push_str, starts_with, string_of, trim, trim_bounds,
};
use crate::unicode::{to_uppercase, uppercase};

verus! {

// ---------------------------------------------------------------------------
// Numbers in headers
// ---------------------------------------------------------------------------

/// An ASCII decimal digit.
pub open spec fn is_digit(c: char) -> bool {
    48 <= (c as u32) && (c as u32) <= 57
}

/// The value of a string of decimal digits.
pub open spec fn digits_value(s: Seq<char>) -> nat
    decreases s.len(),
{
    if s.len() == 0 {
        0
    } else {
        digits_value(s.drop_last()) * 10 + ((s.last() as u32) - 48) as nat
    }
}

/// Every character of `d` is a decimal digit.
pub open spec fn all_digits(d: Seq<char>) -> bool {
    forall|i: int| 0 <= i < d.len() ==> is_digit(#[trigger] d[i])
}

/// `s` without a leading `+`.
pub open spec fn unsigned_digits(s: Seq<char>) -> Seq<char> {
    if s.len() > 0 && s[0] == '+' {
        s.drop_first()
    } else {
        s
    }
}

/// What `usize::from_str` makes of `s`: an optional `+`, then one or more
/// decimal digits whose value fits in a `usize`.
pub open spec fn parse_usize(s: Seq<char>) -> Option<usize> {
    let d = unsigned_digits(s);
    if d.len() > 0 && all_digits(d) && digits_value(d) <= usize::MAX {
        Some(digits_value(d) as usize)
    } else {
        None
    }
}

proof fn lemma_digits_value_grows(s: Seq<char>, k: int)
    requires
        0 <= k <= s.len(),
        forall|i: int| 0 <= i < s.len() ==> is_digit(#[trigger] s[i]),
    ensures
        digits_value(s.take(k)) <= digits_value(s),
    decreases s.len() - k,
{
    if k < s.len() {
        lemma_digits_value_grows(s, k + 1);
        assert(s.take(k + 1).drop_last() =~= s.take(k));
    } else {
        assert(s.take(k) =~= s);
    }
}

/// The `usize` written in `v[from..to]`, as `usize::from_str` reads it.
pub fn parse_usize_in(v: &Vec<char>, from: usize, to: usize) -> (r: Option<usize>)
    requires
        from <= to <= v.len(),
    ensures
        r == parse_usize(v@.subrange(from as int, to as int)),
{
    let ghost s = v@.subrange(from as int, to as int);
    let mut i = from;
    if i < to && v[i] == '+' {
        i = i + 1;
    }
    let ghost d = v@.subrange(i as int, to as int);
    proof {
        if s.len() > 0 && s[0] == '+' {
            assert(s.drop_first() =~= d);
        } else {
            assert(s =~= d);
        }
    }
    if i == to {
        return None;
    }
    let start = i;
    let mut value: usize = 0;
    proof {
        assert(d.take(0) =~= Seq::<char>::empty());
    }
    while i < to
        invariant
            from <= start <= i <= to <= v.len(),
            start < to,
            d == v@.subrange(start as int, to as int),
            s == v@.subrange(from as int, to as int),
            unsigned_digits(s) == d,
            forall|j: int| 0 <= j < i - start ==> is_digit(#[trigger] d[j]),
            value == digits_value(d.take(i - start)),
        decreases to - i,
    {
        let c = v[i];
        let u = c as u32;
        proof {
            assert(d[i - start] == c);
        }
        if u < 48 || u > 57 {
            proof {
                assert(!is_digit(d[i - start]));
                assert(!all_digits(d));
            }
            return None;
        }
        let dig = (u - 48) as usize;
        proof {
            assert(d.take(i - start + 1).drop_last() =~= d.take(i - start));
            assert(d.take(i - start + 1).last() == c);
            assert(digits_value(d.take(i - start + 1)) == digits_value(d.take(i - start)) * 10 + dig);
        }
        if value > (usize::MAX - dig) / 10 {
            proof {
                assert(digits_value(d.take(i - start + 1)) == value * 10 + dig);
                assert(value * 10 + dig > usize::MAX) by (nonlinear_arith)
                    requires
                        value > (usize::MAX - dig) / 10,
                        dig <= 9,
                ;
                if all_digits(d) {
                    lemma_digits_value_grows(d, i - start + 1);
                    assert(digits_value(d) > usize::MAX);
                }
            }
            return None;
        }
        proof {
            assert(value * 10 + dig <= usize::MAX) by (nonlinear_arith)
                requires
                    value <= (usize::MAX - dig) / 10,
                    dig <= 9,
            ;
        }
        value = value * 10 + dig;
        i = i + 1;
    }
    proof {
        assert(d.take(d.len() as int) =~= d);
    }
    Some(value)
}

// ---------------------------------------------------------------------------
// Request layout
// ---------------------------------------------------------------------------

/// Where a needle ends when it occurs in `hay`, searching from the start.
pub open spec fn end_of_first(hay: Seq<char>, needle: Seq<char>) -> Option<int> {
    match find(hay, needle) {
        Some(i) => Some(i + needle.len()),
        None => None,
    }
}

/// The length a request's `Content-Length:` header gives: the text after
/// the first such header, up to the next `'\r'` (or else `'\n'`), trimmed and
/// read as a `usize`; 0 when any of that is missing.
pub open spec fn content_length_spec(request: Seq<char>) -> nat {
    match end_of_first(request, "Content-Length:"@) {
        None => 0,
        Some(a) => {
            let after = request.skip(a);
            let line_end = match find(after, "\r"@) {
                Some(e) => Some(e),
                None => find(after, "\n"@),
            };
            match line_end {
                None => 0,
                Some(e) => match parse_usize(trim(after.take(e))) {
                    Some(n) => n as nat,
                    None => 0,
                },
            }
        },
    }
}

/// Where `needle` ends in `v[from..]`, if it occurs there.
fn end_of_first_from(v: &Vec<char>, from: usize, needle: &str) -> (r: Option<usize>)
    requires
        from <= v.len(),
    ensures
        match end_of_first(v@.skip(from as int), needle@) {
            Some(e) => r == Some((from + e) as usize) && from + e <= v.len(),
            None => r is None,
        },
{
    let n = chars_of(needle);
    let mut tail: Vec<char> = Vec::new();
    push_range(&mut tail, v, from, v.len());
    proof {
        assert(tail@ =~= v@.skip(from as int));
    }
    match find_chars(&tail, &n) {
        Some(i) => {
            proof {
                lemma_contains_find(tail@, n@);
            }
            Some(from + i + n.len())
        },
        None => None,
    }
}

/// The length a request says its body has (see `content_length_spec`).
pub fn content_length(request: &str) -> (n: usize)
    ensures
        n as nat == content_length_spec(request@),
{
    let v = chars_of(request);
    proof {
        assert(v@.skip(0) =~= v@);
    }
    proof {
        reveal_strlit("\r");
        reveal_strlit("\n");
    }
    let a = match end_of_first_from(&v, 0, "Content-Length:") {
        Some(a) => a,
        None => return 0,
    };
    let e = match end_of_first_from(&v, a, "\r") {
        Some(e) => e - 1,
        None => match end_of_first_from(&v, a, "\n") {
            Some(e) => e - 1,
            None => return 0,
        },
    };
    proof {
        let after = v@.skip(a as int);
        assert(after.take(e - a) =~= v@.subrange(a as int, e as int));
    }
    let (lo, hi) = trim_bounds(&v, a, e);
    match parse_usize_in(&v, lo, hi) {
        Some(n) => n,
        None => 0,
    }
}

/// Where the body of a request starts: after the first blank line
/// (`"\r\n\r\n"`, else `"\n\n"`), or at the start when there is none.
pub open spec fn body_start(request: Seq<char>) -> int {
    match end_of_first(request, "\r\n\r\n"@) {
        Some(e) => e,
        None => match end_of_first(request, "\n\n"@) {
            Some(e) => e,
            None => 0,
        },
    }
}

/// `s` without `c` at either end (`trim_matches(c)`).
pub open spec fn strip_char(s: Seq<char>, c: char) -> Seq<char>
    decreases s.len(),
{
    if s.len() > 0 && s[0] == c {
        strip_char(s.drop_first(), c)
    } else if s.len() > 0 && s.last() == c {
        strip_char(s.drop_last(), c)
    } else {
        s
    }
}

/// The body of a request as most routes read it: from `body_start`, with
/// NUL padding and then whitespace trimmed off both ends.
pub open spec fn request_body_spec(request: Seq<char>) -> Seq<char> {
    trim(strip_char(request.skip(body_start(request)), '\0'))
}

proof fn lemma_strip_char_range(s: Seq<char>, c: char, lo: int, hi: int)
    requires
        0 <= lo <= hi <= s.len(),
        forall|j: int| 0 <= j < lo ==> s[j] == c,
        forall|j: int| hi <= j < s.len() ==> s[j] == c,
        lo < hi ==> s[lo] != c && s[hi - 1] != c,
    ensures
        strip_char(s, c) == s.subrange(lo, hi),
    decreases s.len(),
{
    if s.len() > 0 && s[0] == c {
        let t = s.drop_first();
        if lo == 0 {
            assert(hi == 0);
            assert forall|j: int| 0 <= j < t.len() implies t[j] == c by {
                assert(t[j] == s[j + 1]);
            }
            lemma_strip_char_range(t, c, 0, 0);
            assert(t.subrange(0, 0) =~= s.subrange(0, 0));
        } else {
            lemma_strip_char_range(t, c, lo - 1, hi - 1);
            assert(t.subrange(lo - 1, hi - 1) =~= s.subrange(lo, hi));
        }
    } else if s.len() > 0 && s.last() == c {
        let t = s.drop_last();
        assert(lo == 0);
        if hi == s.len() {
            assert(lo < hi);
            assert(false);
        }
        lemma_strip_char_range(t, c, lo, hi);
        assert(t.subrange(lo, hi) =~= s.subrange(lo, hi));
    } else {
        if lo > 0 {
            assert(s[0] == c);
        }
        if hi < s.len() {
            assert(s[s.len() - 1] == c);
        }
        assert(s.subrange(lo, hi) =~= s);
    }
}

/// Bounds of `v[from..to]` with `c` stripped from both ends.
fn strip_char_bounds(v: &Vec<char>, from: usize, to: usize, c: char) -> (r: (usize, usize))
    requires
        from <= to <= v.len(),
    ensures
        from <= r.0 <= r.1 <= to,
        v@.subrange(r.0 as int, r.1 as int) == strip_char(v@.subrange(from as int, to as int), c),
{
    let mut lo = from;
    while lo < to && v[lo] == c
        invariant
            from <= lo <= to <= v.len(),
            forall|j: int| from <= j < lo ==> v@[j] == c,
        decreases to - lo,
    {
        lo = lo + 1;
    }
    let mut hi = to;
    while hi > lo && v[hi - 1] == c
        invariant
            from <= lo <= hi <= to <= v.len(),
            forall|j: int| hi <= j < to ==> v@[j] == c,
        decreases hi - lo,
    {
        hi = hi - 1;
    }
    proof {
        let s = v@.subrange(from as int, to as int);
        assert forall|j: int| 0 <= j < lo - from implies s[j] == c by {
            assert(s[j] == v@[from + j]);
        }
        assert forall|j: int| hi - from <= j < s.len() implies s[j] == c by {
            assert(s[j] == v@[from + j]);
        }
        if lo < hi {
            assert(s[lo - from] == v@[lo as int]);
            assert(s[hi - from - 1] == v@[hi - 1]);
        }
        lemma_strip_char_range(s, c, lo - from, hi - from);
        assert(s.subrange(lo - from, hi - from) =~= v@.subrange(lo as int, hi as int));
    }
    (lo, hi)
}

fn body_start_exec(v: &Vec<char>) -> (b: usize)
    ensures
        b == body_start(v@),
        b <= v.len(),
{
    proof {
        assert(v@.skip(0) =~= v@);
    }
    match end_of_first_from(v, 0, "\r\n\r\n") {
        Some(e) => e,
        None => match end_of_first_from(v, 0, "\n\n") {
            Some(e) => e,
            None => 0,
        },
    }
}

/// The body of `request`, NUL padding and whitespace trimmed.
pub fn request_body(request: &str) -> (body: String)
    ensures
        body@ == request_body_spec(request@),
{
    let v = chars_of(request);
    let b = body_start_exec(&v);
    let (lo, hi) = strip_char_bounds(&v, b, v.len(), '\0');
    let (a, z) = trim_bounds(&v, lo, hi);
    proof {
        assert(v@.subrange(b as int, v@.len() as int) =~= v@.skip(b as int));
    }
    let mut out: Vec<char> = Vec::new();
    push_range(&mut out, &v, a, z);
    string_of(&out)
}

/// The body of a login request: after the first `"\r\n\r\n"` (or the whole
/// request when there is none), whitespace trimmed.
pub open spec fn login_body_spec(request: Seq<char>) -> Seq<char> {
    let start = match end_of_first(request, "\r\n\r\n"@) {
        Some(e) => e,
        None => 0,
    };
    trim(request.skip(start))
}

/// The body of a login request (see `login_body_spec`).
pub fn login_body(request: &str) -> (body: String)
    ensures
        body@ == login_body_spec(request@),
{
    let v = chars_of(request);
    proof {
        assert(v@.skip(0) =~= v@);
    }
    let b = match end_of_first_from(&v, 0, "\r\n\r\n") {
        Some(e) => e,
        None => 0,
    };
    let (a, z) = trim_bounds(&v, b, v.len());
    proof {
        assert(v@.subrange(b as int, v@.len() as int) =~= v@.skip(b as int));
    }
    let mut out: Vec<char> = Vec::new();
    push_range(&mut out, &v, a, z);
    string_of(&out)
}

/// The body of a message request: everything after the first
/// `"\r\n\r\n"`, untrimmed; `None` when the request has no such line.
pub open spec fn message_body_spec(request: Seq<char>) -> Option<Seq<char>> {
    match end_of_first(request, "\r\n\r\n"@) {
        Some(e) => Some(request.skip(e)),
        None => None,
    }
}

/// The body of a message request (see `message_body_spec`).
pub fn message_body(request: &str) -> (body: Option<String>)
    ensures
        match message_body_spec(request@) {
            Some(b) => body matches Some(s) && s@ == b,
            None => body is None,
        },
{
    let v = chars_of(request);
    proof {
        assert(v@.skip(0) =~= v@);
    }
    match end_of_first_from(&v, 0, "\r\n\r\n") {
        Some(e) => {
            let mut out: Vec<char> = Vec::new();
            push_range(&mut out, &v, e, v.len());
            proof {
                assert(v@.subrange(e as int, v@.len() as int) =~= v@.skip(e as int));
            }
            Some(string_of(&out))
        },
        None => None,
    }
}

// ---------------------------------------------------------------------------
// Routes
// ---------------------------------------------------------------------------

/// The routes of the journal viewer.
#[derive(Debug, Clone, Copy, PartialEq, Eq, Structural)]
pub enum Route {
    /// `POST /broadcast` or `POST /chat`: a group-chat message to all agents.
    Broadcast,
    /// `POST /agent` with a JSON body: a task for one sub-agent.
    Agent,
    /// `POST /keys`: submitted provider keys.
    SubmitKeys,
    /// `GET /dashboard.js`.
    DashboardScript,
    /// `GET /keys` or `GET /keys/status`: which keys are present.
    KeyStatus,
    /// `GET /chat`: the group-chat history.
    ChatHistory,
    /// `GET /api/state`.
    State,
    /// `GET /api/journal`.
    JournalEntries,
    /// `POST /message`: a message for Aria's inbox.
    Message,
    /// `OPTIONS`: a CORS preflight.
    Preflight,
    /// `GET /healthz`.
    Health,
    /// `POST /login`.
    Login,
    /// `POST /intent`: a body-control packet.
    SubmitIntent,
    /// `GET /intent`.
    ReadIntent,
    /// `GET /telemetry`.
    Telemetry,
    /// Any other `GET`: the status page.
    StatusPage,
    /// Anything else (and an `/agent` request whose body is not JSON): the
    /// journal page.
    JournalPage,
}

/// The route a request takes, by the first of the prefixes below that it
/// starts with; an agent request whose body is not JSON falls through to the
/// journal page.
pub open spec fn route_spec(r: Seq<char>, body_is_json: bool) -> Route {
    if starts_with(r, "POST /broadcast"@) || starts_with(r, "POST /chat"@) {
        Route::Broadcast
    } else if starts_with(r, "POST /agent"@) {
        if body_is_json {
            Route::Agent
        } else {
            Route::JournalPage
        }
    } else if starts_with(r, "POST /keys"@) {
        Route::SubmitKeys
    } else if starts_with(r, "GET /dashboard.js"@) {
        Route::DashboardScript
    } else if starts_with(r, "GET /keys"@) {
        Route::KeyStatus
    } else if starts_with(r, "GET /chat"@) {
        Route::ChatHistory
    } else if starts_with(r, "GET /api/state"@) {
        Route::State
    } else if starts_with(r, "GET /api/journal"@) {
        Route::JournalEntries
    } else if starts_with(r, "POST /message"@) {
        Route::Message
    } else if starts_with(r, "OPTIONS"@) {
        Route::Preflight
    } else if starts_with(r, "GET /healthz"@) {
        Route::Health
    } else if starts_with(r, "POST /login"@) {
        Route::Login
    } else if starts_with(r, "POST /intent"@) {
        Route::SubmitIntent
    } else if starts_with(r, "GET /intent"@) {
        Route::ReadIntent
    } else if starts_with(r, "GET /telemetry"@) {
        Route::Telemetry
    } else if starts_with(r, "GET /"@) {
        Route::StatusPage
    } else {
        Route::JournalPage
    }
}

fn begins(v: &Vec<char>, prefix: &str) -> (b: bool)
    ensures
        b == starts_with(v@, prefix@),
{
    let p = chars_of(prefix);
    let b = crate::text::starts_with_at(v, 0, v.len(), &p);
    proof {
        assert(v@.subrange(0, v@.len() as int) =~= v@);
    }
    b
}

/// The route `request` takes; `body_is_json` says whether its body parsed
/// as JSON, which decides an agent request.
pub fn route_request(request: &str, body_is_json: bool) -> (route: Route)
    ensures
        route == route_spec(request@, body_is_json),
{
    let v = chars_of(request);
    if begins(&v, "POST /broadcast") || begins(&v, "POST /chat") {
        Route::Broadcast
    } else if begins(&v, "POST /agent") {
        if body_is_json {
            Route::Agent
        } else {
            Route::JournalPage
        }
    } else if begins(&v, "POST /keys") {
        Route::SubmitKeys
    } else if begins(&v, "GET /dashboard.js") {
        Route::DashboardScript
    } else if begins(&v, "GET /keys") {
        Route::KeyStatus
    } else if begins(&v, "GET /chat") {
        Route::ChatHistory
    } else if begins(&v, "GET /api/state") {
        Route::State
    } else if begins(&v, "GET /api/journal") {
        Route::JournalEntries
    } else if begins(&v, "POST /message") {
        Route::Message
    } else if begins(&v, "OPTIONS") {
        Route::Preflight
    } else if begins(&v, "GET /healthz") {
        Route::Health
    } else if begins(&v, "POST /login") {
        Route::Login
    } else if begins(&v, "POST /intent") {
        Route::SubmitIntent
    } else if begins(&v, "GET /intent") {
        Route::ReadIntent
    } else if begins(&v, "GET /telemetry") {
        Route::Telemetry
    } else if begins(&v, "GET /") {
        Route::StatusPage
    } else {
        Route::JournalPage
    }
}

// ---------------------------------------------------------------------------
// Responses
// ---------------------------------------------------------------------------

/// An HTTP/1.1 response: status line, content type, the body's length in
/// bytes, the open CORS header, `Connection: close` when asked, a blank line
/// and the body.
pub open spec fn http_response_spec(
    status: Seq<char>,
    content_type: Seq<char>,
    body: Seq<char>,
    close: bool,
) -> Seq<char> {
    "HTTP/1.1 "@ + status + "\r\nContent-Type: "@ + content_type + "\r\nContent-Length: "@
        + decimal(crate::text::byte_len(body)) + "\r\nAccess-Control-Allow-Origin: *\r\n"@ + (
    if close {
        "Connection: close\r\n"@
    } else {
        Seq::empty()
    }) + "\r\n"@ + body
}

/// Frames `body` as an HTTP response with the given status and type.
pub fn http_response(status: &str, content_type: &str, body: &str, close: bool) -> (resp: String)
    ensures
        resp@ == http_response_spec(status@, content_type@, body@, close),
{
    let mut out: Vec<char> = Vec::new();
    push_str(&mut out, "HTTP/1.1 ");
    push_str(&mut out, status);
    push_str(&mut out, "\r\nContent-Type: ");
    push_str(&mut out, content_type);
    push_str(&mut out, "\r\nContent-Length: ");
    let bv = chars_of(body);
    let n = crate::text::byte_len_wide(&bv);
    crate::text::push_decimal_wide(&mut out, n);
    push_str(&mut out, "\r\nAccess-Control-Allow-Origin: *\r\n");
    let ghost before = out@;
    if close {
        push_str(&mut out, "Connection: close\r\n");
    }
    proof {
        if !close {
            assert(out@ =~= before + Seq::<char>::empty());
        }
    }
    push_str(&mut out, "\r\n");
    push_str(&mut out, body);
    string_of(&out)
}

/// The answer to a CORS preflight.
pub const PREFLIGHT_RESPONSE: &'static str = "HTTP/1.1 204 No Content\r\nAccess-Control-Allow-Origin: *\r\nAccess-Control-Allow-Methods: POST, GET\r\nAccess-Control-Allow-Headers: Content-Type\r\nConnection: close\r\n\r\n";

// ---------------------------------------------------------------------------
// Journal timestamps
// ---------------------------------------------------------------------------

/// `n` with at least two digits (`{:02}`).
pub open spec fn two_digits(n: nat) -> Seq<char> {
    if n < 10 {
        seq!['0'] + decimal(n)
    } else {
        decimal(n)
    }
}

/// How the journal page labels a timestamp: an approximate year (365-day
/// years from 1970), unknown month and day, and the UTC time of day.
pub open spec fn time_label_spec(ts: nat) -> Seq<char> {
    let secs = ts % 86400;
    decimal(1970 + (ts / 86400) / 365) + "-??-?? "@ + two_digits(secs / 3600) + ":"@ + two_digits(
        (secs % 3600) / 60,
    ) + ":"@ + two_digits(secs % 60) + " UTC"@
}

fn push_two_digits(out: &mut Vec<char>, n: u64)
    ensures
        final(out)@ == old(out)@ + two_digits(n as nat),
{
    if n < 10 {
        out.push('0');
        let ghost mid = out@;
        push_decimal(out, n);
        proof {
            assert(out@ =~= old(out)@ + (seq!['0'] + decimal(n as nat)));
        }
    } else {
        push_decimal(out, n);
    }
}

/// The label the journal page shows for timestamp `ts`.
pub fn time_label(ts: u64) -> (label: String)
    ensures
        label@ == time_label_spec(ts as nat),
{
    let secs = ts % 86400;
    let days = ts / 86400;
    let year = 1970 + days / 365;
    let mut out: Vec<char> = Vec::new();
    push_decimal(&mut out, year);
    push_str(&mut out, "-??-?? ");
    push_two_digits(&mut out, secs / 3600);
    push_str(&mut out, ":");
    push_two_digits(&mut out, (secs % 3600) / 60);
    push_str(&mut out, ":");
    push_two_digits(&mut out, secs % 60);
    push_str(&mut out, " UTC");
    string_of(&out)
}

// ---------------------------------------------------------------------------
// Keys
// ---------------------------------------------------------------------------

/// The environment variable a submitted key is stored in.
pub open spec fn key_env_var_spec(name: Seq<char>) -> Seq<char> {
    uppercase(name) + "_API_KEY"@
}

/// The environment variable for key `name`: its uppercase form and
/// `_API_KEY`.
pub fn key_env_var(name: &str) -> (var: String)
    ensures
        var@ == key_env_var_spec(name@),
{
    let upper = to_uppercase(name);
    let mut out: Vec<char> = Vec::new();
    push_str(&mut out, upper.as_str());
    push_str(&mut out, "_API_KEY");
    string_of(&out)
}

/// What happens to one submitted key.
#[derive(Debug, Clone, Copy, PartialEq, Eq, Structural)]
pub enum KeySubmission {
    /// Long enough: stored.
    Stored,
    /// Too short, but a value is already set.
    Exists,
    /// Too short and nothing set.
    Missing,
}

/// A key is accepted when it is longer than five bytes.
pub open spec fn key_accepted(key: Seq<char>) -> bool {
    crate::text::byte_len(key) > 5
}

/// The fate of submitted `key`, given whether its variable already holds a
/// non-empty value.
pub fn key_submission(key: &str, already_set: bool) -> (s: KeySubmission)
    ensures
        s == (if key_accepted(key@) {
            KeySubmission::Stored
        } else if already_set {
            KeySubmission::Exists
        } else {
            KeySubmission::Missing
        }),
{
    let v = chars_of(key);
    let short = crate::text::byte_len_lt(&v, 0, v.len(), 6);
    proof {
        assert(v@.subrange(0, v@.len() as int) =~= v@);
    }
    if !short {
        KeySubmission::Stored
    } else if already_set {
        KeySubmission::Exists
    } else {
        KeySubmission::Missing
    }
}

} // verus!
