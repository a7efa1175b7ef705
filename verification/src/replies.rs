//! Reading what an outside model answered: the text of a reply, or why there
//! is none.
use vstd::prelude::*;
use crate::requests::opt_view;
use crate::text::{byte_prefix, byte_prefix_defined, push_byte_prefix, push_str, string_of};

verus! {

/// The two answer shapes the kernel reads.
#[derive(Debug, Clone, Copy, PartialEq, Eq, Structural)]
pub enum ReplyDialect {
    /// OpenAI-style chat completions: `choices[0].message.content`.
    Chat,
    /// Gemini: `candidates[0].content.parts[0].text`.
    Gemini,
}

/// What the JSON of an answer holds, as far as the kernel reads it.
#[derive(Debug, Clone)]
pub enum ReplyJson {
    /// The answer is not JSON; the parser's message.
    Unparsable { message: String },
    /// The answer is JSON: its `error` field written out as JSON, if it has
    /// one, and the answer text, if it is a string where the dialect puts it.
    Parsed { error: Option<String>, text: Option<String> },
}

/// Why an answer gave no text; each holds the message the kernel logs.
#[derive(Debug, Clone)]
pub enum ReplyError {
    Unparsable(String),
    Api(String),
    Missing(String),
}

/// How many bytes of an answer a missing-text error quotes.
pub const REPLY_QUOTE_BYTES: usize = 200;

/// The answer text, or the error it is logged with.
pub open spec fn reply_outcome(dialect: ReplyDialect, json: ReplyJson, raw: Seq<char>) -> Result<
    Seq<char>,
    Seq<char>,
> {
    match json {
        ReplyJson::Unparsable { message } => Err(
            match dialect {
                ReplyDialect::Chat => "JSON parse failed: "@,
                ReplyDialect::Gemini => "Gemini JSON parse: "@,
            } + message@,
        ),
        ReplyJson::Parsed { error, text } => match error {
            Some(e) => Err(
                match dialect {
                    ReplyDialect::Chat => "API error: "@,
                    ReplyDialect::Gemini => "Gemini error: "@,
                } + e@,
            ),
            None => match text {
                Some(t) => Ok(t@),
                None => Err(
                    match dialect {
                        ReplyDialect::Chat => "no choices[0].message.content in response: "@,
                        ReplyDialect::Gemini => "Gemini: no text in response: "@,
                    } + byte_prefix(raw, REPLY_QUOTE_BYTES as nat),
                ),
            },
        },
    }
}

/// The kind of error an outcome is.
pub open spec fn reply_error_kind(json: ReplyJson) -> int {
    match json {
        ReplyJson::Unparsable { .. } => 0,
        ReplyJson::Parsed { error: Some(_), .. } => 1,
        _ => 2,
    }
}

/// Reading the answer is defined: when its text is missing, the quote of
/// its first two hundred bytes must end on a character boundary.
pub open spec fn reply_defined(json: ReplyJson, raw: Seq<char>) -> bool {
    (json matches ReplyJson::Parsed { error: None, text: None }) ==> byte_prefix_defined(
        raw,
        REPLY_QUOTE_BYTES as nat,
    )
}

/// The text of an answer in `dialect`, given what its JSON holds and the raw
/// answer `raw`; otherwise the error, with the message the kernel logs.
pub fn reply_text(dialect: ReplyDialect, json: ReplyJson, raw: &str) -> (r: Result<String, ReplyError>)
    requires
        reply_defined(json, raw@),
    ensures
        match reply_outcome(dialect, json, raw@) {
            Ok(t) => r matches Ok(s) && s@ == t,
            Err(m) => r matches Err(e) && match e {
                ReplyError::Unparsable(s) => reply_error_kind(json) == 0 && s@ == m,
                ReplyError::Api(s) => reply_error_kind(json) == 1 && s@ == m,
                ReplyError::Missing(s) => reply_error_kind(json) == 2 && s@ == m,
            },
        },
{
    let mut out: Vec<char> = Vec::new();
    match json {
        ReplyJson::Unparsable { message } => {
            match dialect {
                ReplyDialect::Chat => push_str(&mut out, "JSON parse failed: "),
                ReplyDialect::Gemini => push_str(&mut out, "Gemini JSON parse: "),
            }
            push_str(&mut out, message.as_str());
            Err(ReplyError::Unparsable(string_of(&out)))
        },
        ReplyJson::Parsed { error, text } => match error {
            Some(e) => {
                match dialect {
                    ReplyDialect::Chat => push_str(&mut out, "API error: "),
                    ReplyDialect::Gemini => push_str(&mut out, "Gemini error: "),
                }
                push_str(&mut out, e.as_str());
                Err(ReplyError::Api(string_of(&out)))
            },
            None => match text {
                Some(t) => Ok(t),
                None => {
                    match dialect {
                        ReplyDialect::Chat => push_str(
                            &mut out,
                            "no choices[0].message.content in response: ",
                        ),
                        ReplyDialect::Gemini => push_str(&mut out, "Gemini: no text in response: "),
                    }
                    push_byte_prefix(&mut out, raw, REPLY_QUOTE_BYTES);
                    Err(ReplyError::Missing(string_of(&out)))
                },
            },
        },
    }
}

// ---------------------------------------------------------------------------
// What serde_json reads from an answer
// ---------------------------------------------------------------------------

/// The parser's message (`serde_json::Error` written out) when `raw` does not
/// parse as JSON; `None` when it does.
pub uninterp spec fn json_parse_failure(raw: Seq<char>) -> Option<Seq<char>>;

/// The `error` field of `raw`, written out as JSON, when `raw` parses as a
/// JSON object that has one.
pub uninterp spec fn json_error_field(raw: Seq<char>) -> Option<Seq<char>>;

/// The string at `choices[0].message.content` of `raw`, if there is one.
pub uninterp spec fn json_chat_content(raw: Seq<char>) -> Option<Seq<char>>;

/// The string at `candidates[0].content.parts[0].text` of `raw`, if there is
/// one.
pub uninterp spec fn json_gemini_text(raw: Seq<char>) -> Option<Seq<char>>;

/// `serde_json::from_str::<serde_json::Value>(raw)` and, where it fails, the
/// error written out with `to_string`; the contract names the message
/// `json_parse_failure` and says nothing more of it.
#[verifier::external_body]
fn parse_failure(raw: &str) -> (r: Option<String>)
    ensures
        opt_view(r) == json_parse_failure(raw@),
{
    match serde_json::from_str::<serde_json::Value>(raw) {
        Ok(_) => None,
        Err(e) => Some(e.to_string()),
    }
}

/// Parses `raw` and writes out its `error` field (`Value::get`, then
/// `to_string`); the contract names the result `json_error_field`.
#[verifier::external_body]
fn error_field(raw: &str) -> (r: Option<String>)
    ensures
        opt_view(r) == json_error_field(raw@),
{
    match serde_json::from_str::<serde_json::Value>(raw) {
        Ok(v) => v.get("error").map(|e| e.to_string()),
        Err(_) => None,
    }
}

/// Parses `raw` and reads `choices[0].message.content` with `Value`'s
/// indexing and `as_str`; the contract names the result `json_chat_content`.
#[verifier::external_body]
fn chat_content(raw: &str) -> (r: Option<String>)
    ensures
        opt_view(r) == json_chat_content(raw@),
{
    match serde_json::from_str::<serde_json::Value>(raw) {
        Ok(v) => v["choices"][0]["message"]["content"].as_str().map(|s| s.to_string()),
        Err(_) => None,
    }
}

/// Parses `raw` and reads `candidates[0].content.parts[0].text` with
/// `Value`'s indexing and `as_str`; the contract names the result
/// `json_gemini_text`.
#[verifier::external_body]
fn gemini_text(raw: &str) -> (r: Option<String>)
    ensures
        opt_view(r) == json_gemini_text(raw@),
{
    match serde_json::from_str::<serde_json::Value>(raw) {
        Ok(v) => v["candidates"][0]["content"]["parts"][0]["text"].as_str().map(|s| s.to_string()),
        Err(_) => None,
    }
}

/// What the kernel reads from the answer `raw` in `dialect`: the parser's
/// message when it is not JSON, else its `error` field and the text where
/// the dialect puts it.
pub open spec fn reply_json_read(r: ReplyJson, raw: Seq<char>, dialect: ReplyDialect) -> bool {
    match json_parse_failure(raw) {
        Some(m) => r matches ReplyJson::Unparsable { message } && message@ == m,
        None => r matches ReplyJson::Parsed { error, text } && opt_view(error) == json_error_field(
            raw,
        ) && opt_view(text) == match dialect {
            ReplyDialect::Chat => json_chat_content(raw),
            ReplyDialect::Gemini => json_gemini_text(raw),
        },
    }
}

/// Reads the answer `raw` in `dialect` (see `reply_json_read`).
pub fn read_reply(raw: &str, dialect: ReplyDialect) -> (r: ReplyJson)
    ensures
        reply_json_read(r, raw@, dialect),
{
    match parse_failure(raw) {
        Some(message) => ReplyJson::Unparsable { message },
        None => {
            let error = error_field(raw);
            let text = match dialect {
                ReplyDialect::Chat => chat_content(raw),
                ReplyDialect::Gemini => gemini_text(raw),
            };
            ReplyJson::Parsed { error, text }
        },
    }
}

} // verus!
