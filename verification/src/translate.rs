//! Translation between the OpenAI, Anthropic and Gemini formats: the bodies of
//! upstream requests, the bodies of upstream answers, and the events of
//! streamed answers. The conversions themselves are the `aidapter` crate's;
//! this module decides which one applies and frames what they produce.
//!
//! The conversions into the OpenAI format stamp the time into what they make:
//! what they make apart from the time stamps is named, and the answers and
//! events are stated over that name. Request bodies are written through
//! `serde_json::Value`, so that they are a function of the request received
//! and are named too; the model and `stream` members that routing sets are
//! set in the JSON object. The conversions into the Gemini and Anthropic
//! formats read neither the clock nor a hash map: their results are named,
//! and stated exactly. An answer passed on in its own
//! format is only rewritten as JSON, which is a function of its text.

use aidapter::anthropic::prefix::{AnthropicChatRequest, AnthropicChatResponse, AnthropicStreamChunk, AnthropicStreamEvent};
use aidapter::gemini::prefix::{GeminiChatRequest, GeminiChatResponse, GeminiStreamChunk};
use aidapter::openai::prefix::{OpenAIChatRequest, OpenAIChatResponse, OpenAIStreamChunk};
use vstd::prelude::*;
use vstd::utf8::encode_utf8;
use crate::config::Provider;
use crate::error::{ErrorView, ProxyError};
use crate::urls::opt_view;

verus! {

// ---------------------------------------------------------------------------
// Calls into `aidapter` and `serde_json`.
// ---------------------------------------------------------------------------

/// What `serde_json` reads as the string value of the top-level member
/// `member` of the JSON object `json`, or nothing when there is none.
pub uninterp spec fn json_string_member(json: Seq<char>, member: Seq<char>) -> Option<Seq<char>>;

/// What `serde_json` reads as the boolean value of the top-level member
/// `member` of the JSON object `json`, or nothing when it is absent or not a
/// boolean (`null` among them).
pub uninterp spec fn json_bool_member(json: Seq<char>, member: Seq<char>) -> Option<bool>;

/// The views of a list of texts, if there is one.
pub open spec fn texts_view(r: Option<Vec<String>>) -> Option<Seq<Seq<char>>> {
    match r {
        Some(v) => Some(v@.map_values(|s: String| s@)),
        None => None,
    }
}

/// The views of a list of byte strings, if there is one.
pub open spec fn parts_view(r: Option<Vec<Vec<u8>>>) -> Option<Seq<Seq<u8>>> {
    match r {
        Some(v) => Some(v@.map_values(|p: Vec<u8>| p@)),
        None => None,
    }
}

// Request bodies are written through `serde_json::Value`, whose objects keep
// their members in a `BTreeMap`: the text is then a function of the request
// alone, also where a request type holds a `HashMap` (whose own order of
// serialization varies from process to process).

/// The text `request` parsed as an OpenAI request and written as a JSON
/// value; nothing when it does not parse as one.
pub uninterp spec fn openai_request_json(request: Seq<char>) -> Option<Seq<char>>;

/// The text `request` parsed as an OpenAI request, given to
/// `AnthropicChatRequest::from` and written as a JSON value; nothing when it
/// does not parse.
pub uninterp spec fn anthropic_request_json_of_openai(request: Seq<char>) -> Option<Seq<char>>;

/// The text `request` parsed as an OpenAI request, given to
/// `GeminiChatRequest::from` and written as a JSON value; nothing when it does
/// not parse.
pub uninterp spec fn gemini_request_json_of_openai(request: Seq<char>) -> Option<Seq<char>>;

/// The text `request` parsed as a Gemini request and written as a JSON value;
/// nothing when it does not parse as one.
pub uninterp spec fn gemini_request_json(request: Seq<char>) -> Option<Seq<char>>;

/// The text `request` parsed as a Gemini request, given to
/// `OpenAIChatRequest::from` and written as a JSON value; nothing when it
/// does not parse.
pub uninterp spec fn openai_request_json_of_gemini(request: Seq<char>) -> Option<Seq<char>>;

/// The text `request` parsed as a Gemini request, given to
/// `AnthropicChatRequest::from` and written as a JSON value; nothing when it
/// does not parse.
pub uninterp spec fn anthropic_request_json_of_gemini(request: Seq<char>) -> Option<Seq<char>>;

/// `request` parsed as an OpenAI request (`serde_json::from_str`), turned
/// into a `serde_json::Value` and written. Claimed: the text is
/// `openai_request_json` of `request`, and holds the request's model as a
/// string member (the field is a `String`, always written).
#[verifier::external_body]
fn openai_request_text(request: &str) -> (r: Option<String>)
    ensures
        opt_view(r) == openai_request_json(request@),
        r matches Some(t) ==> json_string_member(t@, "model"@) is Some,
{
    let req: OpenAIChatRequest = serde_json::from_str(request).ok()?;
    serde_json::to_value(&req).ok().map(|v| v.to_string())
}

/// `AnthropicChatRequest::from` of `request` parsed as an OpenAI request,
/// turned into a `serde_json::Value` and written. Claimed: the text is
/// `anthropic_request_json_of_openai` of `request`, and holds a model as a
/// string member (the field is a `String`, always written).
#[verifier::external_body]
fn anthropic_request_from_openai(request: &str) -> (r: Option<String>)
    ensures
        opt_view(r) == anthropic_request_json_of_openai(request@),
        r matches Some(t) ==> json_string_member(t@, "model"@) is Some,
{
    let req: OpenAIChatRequest = serde_json::from_str(request).ok()?;
    serde_json::to_value(&AnthropicChatRequest::from(&req)).ok().map(|v| v.to_string())
}

/// `GeminiChatRequest::from` of `request` parsed as an OpenAI request, turned
/// into a `serde_json::Value` and written. Claimed: the text is
/// `gemini_request_json_of_openai` of `request`.
#[verifier::external_body]
fn gemini_request_from_openai(request: &str) -> (r: Option<String>)
    ensures
        opt_view(r) == gemini_request_json_of_openai(request@),
{
    let req: OpenAIChatRequest = serde_json::from_str(request).ok()?;
    serde_json::to_value(&GeminiChatRequest::from(&req)).ok().map(|v| v.to_string())
}

/// `request` parsed as a Gemini request, turned into a `serde_json::Value`
/// and written. Claimed: the text is `gemini_request_json` of `request`.
#[verifier::external_body]
fn gemini_request_text(request: &str) -> (r: Option<String>)
    ensures
        opt_view(r) == gemini_request_json(request@),
{
    let req: GeminiChatRequest = serde_json::from_str(request).ok()?;
    serde_json::to_value(&req).ok().map(|v| v.to_string())
}

/// `OpenAIChatRequest::from` of `request` parsed as a Gemini request, turned
/// into a `serde_json::Value` and written. Claimed: the text is
/// `openai_request_json_of_gemini` of `request`, and holds a model as a
/// string member (the conversion writes a placeholder model).
#[verifier::external_body]
fn openai_request_from_gemini(request: &str) -> (r: Option<String>)
    ensures
        opt_view(r) == openai_request_json_of_gemini(request@),
        r matches Some(t) ==> json_string_member(t@, "model"@) is Some,
{
    let req: GeminiChatRequest = serde_json::from_str(request).ok()?;
    serde_json::to_value(&OpenAIChatRequest::from(&req)).ok().map(|v| v.to_string())
}

/// `AnthropicChatRequest::from` of `request` parsed as a Gemini request,
/// turned into a `serde_json::Value` and written. Claimed: the text is
/// `anthropic_request_json_of_gemini` of `request`, and holds a model as a
/// string member (the conversion writes a placeholder model).
#[verifier::external_body]
fn anthropic_request_from_gemini(request: &str) -> (r: Option<String>)
    ensures
        opt_view(r) == anthropic_request_json_of_gemini(request@),
        r matches Some(t) ==> json_string_member(t@, "model"@) is Some,
{
    let req: GeminiChatRequest = serde_json::from_str(request).ok()?;
    serde_json::to_value(&AnthropicChatRequest::from(&req)).ok().map(|v| v.to_string())
}

/// The JSON object `json` with its member `member` set to the string `value`
/// (`serde_json::Map::insert`), written; nothing when `json` is not an
/// object.
pub uninterp spec fn json_with_string(json: Seq<char>, member: Seq<char>, value: Seq<char>) -> Option<Seq<char>>;

/// The JSON object `json` with its member `member` set to the boolean
/// `value` (`serde_json::Map::insert`), written; nothing when `json` is not
/// an object.
pub uninterp spec fn json_with_bool(json: Seq<char>, member: Seq<char>, value: bool) -> Option<Seq<char>>;

/// `json` parsed as a `serde_json::Value`; when it is an object, `member` is
/// inserted with the string `value` and the object written. Claimed: the
/// result is `json_with_string` of the arguments; afterwards the member reads
/// as `value` and every other string member as before; a text with a string
/// member is an object, so there is a result.
#[verifier::external_body]
fn set_string_member(json: &str, member: &str, value: &str) -> (r: Option<String>)
    ensures
        opt_view(r) == json_with_string(json@, member@, value@),
        r matches Some(t) ==> json_string_member(t@, member@) == Some(value@),
        r matches Some(t) ==> forall|k: Seq<char>|
            k != member@ ==> #[trigger] json_string_member(t@, k) == json_string_member(json@, k),
        (exists|k: Seq<char>| #[trigger] json_string_member(json@, k) is Some) ==> r is Some,
{
    match serde_json::from_str::<serde_json::Value>(json).ok()? {
        serde_json::Value::Object(mut m) => {
            m.insert(member.to_owned(), serde_json::Value::String(value.to_owned()));
            Some(serde_json::Value::Object(m).to_string())
        },
        _ => None,
    }
}

/// `json` parsed as a `serde_json::Value`; when it is an object, `member` is
/// inserted with the boolean `value` and the object written. Claimed: the
/// result is `json_with_bool` of the arguments; afterwards the member reads
/// as `value` and every other string member as before; a text with a string
/// member is an object, so there is a result.
#[verifier::external_body]
fn set_bool_member(json: &str, member: &str, value: bool) -> (r: Option<String>)
    ensures
        opt_view(r) == json_with_bool(json@, member@, value),
        r matches Some(t) ==> json_bool_member(t@, member@) == Some(value),
        r matches Some(t) ==> forall|k: Seq<char>|
            k != member@ ==> #[trigger] json_string_member(t@, k) == json_string_member(json@, k),
        (exists|k: Seq<char>| #[trigger] json_string_member(json@, k) is Some) ==> r is Some,
{
    match serde_json::from_str::<serde_json::Value>(json).ok()? {
        serde_json::Value::Object(mut m) => {
            m.insert(member.to_owned(), serde_json::Value::Bool(value));
            Some(serde_json::Value::Object(m).to_string())
        },
        _ => None,
    }
}

/// What `serde_json` gives for `body` parsed as any JSON value and written
/// back compactly, or nothing when `body` is not JSON.
pub uninterp spec fn json_rewritten(body: Seq<char>) -> Option<Seq<char>>;

/// `body` parsed as a `serde_json::Value` and written back by its `Display`;
/// `None` when it is not JSON. Claimed: the result is a function of `body`
/// alone (a JSON object's members are kept in a map whose order does not
/// depend on the process).
#[verifier::external_body]
fn json_text(body: &str) -> (r: Option<String>)
    ensures
        opt_view(r) == json_rewritten(body@),
{
    serde_json::from_str::<serde_json::Value>(body).ok().map(|v| v.to_string())
}

/// What `serde_json` writes for the JSON value that `json` parses to, with
/// its top-level member `member` left out.
pub uninterp spec fn json_without(json: Seq<char>, member: Seq<char>) -> Seq<char>;

/// A JSON text with its time stamp, the `created` member, left out.
pub open spec fn unstamped(json: Seq<char>) -> Seq<char> {
    json_without(json, "created"@)
}

/// A JSON text with its time stamps, the `created` member and the `id` made
/// from the time, left out.
pub open spec fn unstamped_id(json: Seq<char>) -> Seq<char> {
    json_without(json_without(json, "created"@), "id"@)
}

/// The input and output token counts of the Anthropic answer that `body`
/// parses to, or nothing when it does not parse as one.
pub uninterp spec fn anthropic_usage(body: Seq<char>) -> Option<(u32, u32)>;

/// The token counts of an Anthropic answer add up within a `u32`: the
/// conversions of the answer add them in a `u32` and stop with a panic on an
/// overflow. A body that is no Anthropic answer has nothing to add.
pub open spec fn anthropic_counts_fit(body: Seq<char>) -> bool {
    match anthropic_usage(body) {
        Some((i, o)) => i + o <= u32::MAX,
        None => true,
    }
}

/// `body` parsed as an Anthropic answer, and its input and output token
/// counts; `None` when it does not parse as one. Claimed: a function of
/// `body` alone.
#[verifier::external_body]
fn anthropic_usage_of(body: &str) -> (r: Option<(u32, u32)>)
    ensures
        r == anthropic_usage(body@),
{
    let resp: AnthropicChatResponse = serde_json::from_str(body).ok()?;
    Some((resp.usage.input_tokens, resp.usage.output_tokens))
}

/// What `openai_response_from_anthropic` gives for `body`, without its time
/// stamp: the OpenAI form of the Anthropic answer, serialized, with its
/// `created` member left out.
pub uninterp spec fn openai_answer_of_anthropic(body: Seq<char>) -> Option<Seq<char>>;

/// What `openai_response_from_gemini` gives for `body`, without its time
/// stamps: the OpenAI form of the Gemini answer, serialized, with its
/// `created` and `id` members left out.
pub uninterp spec fn openai_answer_of_gemini(body: Seq<char>) -> Option<Seq<char>>;

/// `body` parsed as an Anthropic answer, given to `OpenAIChatResponse::from`
/// and serialized; `None` when it does not parse. The conversion adds the
/// token counts in a `u32`, so `requires` leaves out counts whose sum
/// overflows. Claimed: apart from the `created` member, which holds the time,
/// the answer is a function of `body` alone, and there is one exactly when
/// `body` parses (the serialization does not fail).
#[verifier::external_body]
fn openai_response_from_anthropic(body: &str) -> (r: Option<String>)
    requires
        anthropic_counts_fit(body@),
    ensures
        match r {
            Some(t) => openai_answer_of_anthropic(body@) == Some(json_without(t@, "created"@)),
            None => openai_answer_of_anthropic(body@) is None,
        },
{
    let resp: AnthropicChatResponse = serde_json::from_str(body).ok()?;
    serde_json::to_string(&OpenAIChatResponse::from(&resp)).ok()
}

/// `body` parsed as a Gemini answer, given to `OpenAIChatResponse::from` and
/// serialized; `None` when it does not parse. Claimed: apart from the
/// `created` and `id` members, which are made from the time, the answer is a
/// function of `body` alone, and there is one exactly when `body` parses
/// (the serialization does not fail).
#[verifier::external_body]
fn openai_response_from_gemini(body: &str) -> (r: Option<String>)
    ensures
        match r {
            Some(t) => openai_answer_of_gemini(body@) == Some(json_without(json_without(t@, "created"@), "id"@)),
            None => openai_answer_of_gemini(body@) is None,
        },
{
    let resp: GeminiChatResponse = serde_json::from_str(body).ok()?;
    serde_json::to_string(&OpenAIChatResponse::from(&resp)).ok()
}

/// What `gemini_response_from_openai` gives for `body`.
pub uninterp spec fn gemini_answer_of_openai(body: Seq<char>) -> Option<Seq<char>>;

/// What `gemini_response_from_anthropic` gives for `body`.
pub uninterp spec fn gemini_answer_of_anthropic(body: Seq<char>) -> Option<Seq<char>>;

/// `body` parsed as an OpenAI answer, given to `GeminiChatResponse::from` and
/// serialized; `None` when it does not parse or serialize. Claimed: the
/// result is a function of `body` alone (the conversion reads neither the
/// clock nor a hash map).
#[verifier::external_body]
fn gemini_response_from_openai(body: &str) -> (r: Option<String>)
    ensures
        opt_view(r) == gemini_answer_of_openai(body@),
{
    let resp: OpenAIChatResponse = serde_json::from_str(body).ok()?;
    serde_json::to_string(&GeminiChatResponse::from(&resp)).ok()
}

/// `body` parsed as an Anthropic answer, given to `GeminiChatResponse::from`
/// and serialized; `None` when it does not parse or serialize. The
/// conversion adds the token counts in a `u32`, so `requires` leaves out
/// counts whose sum overflows. Claimed: the result is a function of `body`
/// alone (the conversion reads neither the clock nor a hash map).
#[verifier::external_body]
fn gemini_response_from_anthropic(body: &str) -> (r: Option<String>)
    requires
        anthropic_counts_fit(body@),
    ensures
        opt_view(r) == gemini_answer_of_anthropic(body@),
{
    let resp: AnthropicChatResponse = serde_json::from_str(body).ok()?;
    serde_json::to_string(&GeminiChatResponse::from(&resp)).ok()
}

/// Whether `serde_json` parses `data` as an Anthropic stream event.
pub uninterp spec fn anthropic_event_parses(data: Seq<char>) -> bool;

/// Whether `serde_json` parses `data` as a Gemini stream chunk.
pub uninterp spec fn gemini_chunk_parses(data: Seq<char>) -> bool;

/// Whether `serde_json` parses `data` as an OpenAI stream chunk.
pub uninterp spec fn openai_chunk_parses(data: Seq<char>) -> bool;

/// The chunks that the conversion of an Anthropic stream event `data`, put
/// in a chunk with `id` and `model`, makes in the OpenAI format: the JSON of
/// each, with its time stamp (`created`) left out; nothing when `data` does
/// not parse.
pub uninterp spec fn openai_chunks_of_anthropic(data: Seq<char>, id: Seq<char>, model: Seq<char>) -> Option<Seq<Seq<char>>>;

/// The chunks that the conversion of a Gemini stream chunk `data` makes in
/// the OpenAI format: the JSON of each, with its time stamps (`created` and
/// the `id` made from the time) left out; nothing when `data` does not parse.
pub uninterp spec fn openai_chunks_of_gemini(data: Seq<char>) -> Option<Seq<Seq<char>>>;

/// One server-sent event `data: <json>` whose JSON, without its time stamps
/// (`created`, and `id` too when `drop_id`), is `u`.
pub open spec fn frame_of(part: Seq<u8>, u: Seq<char>, drop_id: bool) -> bool {
    exists|json: Seq<char>| {
        &&& #[trigger] sse_frame(json) == part
        &&& (if drop_id { unstamped_id(json) } else { unstamped(json) }) == u
    }
}

/// One server-sent event per chunk of `u`, in order (see `frame_of`).
pub open spec fn parts_frame(parts: Seq<Seq<u8>>, u: Seq<Seq<char>>, drop_id: bool) -> bool {
    &&& parts.len() == u.len()
    &&& forall|i: int| 0 <= i < u.len() ==> #[trigger] frame_of(parts[i], u[i], drop_id)
}

/// `data` parsed as an Anthropic stream event, put in a chunk with `id` and
/// `model`, given to `Vec::<OpenAIStreamChunk>::from`, and each chunk written
/// out by `Vec::<u8>::from`, as `data: <json>` and a blank line; `None` when
/// `data` does not parse. Claimed: exactly then, and apart from each chunk's
/// `created` member, which holds the time, the chunks are a function of
/// `data`, `id` and `model` alone (the serialization does not fail).
#[verifier::external_body]
fn openai_chunks_from_anthropic(data: &str, id: &str, model: &str) -> (r: Option<Vec<Vec<u8>>>)
    ensures
        r is Some <==> anthropic_event_parses(data@),
        match r {
            None => openai_chunks_of_anthropic(data@, id@, model@) is None,
            Some(parts) => openai_chunks_of_anthropic(data@, id@, model@) matches Some(u)
                && parts_frame(parts@.map_values(|p: Vec<u8>| p@), u, false),
        },
{
    let event: AnthropicStreamEvent = serde_json::from_str(data).ok()?;
    let chunk = AnthropicStreamChunk { id: id.to_owned(), model: model.to_owned(), event };
    Some(Vec::<OpenAIStreamChunk>::from(&chunk).iter().map(Vec::<u8>::from).collect())
}

/// `data` parsed as a Gemini stream chunk, given to
/// `Vec::<OpenAIStreamChunk>::from`, and each chunk written out by
/// `Vec::<u8>::from`, as `data: <json>` and a blank line; `None` when `data`
/// does not parse. Claimed: exactly then, and apart from each chunk's
/// `created` and `id` members, which are made from the time, the chunks are
/// a function of `data` alone (the serialization does not fail).
#[verifier::external_body]
fn openai_chunks_from_gemini(data: &str) -> (r: Option<Vec<Vec<u8>>>)
    ensures
        r is Some <==> gemini_chunk_parses(data@),
        match r {
            None => openai_chunks_of_gemini(data@) is None,
            Some(parts) => openai_chunks_of_gemini(data@) matches Some(u)
                && parts_frame(parts@.map_values(|p: Vec<u8>| p@), u, true),
        },
{
    let chunk: GeminiStreamChunk = serde_json::from_str(data).ok()?;
    Some(Vec::<OpenAIStreamChunk>::from(&chunk).iter().map(Vec::<u8>::from).collect())
}

/// What `gemini_chunks_from_openai` gives for `data`.
pub uninterp spec fn gemini_chunks_of_openai(data: Seq<char>) -> Option<Seq<Seq<char>>>;

/// What `gemini_chunks_from_anthropic` gives for `data`, `id` and `model`.
pub uninterp spec fn gemini_chunks_of_anthropic(data: Seq<char>, id: Seq<char>, model: Seq<char>) -> Option<Seq<Seq<char>>>;

/// What `anthropic_chunks_from_openai` gives for `data`.
pub uninterp spec fn anthropic_chunks_of_openai(data: Seq<char>) -> Option<Seq<Seq<u8>>>;

/// `data` parsed as an OpenAI stream chunk, given to
/// `Vec::<GeminiStreamChunk>::from`, and each chunk serialized (the empty text
/// when that fails); `None` when `data` does not parse. Claimed: exactly
/// then, and the result is a function of `data` alone (the conversion reads
/// neither the clock nor a hash map).
#[verifier::external_body]
fn gemini_chunks_from_openai(data: &str) -> (r: Option<Vec<String>>)
    ensures
        r is Some <==> openai_chunk_parses(data@),
        texts_view(r) == gemini_chunks_of_openai(data@),
{
    let chunk: OpenAIStreamChunk = serde_json::from_str(data).ok()?;
    Some(Vec::<GeminiStreamChunk>::from(&chunk).iter().map(|c| serde_json::to_string(c).unwrap_or_default()).collect())
}

/// `data` parsed as an Anthropic stream event, put in a chunk with `id` and
/// `model`, given to `Vec::<GeminiStreamChunk>::from`, and each chunk
/// serialized (the empty text when that fails); `None` when `data` does not
/// parse. Claimed: exactly then, and the result is a function of `data`,
/// `id` and `model` alone (the conversion reads neither the clock nor a hash
/// map).
#[verifier::external_body]
fn gemini_chunks_from_anthropic(data: &str, id: &str, model: &str) -> (r: Option<Vec<String>>)
    ensures
        r is Some <==> anthropic_event_parses(data@),
        texts_view(r) == gemini_chunks_of_anthropic(data@, id@, model@),
{
    let event: AnthropicStreamEvent = serde_json::from_str(data).ok()?;
    let chunk = AnthropicStreamChunk { id: id.to_owned(), model: model.to_owned(), event };
    Some(Vec::<GeminiStreamChunk>::from(&chunk).iter().map(|c| serde_json::to_string(c).unwrap_or_default()).collect())
}

/// What `anthropic_response_from_openai` gives for `body`: the Anthropic form
/// of the OpenAI answer that `body` parses to, serialized, or nothing when it
/// does not parse.
pub uninterp spec fn anthropic_answer_of_openai(body: Seq<char>) -> Option<Seq<char>>;

/// `body` parsed as an OpenAI answer, given to `AnthropicChatResponse::from`
/// and serialized; `None` when it does not parse. Claimed: the result is a
/// function of `body` alone (the conversion reads neither the clock nor a
/// hash map, and JSON objects keep their members in an ordered map).
#[verifier::external_body]
fn anthropic_response_from_openai(body: &str) -> (r: Option<String>)
    ensures
        opt_view(r) == anthropic_answer_of_openai(body@),
{
    let resp: OpenAIChatResponse = serde_json::from_str(body).ok()?;
    serde_json::to_string(&AnthropicChatResponse::from(&resp)).ok()
}

/// `data` parsed as an OpenAI stream chunk, given to
/// `Vec::<AnthropicStreamChunk>::from`, and each chunk written out by
/// `Vec::<u8>::from`; `None` when `data` does not parse. Claimed: exactly
/// then, and the result is a function of `data` alone (the conversion reads
/// neither the clock nor a hash map).
#[verifier::external_body]
fn anthropic_chunks_from_openai(data: &str) -> (r: Option<Vec<Vec<u8>>>)
    ensures
        r is Some <==> openai_chunk_parses(data@),
        parts_view(r) == anthropic_chunks_of_openai(data@),
{
    let chunk: OpenAIStreamChunk = serde_json::from_str(data).ok()?;
    Some(Vec::<AnthropicStreamChunk>::from(&chunk).iter().map(Vec::<u8>::from).collect())
}

// ---------------------------------------------------------------------------
// Request bodies.
// ---------------------------------------------------------------------------

/// A converted request body with its model set to `model`.
pub open spec fn with_model(converted: Option<Seq<char>>, model: Seq<char>) -> Option<Seq<char>> {
    match converted {
        Some(t) => json_with_string(t, "model"@, model),
        None => None,
    }
}

/// A request body marked as streamed when `streaming`; as it is otherwise.
pub open spec fn with_stream(body: Option<Seq<char>>, streaming: bool) -> Option<Seq<char>> {
    match body {
        Some(t) => if streaming { json_with_bool(t, "stream"@, true) } else { Some(t) },
        None => None,
    }
}

/// The body of the upstream request for the request `request` received in
/// the OpenAI format, sent to a provider of kind `kind` for `model`: the
/// request itself with its model set to `model`, or its Anthropic form with
/// its model set to `model`, or its Gemini form (which names no model; the
/// model goes in the address).
pub open spec fn openai_body(kind: Provider, request: Seq<char>, model: Seq<char>) -> Option<Seq<char>> {
    match kind {
        Provider::OpenAI => with_model(openai_request_json(request), model),
        Provider::Anthropic => with_model(anthropic_request_json_of_openai(request), model),
        Provider::Gemini => gemini_request_json_of_openai(request),
    }
}

/// The body of the upstream request for the request `request` received in
/// the Gemini format, sent to a provider of kind `kind` for `model`: the
/// request itself, or its OpenAI or Anthropic form with its model set to
/// `model` and, when `streaming`, its `stream` member set to `true`.
pub open spec fn gemini_body(kind: Provider, request: Seq<char>, model: Seq<char>, streaming: bool) -> Option<Seq<char>> {
    match kind {
        Provider::OpenAI => with_stream(with_model(openai_request_json_of_gemini(request), model), streaming),
        Provider::Anthropic => with_stream(with_model(anthropic_request_json_of_gemini(request), model), streaming),
        Provider::Gemini => gemini_request_json(request),
    }
}

/// The text of a request received in the OpenAI format, parsed by the
/// conversion that applies to a provider of kind `kind`.
pub open spec fn openai_request_parses(kind: Provider, request: Seq<char>) -> bool {
    match kind {
        Provider::OpenAI => openai_request_json(request) is Some,
        Provider::Anthropic => anthropic_request_json_of_openai(request) is Some,
        Provider::Gemini => gemini_request_json_of_openai(request) is Some,
    }
}

/// The text of a request received in the Gemini format, parsed by the
/// conversion that applies to a provider of kind `kind`.
pub open spec fn gemini_request_parses(kind: Provider, request: Seq<char>) -> bool {
    match kind {
        Provider::OpenAI => openai_request_json_of_gemini(request) is Some,
        Provider::Anthropic => anthropic_request_json_of_gemini(request) is Some,
        Provider::Gemini => gemini_request_json(request) is Some,
    }
}

/// Sets the model of a converted request body that holds a model.
fn set_model(converted: Option<String>, model: &str) -> (r: Option<String>)
    requires
        converted matches Some(t) ==> json_string_member(t@, "model"@) is Some,
    ensures
        opt_view(r) == with_model(opt_view(converted), model@),
        r is Some <==> converted is Some,
        r matches Some(t) ==> json_string_member(t@, "model"@) == Some(model@),
{
    match converted {
        Some(t) => {
            let r = set_string_member(t.as_str(), "model", model);
            proof {
                reveal_strlit("model");
                assert(json_string_member(t@, "model"@) is Some);
            }
            r
        },
        None => None,
    }
}

/// The body of the upstream request for the request `request` received in
/// the OpenAI format (as JSON text), sent to a provider of kind `kind` for
/// `model` (see `openai_body`); nothing when the request does not parse.
pub fn openai_request_body(kind: Provider, request: &str, model: &str) -> (r: Option<String>)
    ensures
        opt_view(r) == openai_body(kind, request@, model@),
        r is Some <==> openai_request_parses(kind, request@),
        kind != Provider::Gemini && r is Some ==> json_string_member(r->0@, "model"@) == Some(model@),
{
    match kind {
        Provider::OpenAI => set_model(openai_request_text(request), model),
        Provider::Anthropic => set_model(anthropic_request_from_openai(request), model),
        Provider::Gemini => gemini_request_from_openai(request),
    }
}

/// Marks a request body that holds a model as streamed when `streaming`.
fn set_stream(body: Option<String>, streaming: bool) -> (r: Option<String>)
    requires
        body matches Some(t) ==> json_string_member(t@, "model"@) is Some,
    ensures
        opt_view(r) == with_stream(opt_view(body), streaming),
        r is Some <==> body is Some,
        body matches Some(t) ==> (r matches Some(u)
            && json_string_member(u@, "model"@) == json_string_member(t@, "model"@)),
        streaming && r is Some ==> json_bool_member(r->0@, "stream"@) == Some(true),
{
    match body {
        Some(t) => {
            if streaming {
                let r = set_bool_member(t.as_str(), "stream", true);
                proof {
                    reveal_strlit("model");
                    reveal_strlit("stream");
                    assert(json_string_member(t@, "model"@) is Some);
                    assert("model"@[0] != "stream"@[0]);
                }
                r
            } else {
                Some(t)
            }
        },
        None => None,
    }
}

/// The body of the upstream request for the request `request` received in
/// the Gemini format (as JSON text), sent to a provider of kind `kind` for
/// `model` (see `gemini_body`); nothing when the request does not parse.
pub fn gemini_request_body(kind: Provider, request: &str, model: &str, streaming: bool) -> (r: Option<String>)
    ensures
        opt_view(r) == gemini_body(kind, request@, model@, streaming),
        r is Some <==> gemini_request_parses(kind, request@),
        kind != Provider::Gemini && r is Some ==> json_string_member(r->0@, "model"@) == Some(model@),
        kind != Provider::Gemini && streaming && r is Some ==> json_bool_member(r->0@, "stream"@) == Some(true),
{
    match kind {
        Provider::OpenAI => set_stream(set_model(openai_request_from_gemini(request), model), streaming),
        Provider::Anthropic => set_stream(set_model(anthropic_request_from_gemini(request), model), streaming),
        Provider::Gemini => gemini_request_text(request),
    }
}

// ---------------------------------------------------------------------------
// Answer bodies.
// ---------------------------------------------------------------------------

/// The error when an upstream answer cannot be read.
pub open spec fn unreadable_answer() -> ErrorView {
    ErrorView::Internal("Failed to parse response"@)
}

/// The answer text, or the error when there is none.
pub fn answer_or_error(converted: Option<String>) -> (r: Result<String, ProxyError>)
    ensures
        match converted {
            Some(t) => r == Ok::<String, ProxyError>(t),
            None => r matches Err(e) && e@ == unreadable_answer(),
        },
{
    match converted {
        Some(t) => Ok(t),
        None => Err(ProxyError::Internal("Failed to parse response".to_owned())),
    }
}

/// The answer for a converted answer: the text, or the error when there is
/// none.
pub open spec fn answer_of(converted: Option<Seq<char>>) -> Result<Seq<char>, ErrorView> {
    match converted {
        Some(t) => Ok(t),
        None => Err(unreadable_answer()),
    }
}

/// The answer given for an upstream answer in the requested format: the body
/// written back as JSON, or the error when it is not JSON.
pub open spec fn rewritten_answer(body: Seq<char>) -> Result<Seq<char>, ErrorView> {
    match json_rewritten(body) {
        Some(t) => Ok(t),
        None => Err(unreadable_answer()),
    }
}

/// The view of an answer or its error.
pub open spec fn answer_view(r: Result<String, ProxyError>) -> Result<Seq<char>, ErrorView> {
    match r {
        Ok(t) => Ok(t@),
        Err(e) => Err(e@),
    }
}

/// What an answer in the OpenAI format to an upstream answer `body` of a
/// provider of kind `kind` is: the body rewritten as JSON, or its OpenAI
/// form, which is, apart from its time stamps, the named conversion; the
/// error `Failed to parse response` when the body is not such an answer.
pub open spec fn is_openai_answer(kind: Provider, body: Seq<char>, r: Result<String, ProxyError>) -> bool {
    &&& r matches Err(e) ==> e@ == unreadable_answer()
    &&& kind == Provider::OpenAI ==> answer_view(r) == rewritten_answer(body)
    &&& kind == Provider::Anthropic ==> match openai_answer_of_anthropic(body) {
        None => r is Err,
        Some(u) => r matches Ok(t) && unstamped(t@) == u,
    }
    &&& kind == Provider::Gemini ==> match openai_answer_of_gemini(body) {
        None => r is Err,
        Some(u) => r matches Ok(t) && unstamped_id(t@) == u,
    }
}

/// Whether an upstream answer `body` of a provider of kind `kind` can be
/// converted: an Anthropic answer's token counts must add up within a `u32`.
pub open spec fn answer_convertible(kind: Provider, body: Seq<char>) -> bool {
    kind == Provider::Anthropic ==> anthropic_counts_fit(body)
}

/// Whether an upstream answer `body` of a provider of kind `kind` can be
/// converted (see `answer_convertible`).
pub fn answer_counts_fit(kind: Provider, body: &str) -> (b: bool)
    ensures
        b == answer_convertible(kind, body@),
{
    match kind {
        Provider::Anthropic => match anthropic_usage_of(body) {
            Some((i, o)) => i <= u32::MAX - o,
            None => true,
        },
        _ => true,
    }
}

/// The answer, in the OpenAI format, to an upstream answer `body` of a
/// provider of kind `kind` (see `is_openai_answer`).
pub fn openai_answer(kind: Provider, body: &str) -> (r: Result<String, ProxyError>)
    requires
        answer_convertible(kind, body@),
    ensures
        is_openai_answer(kind, body@, r),
{
    let converted = match kind {
        Provider::OpenAI => json_text(body),
        Provider::Anthropic => openai_response_from_anthropic(body),
        Provider::Gemini => openai_response_from_gemini(body),
    };
    answer_or_error(converted)
}

/// The answer, in the OpenAI format, to an upstream answer `body` of a
/// provider of kind `kind` (see `is_openai_answer`), or nothing when its
/// token counts do not add up within a `u32`.
pub fn openai_answer_checked(kind: Provider, body: &str) -> (r: Option<Result<String, ProxyError>>)
    ensures
        r is None <==> !answer_convertible(kind, body@),
        r matches Some(a) ==> is_openai_answer(kind, body@, a),
{
    if answer_counts_fit(kind, body) {
        Some(openai_answer(kind, body))
    } else {
        None
    }
}

/// The answer, in the Anthropic format, to an upstream answer `body` in the
/// OpenAI format: its Anthropic form. The error `Failed to parse response`
/// when the body is not such an answer.
pub fn anthropic_answer_from_openai(body: &str) -> (r: Result<String, ProxyError>)
    ensures
        answer_view(r) == (match anthropic_answer_of_openai(body@) {
            Some(t) => Ok(t),
            None => Err(unreadable_answer()),
        }),
{
    answer_or_error(anthropic_response_from_openai(body))
}

/// What an answer in the Gemini format to an upstream answer `body` of a
/// provider of kind `kind` is: its Gemini form, or the body rewritten as
/// JSON; the error `Failed to parse response` when the body is not such an
/// answer.
pub open spec fn is_gemini_answer(kind: Provider, body: Seq<char>, r: Result<String, ProxyError>) -> bool {
    &&& kind == Provider::Gemini ==> answer_view(r) == rewritten_answer(body)
    &&& kind == Provider::OpenAI ==> answer_view(r) == answer_of(gemini_answer_of_openai(body))
    &&& kind == Provider::Anthropic ==> answer_view(r) == answer_of(gemini_answer_of_anthropic(body))
}

/// The answer, in the Gemini format, to an upstream answer `body` of a
/// provider of kind `kind` (see `is_gemini_answer`).
pub fn gemini_answer(kind: Provider, body: &str) -> (r: Result<String, ProxyError>)
    requires
        answer_convertible(kind, body@),
    ensures
        is_gemini_answer(kind, body@, r),
{
    let converted = match kind {
        Provider::OpenAI => gemini_response_from_openai(body),
        Provider::Anthropic => gemini_response_from_anthropic(body),
        Provider::Gemini => json_text(body),
    };
    answer_or_error(converted)
}

/// The answer, in the Gemini format, to an upstream answer `body` of a
/// provider of kind `kind` (see `is_gemini_answer`), or nothing when its
/// token counts do not add up within a `u32`.
pub fn gemini_answer_checked(kind: Provider, body: &str) -> (r: Option<Result<String, ProxyError>>)
    ensures
        r is None <==> !answer_convertible(kind, body@),
        r matches Some(a) ==> is_gemini_answer(kind, body@, a),
{
    if answer_counts_fit(kind, body) {
        Some(gemini_answer(kind, body))
    } else {
        None
    }
}

// ---------------------------------------------------------------------------
// Streamed events.
// ---------------------------------------------------------------------------

/// The data of the event that ends an upstream stream.
pub open spec fn is_done_marker(data: Seq<char>) -> bool {
    data == "[DONE]"@
}

/// Byte strings one after another.
pub open spec fn joined(parts: Seq<Seq<u8>>) -> Seq<u8>
    decreases parts.len(),
{
    if parts.len() == 0 { Seq::empty() } else { joined(parts.drop_last()) + parts.last() }
}

/// One server-sent event carrying `json`: `data: <json>` and a blank line.
pub open spec fn sse_frame(json: Seq<char>) -> Seq<u8> {
    encode_utf8("data: "@) + encode_utf8(json) + encode_utf8("\n\n"@)
}

/// One server-sent event per text, one after another.
pub open spec fn sse_frames(jsons: Seq<Seq<char>>) -> Seq<u8>
    decreases jsons.len(),
{
    if jsons.len() == 0 { Seq::empty() } else { sse_frames(jsons.drop_last()) + sse_frame(jsons.last()) }
}

/// The event that ends a stream in the OpenAI format.
pub open spec fn openai_done_event() -> Seq<u8> {
    encode_utf8("data: [DONE]\n\n"@)
}

fn is_done(data: &str) -> (b: bool)
    ensures
        b == is_done_marker(data@),
{
    data.to_owned() == "[DONE]".to_owned()
}

fn push_text(out: &mut Vec<u8>, s: &str)
    ensures
        final(out)@ == old(out)@ + encode_utf8(s@),
{
    let mut bytes = s.as_bytes_vec();
    out.append(&mut bytes);
}

/// The byte strings one after another.
pub fn join_parts(parts: &Vec<Vec<u8>>) -> (out: Vec<u8>)
    ensures
        out@ == joined(parts@.map_values(|p: Vec<u8>| p@)),
{
    let ghost views = parts@.map_values(|p: Vec<u8>| p@);
    let mut out: Vec<u8> = Vec::new();
    let mut i: usize = 0;
    while i < parts.len()
        invariant
            i <= parts@.len(),
            views == parts@.map_values(|p: Vec<u8>| p@),
            out@ == joined(views.take(i as int)),
        decreases parts@.len() - i,
    {
        let part = &parts[i];
        let ghost before = out@;
        let mut j: usize = 0;
        while j < part.len()
            invariant
                j <= part@.len(),
                out@ == before + part@.take(j as int),
            decreases part@.len() - j,
        {
            out.push(part[j]);
            proof { assert(part@.take(j + 1) =~= part@.take(j as int).push(part@[j as int])); }
            j += 1;
        }
        proof {
            assert(part@.take(part@.len() as int) =~= part@);
            assert(views.take(i + 1).drop_last() =~= views.take(i as int));
        }
        i += 1;
    }
    proof { assert(views.take(parts@.len() as int) =~= views); }
    out
}

/// One server-sent event per text, one after another.
pub fn frame_events(jsons: &Vec<String>) -> (out: Vec<u8>)
    ensures
        out@ == sse_frames(jsons@.map_values(|s: String| s@)),
{
    let ghost views = jsons@.map_values(|s: String| s@);
    let mut out: Vec<u8> = Vec::new();
    let mut i: usize = 0;
    while i < jsons.len()
        invariant
            i <= jsons@.len(),
            views == jsons@.map_values(|s: String| s@),
            out@ == sse_frames(views.take(i as int)),
        decreases jsons@.len() - i,
    {
        let ghost before = out@;
        push_text(&mut out, "data: ");
        push_text(&mut out, jsons[i].as_str());
        push_text(&mut out, "\n\n");
        proof {
            assert(out@ =~= before + sse_frame(views[i as int]));
            assert(views.take(i + 1).drop_last() =~= views.take(i as int));
        }
        i += 1;
    }
    proof { assert(views.take(jsons@.len() as int) =~= views); }
    out
}

/// What an upstream stream event with data `data` becomes, given the event's
/// conversion `converted` to chunks that are written out whole (one byte
/// string per chunk, or `None` when the data does not parse): nothing for the
/// end marker or for data that does not parse, else the chunks one after
/// another.
pub fn joined_event_output(data: &str, converted: Option<Vec<Vec<u8>>>) -> (r: Option<Vec<u8>>)
    ensures
        is_done_marker(data@) ==> r is None,
        !is_done_marker(data@) ==> match converted {
            None => r is None,
            Some(parts) => r matches Some(out) && out@ == joined(parts@.map_values(|p: Vec<u8>| p@)),
        },
{
    if is_done(data) {
        return None;
    }
    match converted {
        None => None,
        Some(parts) => Some(join_parts(&parts)),
    }
}

/// One server-sent event per chunk of `u`, one after another (see
/// `frame_of`).
pub open spec fn frames_of(out: Seq<u8>, u: Seq<Seq<char>>, drop_id: bool) -> bool {
    exists|parts: Seq<Seq<u8>>| #[trigger] joined(parts) == out && parts_frame(parts, u, drop_id)
}

/// The id that chunks converted from Anthropic events carry in the OpenAI
/// format.
pub open spec fn openai_chunk_id() -> Seq<char> {
    "chatcmpl-anthropic"@
}

/// What an event of an Anthropic stream becomes in the OpenAI format: nothing
/// for the end marker or for data that does not parse; else the event is
/// handed to the conversion with the id `chatcmpl-anthropic` and the model
/// `model`, and each chunk it makes becomes one server-sent event, in order.
pub fn openai_event_from_anthropic(data: &str, model: &str) -> (r: Option<Vec<u8>>)
    ensures
        r is Some <==> !is_done_marker(data@) && anthropic_event_parses(data@),
        !is_done_marker(data@) ==> match openai_chunks_of_anthropic(data@, openai_chunk_id(), model@) {
            None => r is None,
            Some(u) => r matches Some(out) && frames_of(out@, u, false),
        },
{
    if is_done(data) {
        return None;
    }
    let id = "chatcmpl-anthropic";
    let converted = openai_chunks_from_anthropic(data, id, model);
    let ghost cv = converted;
    let r = joined_event_output(data, converted);
    proof {
        assert(id@ == openai_chunk_id());
        if r is Some {
            let parts = cv->0@.map_values(|p: Vec<u8>| p@);
            assert(joined(parts) == r->0@);
        }
    }
    r
}

/// What an event of a Gemini stream becomes in the OpenAI format: the end
/// marker is passed on as the OpenAI end event; other data as the chunks of
/// its conversion, one server-sent event each, in order, or nothing when it
/// does not parse.
pub fn openai_event_from_gemini(data: &str) -> (r: Option<Vec<u8>>)
    ensures
        is_done_marker(data@) ==> (r matches Some(out) && out@ == openai_done_event()),
        !is_done_marker(data@) ==> (r is Some <==> gemini_chunk_parses(data@)),
        !is_done_marker(data@) ==> match openai_chunks_of_gemini(data@) {
            None => r is None,
            Some(u) => r matches Some(out) && frames_of(out@, u, true),
        },
{
    if is_done(data) {
        return Some("data: [DONE]\n\n".as_bytes_vec());
    }
    let converted = openai_chunks_from_gemini(data);
    let ghost cv = converted;
    let r = joined_event_output(data, converted);
    proof {
        if r is Some {
            let parts = cv->0@.map_values(|p: Vec<u8>| p@);
            assert(joined(parts) == r->0@);
        }
    }
    r
}

/// What an upstream stream event with data `data` becomes, given the event's
/// conversion `converted` to chunks given as JSON text (or `None` when the
/// data does not parse): nothing for the end marker or for data that does not
/// parse, else one server-sent event per chunk.
pub fn framed_event_output(data: &str, converted: Option<Vec<String>>) -> (r: Option<Vec<u8>>)
    ensures
        is_done_marker(data@) ==> r is None,
        !is_done_marker(data@) ==> match converted {
            None => r is None,
            Some(jsons) => r matches Some(out) && out@ == sse_frames(jsons@.map_values(|s: String| s@)),
        },
{
    if is_done(data) {
        return None;
    }
    match converted {
        None => None,
        Some(jsons) => Some(frame_events(&jsons)),
    }
}

/// What an event of an OpenAI stream becomes in the Gemini format: nothing
/// for the end marker or for data that does not parse, else one server-sent
/// event per Gemini chunk of its conversion.
pub fn gemini_event_from_openai(data: &str) -> (r: Option<Vec<u8>>)
    ensures
        r is Some <==> !is_done_marker(data@) && openai_chunk_parses(data@),
        !is_done_marker(data@) ==> match gemini_chunks_of_openai(data@) {
            None => r is None,
            Some(jsons) => r matches Some(out) && out@ == sse_frames(jsons),
        },
{
    if is_done(data) {
        return None;
    }
    let converted = gemini_chunks_from_openai(data);
    framed_event_output(data, converted)
}

/// The id that chunks converted from Anthropic events carry in the Gemini
/// format.
pub open spec fn gemini_chunk_id() -> Seq<char> {
    "msg_anthropic"@
}

/// What an event of an Anthropic stream becomes in the Gemini format: nothing
/// for the end marker or for data that does not parse, else one server-sent
/// event per Gemini chunk of its conversion with the id `msg_anthropic` and
/// the model `model`.
pub fn gemini_event_from_anthropic(data: &str, model: &str) -> (r: Option<Vec<u8>>)
    ensures
        r is Some <==> !is_done_marker(data@) && anthropic_event_parses(data@),
        !is_done_marker(data@) ==> match gemini_chunks_of_anthropic(data@, gemini_chunk_id(), model@) {
            None => r is None,
            Some(jsons) => r matches Some(out) && out@ == sse_frames(jsons),
        },
{
    if is_done(data) {
        return None;
    }
    let id = "msg_anthropic";
    let converted = gemini_chunks_from_anthropic(data, id, model);
    proof { assert(id@ == gemini_chunk_id()); }
    framed_event_output(data, converted)
}

/// What an event of an OpenAI stream becomes in the Anthropic format: nothing
/// for the end marker or for data that does not parse, else the Anthropic
/// events of its conversion one after another.
pub fn anthropic_event_from_openai(data: &str) -> (r: Option<Vec<u8>>)
    ensures
        r is Some <==> !is_done_marker(data@) && openai_chunk_parses(data@),
        !is_done_marker(data@) ==> match anthropic_chunks_of_openai(data@) {
            None => r is None,
            Some(parts) => r matches Some(out) && out@ == joined(parts),
        },
{
    if is_done(data) {
        return None;
    }
    let converted = anthropic_chunks_from_openai(data);
    joined_event_output(data, converted)
}

/// Whether an upstream stream of a provider of kind `kind` is passed on as it
/// is to a client that asked in the format `format`: when the two are the
/// same.
pub fn passes_through(kind: Provider, format: Provider) -> (b: bool)
    ensures
        b == (kind == format),
{
    kind == format
}

/// What an event of an upstream stream of a provider of kind `kind` (not the
/// OpenAI kind, whose stream is passed on) becomes in the OpenAI format, for a
/// route to `model` (see `openai_event_from_anthropic` and
/// `openai_event_from_gemini`).
pub fn openai_event(kind: Provider, data: &str, model: &str) -> (r: Option<Vec<u8>>)
    requires
        kind != Provider::OpenAI,
    ensures
        kind == Provider::Anthropic ==> {
            &&& (r is Some <==> !is_done_marker(data@) && anthropic_event_parses(data@))
            &&& (!is_done_marker(data@) ==> match openai_chunks_of_anthropic(data@, openai_chunk_id(), model@) {
                None => r is None,
                Some(u) => r matches Some(out) && frames_of(out@, u, false),
            })
        },
        kind == Provider::Gemini ==> {
            &&& (is_done_marker(data@) ==> (r matches Some(out) && out@ == openai_done_event()))
            &&& (!is_done_marker(data@) ==> (r is Some <==> gemini_chunk_parses(data@)))
            &&& (!is_done_marker(data@) ==> match openai_chunks_of_gemini(data@) {
                None => r is None,
                Some(u) => r matches Some(out) && frames_of(out@, u, true),
            })
        },
{
    match kind {
        Provider::Anthropic => openai_event_from_anthropic(data, model),
        _ => openai_event_from_gemini(data),
    }
}

/// What an event of an upstream stream of a provider of kind `kind` (not the
/// Gemini kind, whose stream is passed on) becomes in the Gemini format, for
/// a route to `model` (see `gemini_event_from_openai` and
/// `gemini_event_from_anthropic`).
pub fn gemini_event(kind: Provider, data: &str, model: &str) -> (r: Option<Vec<u8>>)
    requires
        kind != Provider::Gemini,
    ensures
        r is Some <==> !is_done_marker(data@) && (if kind == Provider::OpenAI {
            openai_chunk_parses(data@)
        } else {
            anthropic_event_parses(data@)
        }),
        !is_done_marker(data@) ==> match (if kind == Provider::OpenAI {
            gemini_chunks_of_openai(data@)
        } else {
            gemini_chunks_of_anthropic(data@, gemini_chunk_id(), model@)
        }) {
            None => r is None,
            Some(jsons) => r matches Some(out) && out@ == sse_frames(jsons),
        },
{
    match kind {
        Provider::OpenAI => gemini_event_from_openai(data),
        _ => gemini_event_from_anthropic(data, model),
    }
}

} // verus!
