//! One run of the assistant: its errors and its decisions.

use crate::config::{env_lookup, lookup_env, DEFAULT_MAX_TOKENS, OPEN_ROUTER_URL};
use crate::json::{json_error_text, json_string_literal, to_json_string};
use crate::text::{append_decimal, decimal};
use vstd::prelude::*;
use vstd::string::StringExecFns;

verus! {

/// Why a run ended without success.
#[derive(Debug, Clone, PartialEq, Eq)]
pub enum LlmpalError {
    /// No credential: neither the model's profile nor the environment has one.
    ApiKeyMissing,
    /// The request could not be turned into JSON.
    SerializeError(String),
    /// The request could not be sent, or the answer was not a success.
    NetworkError(String),
    /// The answer lacks the reply, or the reply ends inside a file section.
    ParseError(String),
    /// A file could not be read or written, or the reply names a file that is
    /// not allowed.
    FileError(String),
}

/// An error as a mathematical value.
pub enum ErrorView {
    ApiKeyMissing,
    SerializeError(Seq<char>),
    NetworkError(Seq<char>),
    ParseError(Seq<char>),
    FileError(Seq<char>),
}

impl View for LlmpalError {
    type V = ErrorView;

    open spec fn view(&self) -> ErrorView {
        match self {
            LlmpalError::ApiKeyMissing => ErrorView::ApiKeyMissing,
            LlmpalError::SerializeError(e) => ErrorView::SerializeError(e@),
            LlmpalError::NetworkError(e) => ErrorView::NetworkError(e@),
            LlmpalError::ParseError(e) => ErrorView::ParseError(e@),
            LlmpalError::FileError(e) => ErrorView::FileError(e@),
        }
    }
}

impl LlmpalError {
    /// The text of the error.
    pub open spec fn message_spec(self) -> Seq<char> {
        match self {
            LlmpalError::ApiKeyMissing => "Missing OPENROUTER_API_KEY env variable"@,
            LlmpalError::SerializeError(e) => "Failed to serialize JSON: "@ + e@,
            LlmpalError::NetworkError(e) => e@,
            LlmpalError::ParseError(e) => e@,
            LlmpalError::FileError(e) => e@,
        }
    }

    /// The text of the error, as it is shown to the user.
    pub fn message(&self) -> (text: String)
        ensures
            text@ == self.message_spec(),
    {
        match self {
            LlmpalError::ApiKeyMissing => String::from_str(
                "Missing OPENROUTER_API_KEY env variable",
            ),
            LlmpalError::SerializeError(e) => {
                let mut text = String::from_str("Failed to serialize JSON: ");
                text.append(e.as_str());
                text
            },
            LlmpalError::NetworkError(e) => e.clone(),
            LlmpalError::ParseError(e) => e.clone(),
            LlmpalError::FileError(e) => e.clone(),
        }
    }
}

/// The `provider` member of a request, with the comma before it; nothing
/// where no provider is pinned and the endpoint is not the default one.
/// `only` restricts routing to the pinned provider; `data_collection` denies
/// data retention and goes to the default endpoint only.
pub open spec fn provider_member(provider: Option<Seq<char>>, is_default_api_url: bool) -> Seq<
    char,
> {
    match provider {
        Some(name) => if is_default_api_url {
            ",\"provider\":{\"data_collection\":\"deny\",\"only\":["@ + name + "]}"@
        } else {
            ",\"provider\":{\"only\":["@ + name + "]}"@
        },
        None => if is_default_api_url {
            ",\"provider\":{\"data_collection\":\"deny\"}"@
        } else {
            Seq::empty()
        },
    }
}

/// The body of a request: a JSON object with the token ceiling, the system
/// and the user message, the model, and the provider where there is one.
/// The strings come as JSON string literals; the members stand in the order
/// of their keys.
pub open spec fn request_json(
    model: Seq<char>,
    max_tokens: nat,
    system_prompt: Seq<char>,
    user_prompt: Seq<char>,
    provider: Option<Seq<char>>,
    is_default_api_url: bool,
) -> Seq<char> {
    "{\"max_tokens\":"@ + decimal(max_tokens) + ",\"messages\":[{\"content\":"@ + system_prompt
        + ",\"role\":\"system\"},{\"content\":"@ + user_prompt
        + ",\"role\":\"user\"}],\"model\":"@ + model + provider_member(
        provider,
        is_default_api_url,
    ) + "}"@
}

/// The JSON string literal of an optional string.
pub open spec fn optional_literal(s: Option<&str>) -> Option<Seq<char>> {
    match s {
        Some(s) => Some(json_string_literal(s@)),
        None => None,
    }
}

/// The view of an optional string.
pub open spec fn optional_view(s: Option<&str>) -> Option<Seq<char>> {
    match s {
        Some(s) => Some(s@),
        None => None,
    }
}

/// Puts a request together from its parts, the strings given as JSON string
/// literals.
pub fn assemble_request(
    model: &str,
    max_tokens: usize,
    system_prompt: &str,
    user_prompt: &str,
    provider: Option<&str>,
    is_default_api_url: bool,
) -> (body: String)
    ensures
        body@ == request_json(
            model@,
            max_tokens as nat,
            system_prompt@,
            user_prompt@,
            optional_view(provider),
            is_default_api_url,
        ),
{
    let mut body = String::from_str("{\"max_tokens\":");
    append_decimal(&mut body, max_tokens as u64);
    body.append(",\"messages\":[{\"content\":");
    body.append(system_prompt);
    body.append(",\"role\":\"system\"},{\"content\":");
    body.append(user_prompt);
    body.append(",\"role\":\"user\"}],\"model\":");
    body.append(model);
    let ghost head = body@;
    let ghost member = provider_member(optional_view(provider), is_default_api_url);
    match provider {
        Some(name) => {
            if is_default_api_url {
                body.append(",\"provider\":{\"data_collection\":\"deny\",\"only\":[");
            } else {
                body.append(",\"provider\":{\"only\":[");
            }
            body.append(name);
            body.append("]}");
        },
        None => {
            if is_default_api_url {
                body.append(",\"provider\":{\"data_collection\":\"deny\"}");
            }
        },
    }
    assert(body@ =~= head + member);
    body.append("}");
    body
}

/// Builds the body of a request for the model `model`, with the two prompts
/// as its messages. Every input gives a body: the strings are written as
/// JSON string literals, which every string has.
pub fn build_request(
    model: &str,
    provider: Option<&str>,
    system_prompt: &str,
    user_prompt: &str,
    max_tokens: usize,
    is_default_api_url: bool,
) -> (r: Result<String, LlmpalError>)
    ensures
        r matches Ok(body) && body@ == request_json(
            json_string_literal(model@),
            max_tokens as nat,
            json_string_literal(system_prompt@),
            json_string_literal(user_prompt@),
            optional_literal(provider),
            is_default_api_url,
        ),
{
    let model_literal = match to_json_string(model) {
        Ok(text) => text,
        Err(e) => {
            return Err(LlmpalError::SerializeError(json_error_text(&e)));
        },
    };
    let system_literal = match to_json_string(system_prompt) {
        Ok(text) => text,
        Err(e) => {
            return Err(LlmpalError::SerializeError(json_error_text(&e)));
        },
    };
    let user_literal = match to_json_string(user_prompt) {
        Ok(text) => text,
        Err(e) => {
            return Err(LlmpalError::SerializeError(json_error_text(&e)));
        },
    };
    let provider_literal = match provider {
        Some(name) => match to_json_string(name) {
            Ok(text) => Some(text),
            Err(e) => {
                return Err(LlmpalError::SerializeError(json_error_text(&e)));
            },
        },
        None => None,
    };
    let body = match &provider_literal {
        Some(text) => assemble_request(
            model_literal.as_str(),
            max_tokens,
            system_literal.as_str(),
            user_literal.as_str(),
            Some(text.as_str()),
            is_default_api_url,
        ),
        None => assemble_request(
            model_literal.as_str(),
            max_tokens,
            system_literal.as_str(),
            user_literal.as_str(),
            None,
            is_default_api_url,
        ),
    };
    Ok(body)
}

/// A rough count of the tokens in `text`: a quarter of its characters.
pub fn estimate_token_count(text: &str) -> (n: usize)
    ensures
        n == text@.len() / 4,
{
    text.unicode_len() / 4
}

/// The variable that holds the credential where the profile has none.
pub const API_KEY_VARIABLE: &'static str = "OPENROUTER_API_KEY";

/// The credential for a run: that of the profile, else that of the
/// environment `env`. Fails where neither has one.
pub fn select_api_key(configured: Option<String>, env: &Vec<(String, String)>) -> (r: Result<
    String,
    LlmpalError,
>)
    ensures
        match configured {
            Some(key) => r matches Ok(k) && k@ == key@,
            None => match env_lookup(env@, API_KEY_VARIABLE@) {
                Some(value) => r matches Ok(k) && k@ == value,
                None => r matches Err(LlmpalError::ApiKeyMissing),
            },
        },
{
    match configured {
        Some(key) => Ok(key),
        None => match lookup_env(env, API_KEY_VARIABLE) {
            Some(value) => Ok(value),
            None => Err(LlmpalError::ApiKeyMissing),
        },
    }
}

/// The endpoint for a run: that of the profile, else the default one.
pub fn api_url_or_default(api_url: &Option<String>) -> (url: String)
    ensures
        url@ == match *api_url {
            Some(u) => u@,
            None => OPEN_ROUTER_URL@,
        },
{
    match api_url {
        Some(u) => u.clone(),
        None => String::from_str(OPEN_ROUTER_URL),
    }
}

/// The token ceiling for a run: that of the profile, else the default one.
pub fn max_tokens_or_default(max_tokens: Option<usize>) -> (n: usize)
    ensures
        n == match max_tokens {
            Some(m) => m,
            None => DEFAULT_MAX_TOKENS,
        },
{
    match max_tokens {
        Some(m) => m,
        None => DEFAULT_MAX_TOKENS,
    }
}

/// How a model is named in the log: with its provider where one is known.
pub open spec fn model_label_spec(model: Seq<char>, provider: Option<Seq<char>>) -> Seq<char> {
    match provider {
        Some(name) => model + " [provider: "@ + name + "]"@,
        None => model,
    }
}

/// How a model is named in the log.
pub fn model_label(model: &str, provider: Option<&str>) -> (label: String)
    ensures
        label@ == model_label_spec(model@, optional_view(provider)),
{
    let mut label = String::from_str(model);
    match provider {
        Some(name) => {
            label.append(" [provider: ");
            label.append(name);
            label.append("]");
        },
        None => {},
    }
    label
}

/// Whether an HTTP status is a success: 200 to 299.
pub fn is_success_status(code: u16) -> (ok: bool)
    ensures
        ok == (200 <= code < 300),
{
    200 <= code && code < 300
}

/// Where the exchange with the endpoint broke.
#[derive(Debug, Clone, Copy, PartialEq, Eq, Structural)]
pub enum TransportFailure {
    /// The request could not be sent.
    Send,
    /// The answer was no success, and its body could not be read.
    ReadError,
    /// The answer was a success, and its body is not JSON.
    Decode,
}

impl TransportFailure {
    /// How the message of the failure begins.
    pub open spec fn prefix(self) -> Seq<char> {
        match self {
            TransportFailure::Send => "Failed to send request: "@,
            TransportFailure::ReadError => "Failed to read error response: "@,
            TransportFailure::Decode => "Failed to parse JSON response: "@,
        }
    }
}

/// The error after a failure of the transport, with the cause that the
/// transport gave.
pub fn transport_error(failure: TransportFailure, cause: &str) -> (e: LlmpalError)
    ensures
        e matches LlmpalError::NetworkError(m) && m@ == failure.prefix() + cause@,
{
    let mut m = match failure {
        TransportFailure::Send => String::from_str("Failed to send request: "),
        TransportFailure::ReadError => String::from_str("Failed to read error response: "),
        TransportFailure::Decode => String::from_str("Failed to parse JSON response: "),
    };
    m.append(cause);
    LlmpalError::NetworkError(m)
}

/// The error after an answer that is no success: it carries the status and
/// the body of the answer.
pub fn status_error(status: &str, body: &str) -> (e: LlmpalError)
    ensures
        e matches LlmpalError::NetworkError(m) && m@ == "API request failed with status "@
            + status@ + ": "@ + body@,
{
    let mut m = String::from_str("API request failed with status ");
    m.append(status);
    m.append(": ");
    m.append(body);
    LlmpalError::NetworkError(m)
}

/// The reply in an answer: the text at `choices[0].message.content`. An
/// answer without it is an error.
pub fn reply_text(content: Option<String>) -> (r: Result<String, LlmpalError>)
    ensures
        match content {
            Some(text) => r matches Ok(t) && t@ == text@,
            None => r matches Err(LlmpalError::ParseError(m)) && m@
                == "Invalid response format from API"@,
        },
{
    match content {
        Some(text) => Ok(text),
        None => Err(LlmpalError::ParseError(String::from_str("Invalid response format from API"))),
    }
}

/// The token counts of an answer.
#[derive(Debug, Clone, Copy, PartialEq, Eq, Structural)]
pub struct Usage {
    pub prompt_tokens: u64,
    pub completion_tokens: u64,
}

/// The token counts of an answer, where it gives both. An answer that lacks
/// one of them has no usage to report; that is no error.
pub fn usage_of(prompt_tokens: Option<u64>, completion_tokens: Option<u64>) -> (usage: Option<
    Usage,
>)
    ensures
        usage == match (prompt_tokens, completion_tokens) {
            (Some(p), Some(c)) => Some(Usage { prompt_tokens: p, completion_tokens: c }),
            _ => None,
        },
{
    match (prompt_tokens, completion_tokens) {
        (Some(p), Some(c)) => Some(Usage { prompt_tokens: p, completion_tokens: c }),
        _ => None,
    }
}

/// The warning after a reply that used up its token ceiling.
pub open spec fn truncation_message(completion_tokens: nat, max_tokens: nat) -> Seq<char> {
    "Warning: Completion tokens ("@ + decimal(completion_tokens)
        + ") equal or exceed max token limit ("@ + decimal(max_tokens)
        + "). Output might be missing or incomplete."@
}

/// The warning that the reply may be cut short: given exactly when the
/// completion used at least as many tokens as the ceiling allows.
pub fn truncation_warning(completion_tokens: u64, max_tokens: usize) -> (w: Option<String>)
    ensures
        match w {
            Some(text) => completion_tokens >= max_tokens && text@ == truncation_message(
                completion_tokens as nat,
                max_tokens as nat,
            ),
            None => completion_tokens < max_tokens,
        },
{
    let ceiling: u64 = max_tokens as u64;
    if completion_tokens >= ceiling {
        let mut text = String::from_str("Warning: Completion tokens (");
        append_decimal(&mut text, completion_tokens);
        text.append(") equal or exceed max token limit (");
        append_decimal(&mut text, ceiling);
        text.append("). Output might be missing or incomplete.");
        Some(text)
    } else {
        None
    }
}

} // verus!
