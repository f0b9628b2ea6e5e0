//! Replies of the server, and the error replies among them.

use vstd::prelude::*;
use crate::json::{Json, JsonView};
use crate::text;

verus! {

/// A reply: a status code and a JSON body.
pub struct Reply {
    pub status: u16,
    pub body: Json,
}

impl View for Reply {
    type V = (u16, JsonView);

    open spec fn view(&self) -> (u16, JsonView) {
        (self.status, self.body@)
    }
}

/// The error object of the OpenAI error schema.
pub struct ErrorBody {
    pub message: String,
    pub error_type: String,
    pub code: String,
}

/// The body of an error reply of the OpenAI error schema.
pub struct ErrorEnvelope {
    pub error: ErrorBody,
}

/// The JSON form of an error of the OpenAI error schema.
pub open spec fn openai_error(message: Seq<char>, error_type: Seq<char>, code: Seq<char>) -> JsonView {
    JsonView::Object(
        map![
            "error"@ => JsonView::Object(
                map![
                    "message"@ => JsonView::Text(message),
                    "type"@ => JsonView::Text(error_type),
                    "code"@ => JsonView::Text(code),
                ],
            ),
        ],
    )
}

/// The JSON form of an error that is only a message.
pub open spec fn plain_error(message: Seq<char>) -> JsonView {
    JsonView::Object(map!["error"@ => JsonView::Text(message)])
}

impl ErrorEnvelope {
    /// The JSON form of the envelope.
    pub fn to_json(&self) -> (r: Json)
        ensures
            r@ == openai_error(self.error.message@, self.error.error_type@, self.error.code@),
    {
        let inner = Json::object().with("message", Json::text(self.error.message.as_str())).with(
            "type",
            Json::text(self.error.error_type.as_str()),
        ).with("code", Json::text(self.error.code.as_str()));
        Json::object().with("error", inner)
    }
}

/// An error reply of the OpenAI error schema, whose code is the status in decimal.
pub fn gateway_error(message: &str, error_type: &str, status: u16) -> (r: Reply)
    ensures
        r@ == (status, openai_error(message@, error_type@, text::decimal(status as nat))),
{
    let envelope = ErrorEnvelope {
        error: ErrorBody {
            message: message.to_owned(),
            error_type: error_type.to_owned(),
            code: text::decimal_u64(status as u64),
        },
    };
    Reply { status, body: envelope.to_json() }
}

/// An error reply that holds only a message.
pub fn simple_error(message: &str, status: u16) -> (r: Reply)
    ensures
        r@ == (status, plain_error(message@)),
{
    Reply { status, body: Json::object().with("error", Json::text(message)) }
}

/// The reply for a path that is not served.
pub fn not_found() -> (r: Reply)
    ensures
        r@ == (404u16, openai_error("Not Found"@, "not_found"@, text::decimal(404))),
{
    gateway_error("Not Found", "not_found", 404)
}

/// The reply for a gateway request without an API key.
pub fn unauthorized_missing_key() -> (r: Reply)
    ensures
        r@ == (
            401u16,
            openai_error(
                "Missing API Key. Gateway is locked."@,
                "authentication_error"@,
                text::decimal(401),
            ),
        ),
{
    gateway_error("Missing API Key. Gateway is locked.", "authentication_error", 401)
}

} // verus!
