//! The responses of the service.

use vstd::prelude::*;

use crate::encoding;
use crate::encoding::json_object;

verus! {

pub const OK: u16 = 200;

pub const BAD_REQUEST: u16 = 400;

pub const UNAUTHORIZED: u16 = 401;

pub const NOT_FOUND: u16 = 404;

pub const INTERNAL_SERVER_ERROR: u16 = 500;

/// The response to a request: data, or a status and why there is no data.
pub enum ServerResponse<T> {
    Data(T),
    Refusal(u16, String),
}

/// The body of an answer: data to be written as JSON, or JSON that is written already.
pub enum Body<T> {
    Data(T),
    Json(String),
}

/// An answer, ready to be sent.
pub struct Answer<T> {
    pub status: u16,
    pub body: Body<T>,
}

/// Whether a response is the refusal with this status and this message.
pub open spec fn refuses<T>(
    response: ServerResponse<T>,
    status: u16,
    message: Seq<char>,
) -> bool {
    response matches ServerResponse::Refusal(code, why) && code == status && why@ == message
}

/// Whether an answer carries a response: the data with status 200, or the status and a JSON object
/// whose member `error` is the message.
pub open spec fn answers<T>(response: ServerResponse<T>, answer: Answer<T>) -> bool {
    match response {
        ServerResponse::Data(data) => answer.status == OK && answer.body == Body::Data(data),
        ServerResponse::Refusal(status, message) => answer.status == status && (
        answer.body matches Body::Json(text) && text@ == json_object("error"@, message@)),
    }
}

impl<T> ServerResponse<T> {
    /// The answer that carries the response: the data with status 200, or the status and a JSON
    /// object whose member `error` is the message.
    pub fn into_response(self) -> (answer: Answer<T>)
        ensures
            answers(self, answer),
    {
        match self {
            ServerResponse::Data(data) => Answer { status: OK, body: Body::Data(data) },
            ServerResponse::Refusal(status, message) => Answer {
                status,
                body: Body::Json(encoding::json_object_text("error", message.as_str())),
            },
        }
    }
}

/// The answer at the root.
pub fn root() -> (text: &'static str)
    ensures
        text@ == "Hello, World!"@,
{
    "Hello, World!"
}

/// A response can be told from its answer: the status is 200 with the data, or the one of the
/// refusal, and refusals with the same body have the same message.
pub proof fn law_answers_tell_responses_apart<T>(
    a: ServerResponse<T>,
    answer_a: Answer<T>,
    b: ServerResponse<T>,
    answer_b: Answer<T>,
)
    requires
        answers(a, answer_a),
        answers(b, answer_b),
    ensures
        a matches ServerResponse::Data(data) ==> answer_a.status == 200 && answer_a.body
            == Body::Data(data),
        a matches ServerResponse::Refusal(status, why) ==> answer_a.status == status && {
            &&& answer_a.body matches Body::Json(text)
            &&& b matches ServerResponse::Refusal(_, other) ==> answer_b.body matches Body::Json(
                other_text,
            ) && (text@ == other_text@ <==> why@ == other@)
        },
{
    if a is Refusal && b is Refusal {
        let why = a->Refusal_1@;
        let other = b->Refusal_1@;
        if json_object("error"@, why) == json_object("error"@, other) {
            encoding::law_json_object_injective("error"@, why, other);
        }
    }
}

} // verus!
