//! What a route answers.

use crate::json::{Json, JsonV};
use vstd::prelude::*;

verus! {

/// A status and a JSON body.
#[derive(Debug, PartialEq)]
pub struct Reply {
    pub status: u16,
    pub body: Json,
}

/// What an answer is.
#[verifier::ext_equal]
pub struct ReplyV {
    pub status: u16,
    pub body: JsonV,
}

impl View for Reply {
    type V = ReplyV;

    open spec fn view(&self) -> ReplyV {
        ReplyV { status: self.status, body: self.body@ }
    }
}

/// An answer that refuses: the status and the reason.
pub open spec fn refusal(status: u16, message: Seq<char>) -> ReplyV {
    ReplyV { status, body: JsonV::empty().put("error"@, JsonV::Str(message)) }
}

/// A success with nothing to tell.
pub open spec fn ok_v() -> ReplyV {
    ReplyV { status: 200, body: JsonV::empty().put("ok"@, JsonV::Bool(true)) }
}

/// An answer that refuses.
pub fn err_response(status: u16, message: &str) -> (r: Reply)
    ensures
        r@ == refusal(status, message@),
{
    Reply { status, body: Json::object().with("error", Json::string(message)) }
}

/// A success with nothing to tell.
pub fn ok_response() -> (r: Reply)
    ensures
        r@ == ok_v(),
{
    Reply { status: 200, body: Json::object().with("ok", Json::Bool(true)) }
}

/// A success with a body.
pub fn json_response(body: Json) -> (r: Reply)
    ensures
        r@ == (ReplyV { status: 200, body: body@ }),
{
    Reply { status: 200, body }
}

/// What is answered where a thing was looked for: nothing where it is there, 404 where it
/// is not, 500 where the search failed.
pub fn missing(found: Result<bool, String>, what: &str) -> (r: Option<Reply>)
    ensures
        match found {
            Ok(true) => r is None,
            Ok(false) => r matches Some(reply) && reply@ == refusal(404, what@),
            Err(e) => r matches Some(reply) && reply@ == refusal(500, e@),
        },
{
    match found {
        Ok(there) => if there {
            None
        } else {
            Some(err_response(404, what))
        },
        Err(e) => Some(err_response(500, e.as_str())),
    }
}

/// What is answered where a write was tried.
pub fn written(result: Result<(), String>) -> (r: Reply)
    ensures
        match result {
            Ok(_) => r@ == ok_v(),
            Err(e) => r@ == refusal(500, e@),
        },
{
    match result {
        Ok(_) => ok_response(),
        Err(e) => err_response(500, e.as_str()),
    }
}

/// A refusal has the status that it is given and tells why; a success with nothing to tell
/// says so with the status of one.
pub proof fn refusals_tell_why(status: u16, message: Seq<char>)
    ensures
        refusal(status, message).status == status,
        refusal(status, message).body.get("error"@) == Some(JsonV::Str(message)),
        ok_v().status == 200,
        ok_v().body.get("ok"@) == Some(JsonV::Bool(true)),
        ok_v().body.get("error"@) is None,
{
    reveal_strlit("ok");
    reveal_strlit("error");
    assert("ok"@.len() == 2 && "error"@.len() == 5);
}

} // verus!
