//! Who may call the service.

use crate::json::{opt_string, opt_text, Json, JsonV};
use crate::routes::reply::{Reply, ReplyV};
use crate::text::{same, starts_with};
use vstd::prelude::*;
use vstd::utf8::encode_utf8_decode_utf8;

verus! {

/// What is asked of a caller.
#[derive(Debug, Clone, PartialEq)]
pub struct AuthConfig {
    pub secret: Option<String>,
    /// Whether a missing secret denies all calls, rather than none.
    pub required: bool,
}

impl Default for AuthConfig {
    fn default() -> (r: AuthConfig)
        ensures
            r.secret is None,
            !r.required,
    {
        AuthConfig { secret: None, required: false }
    }
}

proof fn or_zero(x: u32, y: u32)
    by (bit_vector)
    ensures
        (x | y == 0) <==> (x == 0 && y == 0),
{
}

proof fn xor_zero(x: u32, y: u32)
    by (bit_vector)
    ensures
        (x ^ y == 0) <==> (x == y),
{
}

/// The byte at a position, 0 after the end.
pub open spec fn byte_at(b: Seq<u8>, i: int) -> u8 {
    if 0 <= i < b.len() {
        b[i]
    } else {
        0
    }
}

/// Whether two byte strings are equal. All bytes are read whatever they are, so that the
/// time taken does not tell where they differ.
pub fn constant_time_eq(a: &[u8], b: &[u8]) -> (r: bool)
    ensures
        r == (a@ == b@),
{
    let n: usize = if a.len() > b.len() {
        a.len()
    } else {
        b.len()
    };
    let mut diff: u32 = if a.len() == b.len() {
        0
    } else {
        1
    };
    let mut i: usize = 0;
    while i < n
        invariant
            i <= n,
            a@.len() <= n,
            b@.len() <= n,
            diff == 0 <==> a@.len() == b@.len() && forall|k: int|
                0 <= k < i ==> byte_at(a@, k) == byte_at(b@, k),
        decreases n - i,
    {
        let ba: u32 = if i < a.len() {
            a[i] as u32
        } else {
            0
        };
        let bb: u32 = if i < b.len() {
            b[i] as u32
        } else {
            0
        };
        proof {
            or_zero(diff, ba ^ bb);
            xor_zero(ba, bb);
            assert(ba == byte_at(a@, i as int) as u32);
            assert(bb == byte_at(b@, i as int) as u32);
        }
        let ghost before = diff;
        diff = diff | (ba ^ bb);
        i += 1;
        proof {
            if before == 0 && ba == bb {
                assert forall|k: int| 0 <= k < i implies byte_at(a@, k) == byte_at(b@, k) by {}
            }
            if diff != 0 && before == 0 {
                assert(byte_at(a@, i - 1) != byte_at(b@, i - 1));
            }
        }
    }
    proof {
        if diff == 0 {
            assert forall|k: int| 0 <= k < a@.len() implies a@[k] == b@[k] by {
                assert(byte_at(a@, k) == byte_at(b@, k));
            }
            assert(a@ =~= b@);
        }
    }
    diff == 0
}

/// The route is open to all: it is no route of the service's own, or the one that tells
/// that it is up.
pub open spec fn is_open(path: Seq<char>) -> bool {
    path == "/api/health"@ || !"/api"@.is_prefix_of(path)
}

/// A call is let through: the route is open; or the caller has the secret; or there is none
/// and none is required.
pub open spec fn lets_through(
    secret: Option<Seq<char>>,
    required: bool,
    path: Seq<char>,
    key: Option<Seq<char>>,
) -> bool {
    is_open(path) || match secret {
        Some(s) => key == Some(s),
        None => !required,
    }
}

/// Whether a call is let through, by its path and the key it carries.
pub fn authorized(auth: &AuthConfig, path: &str, key: Option<&str>) -> (r: bool)
    ensures
        r == lets_through(opt_string(auth.secret), auth.required, path@, opt_text(key)),
{
    if same(path, "/api/health") || !starts_with(path, "/api") {
        return true;
    }
    match &auth.secret {
        Some(secret) => match key {
            Some(k) => {
                let eq = constant_time_eq(k.as_bytes(), secret.as_str().as_bytes());
                proof {
                    encode_utf8_decode_utf8(k@);
                    encode_utf8_decode_utf8(secret@);
                }
                eq
            },
            None => false,
        },
        None => !auth.required,
    }
}

/// The route that tells that the service is up is open whatever is configured; where a
/// secret is required and there is none, every other route is closed; a wrong key or none
/// never passes for the secret.
pub proof fn closed_unless_the_key_fits(
    secret: Option<Seq<char>>,
    path: Seq<char>,
    key: Option<Seq<char>>,
)
    ensures
        lets_through(secret, true, "/api/health"@, key),
        !is_open(path) ==> !lets_through(None, true, path, key),
        !is_open(path) && secret is Some ==> (lets_through(secret, true, path, key) <==> key
            == secret),
{
}

/// What is answered to a call that is not let through.
pub open spec fn denial() -> ReplyV {
    ReplyV {
        status: 401,
        body: JsonV::empty().put("error"@, JsonV::Str("Unauthorized"@)).put(
            "detail"@,
            JsonV::Str("Missing or invalid X-API-Key"@),
        ),
    }
}

/// What is answered to a call that is not let through.
pub fn unauthorized() -> (r: Reply)
    ensures
        r@ == denial(),
{
    Reply {
        status: 401,
        body: Json::object().with("error", Json::string("Unauthorized")).with(
            "detail",
            Json::string("Missing or invalid X-API-Key"),
        ),
    }
}

/// Just the service's own routes are guarded, all but the one that tells that it is up. A
/// guarded route takes the secret and nothing else; without a secret it takes any call where
/// none is required, and none where one is.
pub proof fn own_routes_take_the_secret(
    secret: Option<Seq<char>>,
    required: bool,
    rest: Seq<char>,
    path: Seq<char>,
    key: Option<Seq<char>>,
)
    ensures
        "/api"@ + rest != "/api/health"@ ==> {
            &&& secret matches Some(s) ==> (lets_through(secret, required, "/api"@ + rest, key)
                <==> key == Some(s))
            &&& secret is None ==> (lets_through(secret, required, "/api"@ + rest, key)
                <==> !required)
        },
        lets_through(secret, required, "/api/health"@, key),
        !"/api"@.is_prefix_of(path) ==> lets_through(secret, required, path, key),
{
    let p = "/api"@ + rest;
    assert(p.take("/api"@.len() as int) =~= "/api"@);
    assert("/api"@.is_prefix_of(p));
}

/// A call that is not let through is told that it lacks its key.
pub proof fn denials_tell_what_is_missing()
    ensures
        denial().status == 401,
        denial().body.get("error"@) == Some(JsonV::Str("Unauthorized"@)),
        denial().body.get("detail"@) == Some(JsonV::Str("Missing or invalid X-API-Key"@)),
{
    reveal_strlit("error");
    reveal_strlit("detail");
    assert("error"@.len() == 5 && "detail"@.len() == 6);
}

} // verus!
