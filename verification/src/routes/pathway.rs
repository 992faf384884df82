//! The `/api/pathway` routes: what is told of the behavioural memory.

use crate::json::{decimal_json, jsons, opt_json, opt_string, Json, JsonV};
use crate::routes::reply::{err_response, json_response, refusal, Reply, ReplyV};
use vstd::prelude::*;

verus! {

/// A soft error: the service is well, and there is nothing to tell.
pub open spec fn soft_error(message: Seq<char>) -> ReplyV {
    ReplyV { status: 200, body: JsonV::empty().put("error"@, JsonV::Str(message)) }
}

/// What is answered where the memory is switched off.
pub fn disabled_reply() -> (r: Reply)
    ensures
        r@ == soft_error("pathway disabled"@),
{
    json_response(Json::object().with("error", Json::string("pathway disabled")))
}

/// The beliefs of each layer, counted; of two counts of one layer the later counts.
pub open spec fn layer_counts(rows: Seq<(String, i64)>) -> JsonV
    decreases rows.len(),
{
    if rows.len() == 0 {
        JsonV::empty()
    } else {
        layer_counts(rows.drop_last()).put(rows.last().0@, JsonV::Int(rows.last().1 as int))
    }
}

/// What is told of the memory.
pub open spec fn stats_v(total: i64, layers: Seq<(String, i64)>, pending: i64, model: Seq<char>) -> JsonV {
    JsonV::empty().put("total"@, JsonV::Int(total as int)).put(
        "by_layer"@,
        layer_counts(layers),
    ).put(
        "embedding_migration"@,
        JsonV::empty().put("pending"@, JsonV::Int(pending as int)).put(
            "current_model"@,
            JsonV::Str(model),
        ),
    )
}

/// What is told of the memory: how many beliefs there are, by layer, and how many are still
/// to be embedded anew.
pub fn pathway_stats(total: i64, layers: &Vec<(String, i64)>, pending: i64, model: &str) -> (r: Json)
    ensures
        r@ == stats_v(total, layers@, pending, model@),
{
    let mut by_layer = Json::object();
    let mut i: usize = 0;
    proof {
        assert(layers@.take(0) =~= Seq::empty());
    }
    while i < layers.len()
        invariant
            i <= layers@.len(),
            by_layer@ == layer_counts(layers@.take(i as int)),
        decreases layers@.len() - i,
    {
        by_layer = by_layer.with(layers[i].0.as_str(), Json::Int(layers[i].1));
        i += 1;
        proof {
            assert(layers@.take(i as int).drop_last() =~= layers@.take(i - 1));
        }
    }
    proof {
        assert(layers@.take(i as int) =~= layers@);
    }
    Json::object().with("total", Json::Int(total)).with("by_layer", by_layer).with(
        "embedding_migration",
        Json::object().with("pending", Json::Int(pending)).with(
            "current_model",
            Json::string(model),
        ),
    )
}

/// A belief of the memory. Its confidence stands in decimal.
#[derive(Debug, Clone, PartialEq)]
pub struct Belief {
    pub id: String,
    pub text: String,
    pub layer: String,
    pub confidence: String,
    pub tested: bool,
    pub domain: Option<String>,
    pub support_count: i64,
    pub distinct_sessions: i64,
    pub contradict_count: i64,
    pub pinned: bool,
}

/// A belief as an object.
pub open spec fn belief_v(b: Belief) -> JsonV {
    JsonV::empty().put("id"@, JsonV::Str(b.id@)).put("text"@, JsonV::Str(b.text@)).put(
        "layer"@,
        JsonV::Str(b.layer@),
    ).put("confidence"@, decimal_json(b.confidence@)).put("tested"@, JsonV::Bool(b.tested)).put(
        "domain"@,
        opt_json(opt_string(b.domain)),
    ).put("support_count"@, JsonV::Int(b.support_count as int)).put(
        "distinct_sessions"@,
        JsonV::Int(b.distinct_sessions as int),
    ).put("contradict_count"@, JsonV::Int(b.contradict_count as int)).put(
        "pinned"@,
        JsonV::Bool(b.pinned),
    )
}

fn belief_json(b: &Belief) -> (r: Json)
    ensures
        r@ == belief_v(*b),
{
    let confidence = match Json::parse(b.confidence.as_str()) {
        Ok(v) => v,
        Err(_) => Json::Null,
    };
    Json::object().with("id", Json::string(b.id.as_str())).with(
        "text",
        Json::string(b.text.as_str()),
    ).with("layer", Json::string(b.layer.as_str())).with("confidence", confidence).with(
        "tested",
        Json::Bool(b.tested),
    ).with("domain", Json::opt(&b.domain)).with("support_count", Json::Int(b.support_count)).with(
        "distinct_sessions",
        Json::Int(b.distinct_sessions),
    ).with("contradict_count", Json::Int(b.contradict_count)).with("pinned", Json::Bool(b.pinned))
}

/// What is answered where the beliefs were read.
pub open spec fn read_reply(read: Result<Vec<Belief>, String>) -> ReplyV {
    match read {
        Ok(list) => ReplyV {
            status: 200,
            body: JsonV::empty().put(
                "beliefs"@,
                JsonV::Arr(list@.map_values(|b: Belief| belief_v(b))),
            ).put("count"@, JsonV::Int(list@.len() as int)),
        },
        Err(e) => refusal(500, e@),
    }
}

/// What is answered where the beliefs were read: all of them, and how many they are. A
/// store that failed is told from one that is empty.
pub fn beliefs_reply(read: Result<Vec<Belief>, String>) -> (r: Reply)
    ensures
        r@ == read_reply(read),
{
    match read {
        Ok(list) => {
            let mut items: Vec<Json> = Vec::new();
            let mut i: usize = 0;
            while i < list.len()
                invariant
                    i <= list@.len(),
                    items@.len() == i,
                    forall|k: int| 0 <= k < i ==> (#[trigger] items@[k])@ == belief_v(list@[k]),
                decreases list@.len() - i,
            {
                items.push(belief_json(&list[i]));
                i += 1;
            }
            proof {
                assert(jsons(items@) =~= list@.map_values(|b: Belief| belief_v(b)));
            }
            json_response(
                Json::object().with("beliefs", Json::array(items)).with(
                    "count",
                    Json::Uint(list.len() as u64),
                ),
            )
        },
        Err(e) => err_response(500, e.as_str()),
    }
}

/// What is answered where a session was paused or resumed.
pub open spec fn pause_reply(done: Result<(), String>, id: Seq<char>, paused: bool) -> ReplyV {
    match done {
        Ok(_) => ReplyV {
            status: 200,
            body: JsonV::empty().put("session_id"@, JsonV::Str(id)).put(
                "paused"@,
                JsonV::Bool(paused),
            ),
        },
        Err(e) => refusal(500, e@),
    }
}

/// What is answered where a session was paused or resumed.
pub fn paused_reply(done: Result<(), String>, id: &str, paused: bool) -> (r: Reply)
    ensures
        r@ == pause_reply(done, id@, paused),
{
    match done {
        Ok(_) => json_response(
            Json::object().with("session_id", Json::string(id)).with("paused", Json::Bool(paused)),
        ),
        Err(e) => err_response(500, e.as_str()),
    }
}

/// What is answered to the deletion of a belief.
pub open spec fn forget_reply(dropped: Result<Option<u64>, String>, id: Seq<char>) -> ReplyV {
    match dropped {
        Ok(Some(n)) => ReplyV {
            status: 200,
            body: JsonV::empty().put("id"@, JsonV::Str(id)).put("dropped"@, JsonV::Int(n as int)),
        },
        Ok(None) => soft_error("belief not found"@),
        Err(e) => refusal(500, e@),
    }
}

/// What is answered to the deletion of a belief: one that is not there is a soft error.
pub fn forgotten_reply(dropped: Result<Option<u64>, String>, id: &str) -> (r: Reply)
    ensures
        r@ == forget_reply(dropped, id@),
{
    match dropped {
        Ok(found) => match found {
            Some(n) => json_response(
                Json::object().with("id", Json::string(id)).with("dropped", Json::Uint(n)),
            ),
            None => json_response(Json::object().with("error", Json::string("belief not found"))),
        },
        Err(e) => err_response(500, e.as_str()),
    }
}

/// A request asks for a pause: unless it says no.
pub open spec fn asks_pause(body: JsonV) -> bool {
    match body.at("paused"@).truth() {
        Some(b) => b,
        None => true,
    }
}

/// Whether a session is to be paused: yes, unless the request says no.
pub fn wants_pause(body: &Json) -> (r: bool)
    ensures
        r == asks_pause(body@),
{
    match body.get_bool("paused") {
        Some(b) => b,
        None => true,
    }
}

/// A belief is told with all that is known of it, each under its name.
pub proof fn beliefs_are_told_whole(b: Belief)
    ensures
        ({
            let v = belief_v(b);
            &&& v.get("id"@) == Some(JsonV::Str(b.id@))
            &&& v.get("text"@) == Some(JsonV::Str(b.text@))
            &&& v.get("layer"@) == Some(JsonV::Str(b.layer@))
            &&& v.get("confidence"@) == Some(decimal_json(b.confidence@))
            &&& v.get("tested"@) == Some(JsonV::Bool(b.tested))
            &&& v.get("domain"@) == Some(
                match b.domain {
                    Some(d) => JsonV::Str(d@),
                    None => JsonV::Null,
                },
            )
            &&& v.get("support_count"@) == Some(JsonV::Int(b.support_count as int))
            &&& v.get("distinct_sessions"@) == Some(JsonV::Int(b.distinct_sessions as int))
            &&& v.get("contradict_count"@) == Some(JsonV::Int(b.contradict_count as int))
            &&& v.get("pinned"@) == Some(JsonV::Bool(b.pinned))
        }),
{
    reveal_strlit("id");
    reveal_strlit("text");
    reveal_strlit("layer");
    reveal_strlit("confidence");
    reveal_strlit("tested");
    reveal_strlit("domain");
    reveal_strlit("support_count");
    reveal_strlit("distinct_sessions");
    reveal_strlit("contradict_count");
    reveal_strlit("pinned");
    assert("id"@.len() == 2 && "text"@.len() == 4 && "layer"@.len() == 5 && "confidence"@.len() == 10
        && "tested"@[0] == 't' && "domain"@[0] == 'd' && "pinned"@[0] == 'p'
        && "support_count"@.len() == 13 && "distinct_sessions"@.len() == 17
        && "contradict_count"@.len() == 16);
}

/// Each layer is told with its own count, and no layer that was not counted.
pub proof fn layers_are_told_with_their_counts(rows: Seq<(String, i64)>, i: int, name: Seq<char>)
    ensures
        0 <= i < rows.len() && (forall|k: int| i < k < rows.len() ==> (#[trigger] rows[k]).0@
            != rows[i].0@) ==> layer_counts(rows).get(rows[i].0@) == Some(
            JsonV::Int(rows[i].1 as int),
        ),
        (forall|k: int| 0 <= k < rows.len() ==> (#[trigger] rows[k]).0@ != name) ==> layer_counts(
            rows,
        ).get(name) is None,
        layer_counts(rows) is Obj,
    decreases rows.len(),
{
    if rows.len() > 0 {
        let less = rows.drop_last();
        assert(forall|k: int| 0 <= k < less.len() ==> #[trigger] less[k] == rows[k]);
        layers_are_told_with_their_counts(less, i, name);
        assert(rows.last() == rows[rows.len() - 1]);
    }
}

/// A soft error tells why, as a success.
pub proof fn soft_errors_are_no_failures(message: Seq<char>)
    ensures
        soft_error(message).status == 200,
        soft_error(message).body.get("error"@) == Some(JsonV::Str(message)),
{
}

/// Of the memory it is told how many beliefs there are, in all and by layer, how many are still
/// to be embedded anew, and with which model.
pub proof fn memories_are_told_whole(total: i64, layers: Seq<(String, i64)>, pending: i64, model: Seq<char>)
    ensures
        ({
            let v = stats_v(total, layers, pending, model);
            &&& v.get("total"@) == Some(JsonV::Int(total as int))
            &&& v.get("by_layer"@) == Some(layer_counts(layers))
            &&& v.at("embedding_migration"@).get("pending"@) == Some(JsonV::Int(pending as int))
            &&& v.at("embedding_migration"@).get("current_model"@) == Some(JsonV::Str(model))
        }),
{
    reveal_strlit("total");
    reveal_strlit("by_layer");
    reveal_strlit("embedding_migration");
    reveal_strlit("pending");
    reveal_strlit("current_model");
    assert("total"@.len() == 5 && "by_layer"@.len() == 8 && "embedding_migration"@.len() == 19
        && "pending"@.len() == 7 && "current_model"@.len() == 13);
}

/// All beliefs are told, in order, and how many they are; a store that failed is told as such.
pub proof fn all_beliefs_are_told(read: Result<Vec<Belief>, String>, i: int)
    ensures
        read matches Ok(list) ==> {
            let v = read_reply(read);
            &&& v.status == 200
            &&& v.body.get("count"@) == Some(JsonV::Int(list@.len() as int))
            &&& v.body.at("beliefs"@) matches JsonV::Arr(b) && b.len() == list@.len() && (0 <= i
                < list@.len() ==> b[i] == belief_v(list@[i]))
        },
        read matches Err(e) ==> read_reply(read).status == 500 && read_reply(read).body.get(
            "error"@,
        ) == Some(JsonV::Str(e@)),
{
    reveal_strlit("beliefs");
    reveal_strlit("count");
    assert("beliefs"@.len() == 7 && "count"@.len() == 5);
}

/// A session that was paused or resumed is told with what it is now.
pub proof fn pauses_are_told(done: Result<(), String>, id: Seq<char>, paused: bool)
    ensures
        done is Ok ==> pause_reply(done, id, paused).status == 200 && pause_reply(
            done,
            id,
            paused,
        ).body.get("session_id"@) == Some(JsonV::Str(id)) && pause_reply(done, id, paused).body.get(
            "paused"@,
        ) == Some(JsonV::Bool(paused)),
        done matches Err(e) ==> pause_reply(done, id, paused).status == 500 && pause_reply(
            done,
            id,
            paused,
        ).body.get("error"@) == Some(JsonV::Str(e@)),
{
    reveal_strlit("session_id");
    reveal_strlit("paused");
    assert("session_id"@.len() == 10 && "paused"@.len() == 6);
}

/// A belief that was dropped is told with how many went; one that is not there is no failure of
/// the service, and a store that failed is.
pub proof fn dropped_beliefs_are_told(dropped: Result<Option<u64>, String>, id: Seq<char>)
    ensures
        dropped matches Ok(Some(n)) ==> forget_reply(dropped, id).status == 200 && forget_reply(
            dropped,
            id,
        ).body.get("id"@) == Some(JsonV::Str(id)) && forget_reply(dropped, id).body.get(
            "dropped"@,
        ) == Some(JsonV::Int(n as int)),
        dropped matches Ok(None) ==> forget_reply(dropped, id).status == 200 && forget_reply(
            dropped,
            id,
        ).body.get("error"@) == Some(JsonV::Str("belief not found"@)),
        dropped matches Err(e) ==> forget_reply(dropped, id).status == 500 && forget_reply(
            dropped,
            id,
        ).body.get("error"@) == Some(JsonV::Str(e@)),
{
    reveal_strlit("id");
    reveal_strlit("dropped");
    assert("id"@.len() == 2 && "dropped"@.len() == 7);
}

/// A session is paused unless the request says otherwise.
pub proof fn pauses_are_asked_for(body: JsonV)
    ensures
        asks_pause(body) <==> body.at("paused"@) != JsonV::Bool(false),
{
}

} // verus!
