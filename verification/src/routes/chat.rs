//! The `/api/chat` routes: what a request asks for and what is answered.

use crate::json::{json_equal, json_of_text, jsons, merge_members, merged_members, opt_string, opt_text, owned_opt, Json, JsonV};
use crate::local::tools::listed;
use crate::provider::router::{is_choice, ProviderEntry, ProviderRouter};
use crate::routes::reply::{err_response, json_response, ok_response, ok_v, refusal, Reply, ReplyV};
use crate::text::{contains, contains_text, join3, owned, same, texts};
use vstd::prelude::*;

verus! {

/// A request for a new session.
#[derive(Debug)]
pub struct CreateSessionRequest {
    pub cwd: Option<String>,
    pub mode: Option<String>,
    pub name: Option<String>,
    /// The provider and model that the session keeps; without them it follows the default.
    pub provider: Option<String>,
    pub model: Option<String>,
}

/// A page of sessions.
#[derive(Debug)]
pub struct ListQuery {
    pub limit: Option<i64>,
    pub offset: Option<i64>,
}

/// A new name for a session.
#[derive(Debug)]
pub struct RenameRequest {
    pub name: String,
}

/// The last messages of a session.
#[derive(Debug)]
pub struct HistoryQuery {
    pub limit: Option<i64>,
}

/// Where a session is forked.
#[derive(Debug)]
pub struct ForkRequest {
    pub at_message_id: Option<String>,
}

/// A decision on a pending action.
#[derive(Debug)]
pub struct ApproveRequest {
    pub action_id: String,
    pub decision: String,
}

/// A message to a session.
#[derive(Debug)]
pub struct SendMessageRequest {
    pub message: String,
    pub images: Option<Vec<Json>>,
}

/// A text that is given and not empty.
pub open spec fn filled(o: Option<Seq<char>>) -> Option<Seq<char>> {
    match o {
        Some(s) => if s.len() > 0 {
            Some(s)
        } else {
            None
        },
        None => None,
    }
}

fn non_empty(o: &Option<String>) -> (r: Option<&str>)
    ensures
        opt_text(r) == filled(opt_string(*o)),
{
    match o {
        Some(s) => if s.as_str().is_empty() {
            None
        } else {
            Some(s.as_str())
        },
        None => None,
    }
}

/// What a new session remembers of its request. The first working directory stays known
/// as `chat_dir`; a model counts only with a provider.
pub open spec fn first_metadata(
    mode: Option<Seq<char>>,
    cwd: Option<Seq<char>>,
    provider: Option<Seq<char>>,
    model: Option<Seq<char>>,
) -> JsonV {
    let a = JsonV::empty().put(
        "mode"@,
        JsonV::Str(
            match filled(mode) {
                Some(m) => m,
                None => "chat"@,
            },
        ),
    );
    let b = match filled(cwd) {
        Some(d) => a.put("cwd"@, JsonV::Str(d)).put("chat_dir"@, JsonV::Str(d)),
        None => a,
    };
    match filled(provider) {
        Some(p) => {
            let c = b.put("provider"@, JsonV::Str(p));
            match filled(model) {
                Some(m) => c.put("model"@, JsonV::Str(m)),
                None => c,
            }
        },
        None => b,
    }
}

impl CreateSessionRequest {
    /// The name of the session, empty where none is given.
    pub fn session_name(&self) -> (r: String)
        ensures
            r@ == (match self.name {
                Some(n) => n@,
                None => ""@,
            }),
    {
        match &self.name {
            Some(n) => n.clone(),
            None => owned(""),
        }
    }

    /// What the session remembers of its request.
    pub fn metadata(&self) -> (r: Json)
        ensures
            r@ == first_metadata(
                opt_string(self.mode),
                opt_string(self.cwd),
                opt_string(self.provider),
                opt_string(self.model),
            ),
    {
        let mode = match non_empty(&self.mode) {
            Some(m) => Json::string(m),
            None => Json::string("chat"),
        };
        let mut meta = Json::object().with("mode", mode);
        match non_empty(&self.cwd) {
            Some(d) => {
                meta = meta.with("cwd", Json::string(d)).with("chat_dir", Json::string(d));
            },
            None => {},
        }
        match non_empty(&self.provider) {
            Some(p) => {
                meta = meta.with("provider", Json::string(p));
                match non_empty(&self.model) {
                    Some(m) => {
                        meta = meta.with("model", Json::string(m));
                    },
                    None => {},
                }
            },
            None => {},
        }
        meta
    }
}

/// The answer that names a session.
pub open spec fn named_session(id: Seq<char>) -> ReplyV {
    ReplyV { status: 200, body: JsonV::empty().put("session_id"@, JsonV::Str(id)) }
}

/// The answer that names a session.
pub fn session_reply(id: &str) -> (r: Reply)
    ensures
        r@ == named_session(id@),
{
    json_response(Json::object().with("session_id", Json::string(id)))
}

/// How many sessions a page holds, for what is asked.
pub open spec fn page_size(limit: Option<i64>) -> int {
    match limit {
        Some(n) => if n < 0 {
            0
        } else if n > 500 {
            500
        } else {
            n as int
        },
        None => 50,
    }
}

/// Where a page begins, for what is asked.
pub open spec fn page_start(offset: Option<i64>) -> int {
    match offset {
        Some(n) => if n < 0 {
            0
        } else {
            n as int
        },
        None => 0,
    }
}

impl ListQuery {
    /// How many sessions a page holds: 50 where nothing is asked, never fewer than none
    /// or more than 500. A negative limit is no way to read everything.
    pub fn page_limit(&self) -> (r: i64)
        ensures
            r == page_size(self.limit),
            0 <= r <= 500,
    {
        match self.limit {
            Some(n) => if n < 0 {
                0
            } else if n > 500 {
                500
            } else {
                n
            },
            None => 50,
        }
    }

    /// Where a page begins, never before the first session.
    pub fn page_offset(&self) -> (r: i64)
        ensures
            r == page_start(self.offset),
    {
        match self.offset {
            Some(n) => if n < 0 {
                0
            } else {
                n
            },
            None => 0,
        }
    }
}

/// What is answered to the deletion of a session.
pub open spec fn deletion_reply(deleted: Result<u64, String>, id: Seq<char>) -> ReplyV {
    match deleted {
        Ok(n) => if n == 0 {
            refusal(404, "no such session: "@ + id)
        } else {
            ok_v()
        },
        Err(e) => refusal(500, e@),
    }
}

/// What is answered to the deletion of a session: a deletion that matched nothing is no
/// success.
pub fn deleted_reply(deleted: Result<u64, String>, id: &str) -> (r: Reply)
    ensures
        r@ == deletion_reply(deleted, id@),
{
    match deleted {
        Ok(n) => if n == 0 {
            let m = crate::text::join2("no such session: ", id);
            err_response(404, m.as_str())
        } else {
            ok_response()
        },
        Err(e) => err_response(500, e.as_str()),
    }
}

/// `v` is equal to an item of `s`.
pub open spec fn among(s: Seq<JsonV>, v: JsonV) -> bool {
    exists|i: int| 0 <= i < s.len() && json_equal(#[trigger] s[i], v)
}

/// The items with those added that are not among them, in order.
pub open spec fn union_paths(have: Seq<JsonV>, more: Seq<JsonV>) -> Seq<JsonV>
    decreases more.len(),
{
    if more.len() == 0 {
        have
    } else {
        let before = union_paths(have, more.drop_last());
        if among(before, more.last()) {
            before
        } else {
            before.push(more.last())
        }
    }
}

/// The items of an array, none where it is no array.
pub open spec fn items_or_none(v: JsonV) -> Seq<JsonV> {
    match v {
        JsonV::Arr(s) => s,
        _ => Seq::empty(),
    }
}

/// A session's metadata with a patch: its keys replace those of the same name, except
/// that attached paths accumulate.
pub open spec fn patched(m: Map<Seq<char>, JsonV>, patch: Map<Seq<char>, JsonV>) -> Map<
    Seq<char>,
    JsonV,
> {
    let all = merged_members(m, patch);
    if patch.contains_key("attached_paths"@) {
        all.insert(
            "attached_paths"@,
            JsonV::Arr(
                union_paths(
                    items_or_none(JsonV::Obj(m).at("attached_paths"@)),
                    items_or_none(patch["attached_paths"@]),
                ),
            ),
        )
    } else {
        all
    }
}

/// The metadata after a patch; what is no object stays as it is.
pub open spec fn patched_metadata(meta: JsonV, patch: Map<Seq<char>, JsonV>) -> JsonV {
    match meta {
        JsonV::Obj(m) => JsonV::Obj(patched(m, patch)),
        other => other,
    }
}

fn is_among(v: &Vec<Json>, x: &Json) -> (r: bool)
    ensures
        r == among(jsons(v@), x@),
{
    let mut i: usize = 0;
    while i < v.len()
        invariant
            i <= v@.len(),
            forall|k: int| 0 <= k < i ==> !json_equal((#[trigger] v@[k])@, x@),
        decreases v@.len() - i,
    {
        if v[i].equals(x) {
            proof {
                assert(json_equal(jsons(v@)[i as int], x@));
            }
            return true;
        }
        i += 1;
    }
    proof {
        assert forall|k: int| 0 <= k < jsons(v@).len() implies !json_equal(
            #[trigger] jsons(v@)[k],
            x@,
        ) by {
            assert(!json_equal(v@[k]@, x@));
        }
    }
    false
}

/// The items with those added that are not among them.
pub fn add_paths(have: Vec<Json>, more: &Vec<Json>) -> (r: Vec<Json>)
    ensures
        jsons(r@) == union_paths(jsons(have@), jsons(more@)),
{
    let mut out = have;
    let mut i: usize = 0;
    while i < more.len()
        invariant
            i <= more@.len(),
            jsons(out@) == union_paths(jsons(have@), jsons(more@).take(i as int)),
        decreases more@.len() - i,
    {
        let ghost before = out@;
        let ghost m = jsons(more@);
        proof {
            assert(m.take(i + 1).drop_last() =~= m.take(i as int));
            assert(m.take(i + 1).last() == more@[i as int]@);
        }
        if !is_among(&out, &more[i]) {
            let x = more[i].copy();
            out.push(x);
            proof {
                assert(jsons(out@) =~= jsons(before).push(x@));
            }
        }
        i += 1;
    }
    proof {
        assert(jsons(more@).take(i as int) =~= jsons(more@));
    }
    out
}

/// A session's metadata with the members of a patch.
pub fn merge_metadata(meta: Json, patch: &Json) -> (r: Json)
    requires
        patch@ is Obj,
    ensures
        r@ == patched_metadata(meta@, patch@->Obj_0),
{
    if !meta.is_object() {
        return meta;
    }
    let ghost m = meta@->Obj_0;
    let have = match meta.get_array("attached_paths") {
        Some(v) => crate::json::copies(v),
        None => Vec::new(),
    };
    proof {
        if meta@.at("attached_paths"@).items() is None {
            assert(jsons(have@) =~= Seq::empty());
        }
        assert(jsons(have@) == items_or_none(meta@.at("attached_paths"@)));
    }
    let out = merge_members(meta, patch);
    match patch.get("attached_paths") {
        Some(v) => {
            let all = match v.as_array() {
                Some(more) => add_paths(have, more),
                None => have,
            };
            proof {
                assert(union_paths(jsons(have@), Seq::<JsonV>::empty()) == jsons(have@));
            }
            out.with("attached_paths", Json::array(all))
        },
        None => out,
    }
}

/// What is answered to a patch that is no object.
pub fn patch_refusal(patch: &Json) -> (r: Option<Reply>)
    ensures
        match r {
            Some(reply) => !(patch@ is Obj) && reply@ == refusal(
                400,
                "config patch must be a JSON object"@,
            ),
            None => patch@ is Obj,
        },
{
    if patch.is_object() {
        None
    } else {
        Some(err_response(400, "config patch must be a JSON object"))
    }
}

proof fn union_keeps(have: Seq<JsonV>, more: Seq<JsonV>)
    ensures
        have.is_prefix_of(union_paths(have, more)),
    decreases more.len(),
{
    if more.len() > 0 {
        union_keeps(have, more.drop_last());
        let before = union_paths(have, more.drop_last());
        let now = union_paths(have, more);
        assert(now.take(have.len() as int) =~= before.take(have.len() as int));
    } else {
        assert(have.take(have.len() as int) =~= have);
    }
}

/// Attaching a file never takes access from an earlier one: the paths that were attached
/// stay, in their order, and keys that the patch does not name stay as they were.
pub proof fn attached_paths_accumulate(
    m: Map<Seq<char>, JsonV>,
    patch: Map<Seq<char>, JsonV>,
    key: Seq<char>,
)
    ensures
        patch.contains_key("attached_paths"@) ==> (patched(m, patch)["attached_paths"@] matches JsonV::Arr(
            now,
        ) && items_or_none(JsonV::Obj(m).at("attached_paths"@)).is_prefix_of(now)),
        !patch.contains_key(key) ==> patched(m, patch).contains_key(key) == m.contains_key(key) && (
        m.contains_key(key) ==> patched(m, patch)[key] == m[key]),
        patch.contains_key(key) && key != "attached_paths"@ ==> patched(m, patch)[key]
            == patch[key],
{
    if patch.contains_key("attached_paths"@) {
        union_keeps(
            items_or_none(JsonV::Obj(m).at("attached_paths"@)),
            items_or_none(patch["attached_paths"@]),
        );
    }
}

/// The status for a failed search of statistics.
pub open spec fn failed_stats(error: Seq<char>) -> u16 {
    if contains_text(error, "not found"@) {
        404u16
    } else {
        500u16
    }
}

/// The status for a failed search of statistics: a session that is not there is no
/// failure of the service.
pub fn stats_status(error: &str) -> (r: u16)
    ensures
        r == failed_stats(error@),
{
    if contains(error, "not found") {
        404
    } else {
        500
    }
}

/// A stored message.
#[derive(Debug)]
pub struct MessageRow {
    pub rowid: i64,
    pub id: String,
    pub role: String,
    pub content: Option<String>,
    pub tool_calls: Option<String>,
    pub tool_call_id: Option<String>,
    pub token_count: Option<i64>,
    pub content_format: Option<String>,
}

/// The position of the message with an identifier.
pub open spec fn row_at(rows: Seq<MessageRow>, id: Seq<char>) -> Option<int>
    decreases rows.len(),
{
    if rows.len() == 0 {
        None
    } else if rows[0].id@ == id {
        Some(0int)
    } else {
        match row_at(rows.skip(1), id) {
            Some(i) => Some(i + 1),
            None => None,
        }
    }
}

/// The messages up to a row, in order; all of them without one.
pub open spec fn rows_upto(rows: Seq<MessageRow>, cutoff: Option<i64>) -> Seq<MessageRow>
    decreases rows.len(),
{
    if rows.len() == 0 {
        Seq::empty()
    } else {
        let before = rows_upto(rows.drop_last(), cutoff);
        let keep = match cutoff {
            Some(c) => rows.last().rowid <= c,
            None => true,
        };
        if keep {
            before.push(rows.last())
        } else {
            before
        }
    }
}

/// The row at which a fork is cut: `Err` where the message asked for is not there.
pub open spec fn cutoff_of(rows: Seq<MessageRow>, at: Option<Seq<char>>) -> Result<
    Option<i64>,
    (),
> {
    match at {
        None => Ok(None),
        Some(id) => match row_at(rows, id) {
            Some(i) => Ok(Some(rows[i].rowid)),
            None => Err(()),
        },
    }
}

/// Why a session cannot be forked at a message.
pub open spec fn fork_refusal() -> ReplyV {
    refusal(
        404,
        "This chat cannot be forked — the selected message no longer exists in this session."@,
    )
}

proof fn row_at_bounds(rows: Seq<MessageRow>, id: Seq<char>)
    ensures
        row_at(rows, id) matches Some(i) ==> 0 <= i < rows.len() && rows[i].id@ == id,
    decreases rows.len(),
{
    if rows.len() > 0 && rows[0].id@ != id {
        row_at_bounds(rows.skip(1), id);
    }
}

/// The row at which a fork is cut. A message that is not there is refused, and not taken
/// for a wish to fork everything.
pub fn fork_cutoff(rows: &Vec<MessageRow>, at_message_id: Option<&str>) -> (r: Result<
    Option<i64>,
    Reply,
>)
    ensures
        match cutoff_of(rows@, opt_text(at_message_id)) {
            Ok(c) => r matches Ok(cut) && cut == c,
            Err(_) => r matches Err(reply) && reply@ == fork_refusal(),
        },
{
    match at_message_id {
        None => Ok(None),
        Some(id) => {
            let mut i: usize = 0;
            proof {
                assert(rows@.skip(0) =~= rows@);
            }
            while i < rows.len()
                invariant
                    at_message_id == Some(id),
                    i <= rows@.len(),
                    row_at(rows@, id@) == (match row_at(rows@.skip(i as int), id@) {
                        Some(k) => Some(k + i),
                        None => None,
                    }),
                decreases rows@.len() - i,
            {
                proof {
                    assert(rows@.skip(i as int)[0] == rows@[i as int]);
                    assert(rows@.skip(i as int).skip(1) =~= rows@.skip(i + 1));
                }
                if same(rows[i].id.as_str(), id) {
                    return Ok(Some(rows[i].rowid));
                }
                i += 1;
            }
            proof {
                assert(rows@.skip(i as int) =~= Seq::empty());
            }
            Err(
                err_response(
                    404,
                    "This chat cannot be forked — the selected message no longer exists in this session.",
                ),
            )
        },
    }
}

/// The messages that a fork copies, in order.
pub fn fork_kept(rows: Vec<MessageRow>, cutoff: Option<i64>) -> (r: Vec<MessageRow>)
    ensures
        r@ == rows_upto(rows@, cutoff),
{
    let ghost all = rows@;
    let mut rest = rows;
    let mut out: Vec<MessageRow> = Vec::new();
    let ghost mut k: int = 0;
    proof {
        assert(all.take(0) =~= Seq::empty());
        assert(all.skip(0) =~= all);
    }
    while rest.len() > 0
        invariant
            0 <= k <= all.len(),
            rest@ == all.skip(k),
            out@ == rows_upto(all.take(k), cutoff),
        decreases rest@.len(),
    {
        let row = rest.remove(0);
        proof {
            assert(row == all[k]);
            assert(all.take(k + 1).drop_last() =~= all.take(k));
            assert(rest@ =~= all.skip(k + 1));
            k = k + 1;
        }
        let keep = match cutoff {
            Some(c) => row.rowid <= c,
            None => true,
        };
        if keep {
            out.push(row);
        }
    }
    proof {
        assert(all.take(k) =~= all);
    }
    out
}

/// A fork at a message holds that message, and nothing after it.
pub proof fn fork_ends_at_the_message(rows: Seq<MessageRow>, id: Seq<char>)
    requires
        row_at(rows, id) is Some,
    ensures
        ({
            let cut = rows[row_at(rows, id)->0].rowid;
            let kept = rows_upto(rows, Some(cut));
            &&& cutoff_of(rows, Some(id)) == Ok::<Option<i64>, ()>(Some(cut))
            &&& kept.contains(rows[row_at(rows, id)->0])
            &&& forall|i: int| 0 <= i < kept.len() ==> (#[trigger] kept[i]).rowid <= cut
        }),
{
    row_at_bounds(rows, id);
    let i = row_at(rows, id)->0;
    kept_rows(rows, rows[i].rowid, i);
}

proof fn kept_rows(rows: Seq<MessageRow>, cut: i64, at: int)
    requires
        0 <= at < rows.len(),
        rows[at].rowid <= cut,
    ensures
        rows_upto(rows, Some(cut)).contains(rows[at]),
        forall|i: int|
            0 <= i < rows_upto(rows, Some(cut)).len() ==> (#[trigger] rows_upto(
                rows,
                Some(cut),
            )[i]).rowid <= cut,
    decreases rows.len(),
{
    let now = rows_upto(rows, Some(cut));
    let prev = rows.drop_last();
    let before = rows_upto(prev, Some(cut));
    kept_rows_small(prev, cut);
    if at < rows.len() - 1 {
        kept_rows(prev, cut, at);
        let j = choose|j: int| 0 <= j < before.len() && before[j] == prev[at];
        assert(now[j] == rows[at]);
    } else {
        assert(now[now.len() - 1] == rows[at]);
    }
    assert forall|i: int| 0 <= i < now.len() implies (#[trigger] now[i]).rowid <= cut by {
        if i < before.len() {
            assert(now[i] == before[i]);
        }
    }
}

proof fn kept_rows_small(rows: Seq<MessageRow>, cut: i64)
    ensures
        forall|i: int|
            0 <= i < rows_upto(rows, Some(cut)).len() ==> (#[trigger] rows_upto(
                rows,
                Some(cut),
            )[i]).rowid <= cut,
    decreases rows.len(),
{
    if rows.len() > 0 {
        let now = rows_upto(rows, Some(cut));
        let before = rows_upto(rows.drop_last(), Some(cut));
        kept_rows_small(rows.drop_last(), cut);
        assert forall|i: int| 0 <= i < now.len() implies (#[trigger] now[i]).rowid <= cut by {
            if i < before.len() {
                assert(now[i] == before[i]);
            }
        }
    }
}

/// The row of the fork that holds the copy of the source's compaction boundary.
pub open spec fn mapped_boundary(kept: Seq<i64>, copied: Seq<i64>, boundary: i64) -> Option<i64>
    decreases kept.len(),
{
    if kept.len() == 0 || copied.len() != kept.len() {
        None
    } else if kept.last() == boundary {
        Some(copied.last())
    } else {
        mapped_boundary(kept.drop_last(), copied.drop_last(), boundary)
    }
}

/// The copying of a session's messages into a fork: which rows were copied, and where the
/// copies stand.
pub struct ForkCopy {
    boundary: i64,
    mapped: Option<i64>,
    kept: Ghost<Seq<i64>>,
    copied: Ghost<Seq<i64>>,
}

impl ForkCopy {
    /// The rows copied so far.
    pub closed spec fn sources(&self) -> Seq<i64> {
        self.kept@
    }

    /// Where their copies stand.
    pub closed spec fn copies(&self) -> Seq<i64> {
        self.copied@
    }

    /// The source's compaction boundary.
    pub closed spec fn bound(&self) -> i64 {
        self.boundary
    }

    /// The bookkeeping agrees with the rows copied so far.
    pub closed spec fn wf(&self) -> bool {
        self.kept@.len() == self.copied@.len() && self.mapped == mapped_boundary(
            self.kept@,
            self.copied@,
            self.boundary,
        )
    }

    /// Nothing copied yet.
    pub fn new(compacted_through_rowid: i64) -> (r: ForkCopy)
        ensures
            r.wf(),
            r.bound() == compacted_through_rowid,
            r.sources() == Seq::<i64>::empty(),
            r.copies() == Seq::<i64>::empty(),
    {
        ForkCopy {
            boundary: compacted_through_rowid,
            mapped: None,
            kept: Ghost(Seq::empty()),
            copied: Ghost(Seq::empty()),
        }
    }

    /// A row was copied into a new one.
    pub fn inserted(&mut self, source_rowid: i64, new_rowid: i64)
        requires
            old(self).wf(),
        ensures
            final(self).wf(),
            final(self).bound() == old(self).bound(),
            final(self).sources() == old(self).sources().push(source_rowid),
            final(self).copies() == old(self).copies().push(new_rowid),
    {
        if source_rowid == self.boundary {
            self.mapped = Some(new_rowid);
        }
        proof {
            let k = self.kept@.push(source_rowid);
            let c = self.copied@.push(new_rowid);
            assert(k.drop_last() =~= self.kept@);
            assert(c.drop_last() =~= self.copied@);
        }
        self.kept = Ghost(self.kept@.push(source_rowid));
        self.copied = Ghost(self.copied@.push(new_rowid));
    }

    /// The summary and the boundary that the fork takes over: only where the message at
    /// the boundary was copied and there is a summary.
    pub fn carried(&self, memory_slots: Option<String>) -> (r: Option<(String, i64)>)
        requires
            self.wf(),
        ensures
            match (mapped_boundary(self.sources(), self.copies(), self.bound()), memory_slots) {
                (Some(row), Some(slots)) => r matches Some((s, n)) && s@ == slots@ && n == row,
                _ => r is None,
            },
    {
        match self.mapped {
            Some(row) => match memory_slots {
                Some(slots) => Some((slots, row)),
                None => None,
            },
            None => None,
        }
    }
}

/// What happened to a fork that is being made.
#[derive(Debug, Clone, Copy, PartialEq, Eq, Structural)]
pub enum ForkEvent {
    /// The source and its messages were read.
    Read,
    /// Whether the new session could be made.
    Made(bool),
    /// The source's metadata was copied, as far as it could be.
    Described,
    /// Whether the messages could be copied, all of them.
    Copied(bool),
    /// The summary was taken over, as far as it could be.
    Carried,
    /// The new session was deleted again.
    Dropped,
}

/// What is to be done about a fork that is being made.
#[derive(Debug, Clone, Copy, PartialEq, Eq, Structural)]
pub enum ForkAction {
    MakeSession,
    Describe,
    CopyMessages,
    Carry,
    DropSession,
    /// The fork is made, or it failed.
    Finish(bool),
}

/// What follows an event: a session into which the messages could not be copied is deleted
/// again. Metadata and summary do not decide.
pub open spec fn fork_follows(described: bool, event: ForkEvent) -> ForkAction {
    match event {
        ForkEvent::Read => ForkAction::MakeSession,
        ForkEvent::Made(ok) => if !ok {
            ForkAction::Finish(false)
        } else if described {
            ForkAction::Describe
        } else {
            ForkAction::CopyMessages
        },
        ForkEvent::Described => ForkAction::CopyMessages,
        ForkEvent::Copied(ok) => if ok {
            ForkAction::Carry
        } else {
            ForkAction::DropSession
        },
        ForkEvent::Carried => ForkAction::Finish(true),
        ForkEvent::Dropped => ForkAction::Finish(false),
    }
}

/// The making of a fork.
#[derive(Debug, Clone, Copy, PartialEq, Eq, Structural)]
pub struct ForkRun {
    /// The source has metadata.
    pub described: bool,
}

impl ForkRun {
    /// The fork of a session with metadata, or without.
    pub fn new(described: bool) -> (r: ForkRun)
        ensures
            r.described == described,
    {
        ForkRun { described }
    }

    /// What is to be done after an event.
    pub fn next(&self, event: ForkEvent) -> (r: ForkAction)
        ensures
            r == fork_follows(self.described, event),
    {
        match event {
            ForkEvent::Read => ForkAction::MakeSession,
            ForkEvent::Made(ok) => if !ok {
                ForkAction::Finish(false)
            } else if self.described {
                ForkAction::Describe
            } else {
                ForkAction::CopyMessages
            },
            ForkEvent::Described => ForkAction::CopyMessages,
            ForkEvent::Copied(ok) => if ok {
                ForkAction::Carry
            } else {
                ForkAction::DropSession
            },
            ForkEvent::Carried => ForkAction::Finish(true),
            ForkEvent::Dropped => ForkAction::Finish(false),
        }
    }
}

/// How a fork stands: whether there is a new session, and whether it holds the messages.
pub struct ForkedV {
    pub session: bool,
    pub messages: bool,
}

/// How the fork stands once an action was done as the event tells.
pub open spec fn forked(w: ForkedV, action: ForkAction, event: ForkEvent) -> ForkedV {
    match action {
        ForkAction::MakeSession => ForkedV { session: event == ForkEvent::Made(true), ..w },
        ForkAction::CopyMessages => ForkedV { messages: event == ForkEvent::Copied(true), ..w },
        ForkAction::DropSession => ForkedV { session: false, messages: false },
        _ => w,
    }
}

/// The event tells what became of an action.
pub open spec fn fork_answers(action: ForkAction, event: ForkEvent) -> bool {
    match action {
        ForkAction::MakeSession => event is Made,
        ForkAction::Describe => event is Described,
        ForkAction::CopyMessages => event is Copied,
        ForkAction::Carry => event is Carried,
        ForkAction::DropSession => event is Dropped,
        ForkAction::Finish(_) => false,
    }
}

/// An event answers what followed the one before it, and the fork stands accordingly.
pub open spec fn fork_step(
    described: bool,
    events: Seq<ForkEvent>,
    worlds: Seq<ForkedV>,
    i: int,
) -> bool {
    let action = fork_follows(described, events[i - 1]);
    fork_answers(action, events[i]) && worlds[i] == forked(worlds[i - 1], action, events[i])
}

/// The making of a whole fork, with how it stood at each event.
pub open spec fn is_whole_fork(
    described: bool,
    events: Seq<ForkEvent>,
    worlds: Seq<ForkedV>,
) -> bool {
    &&& events.len() > 0
    &&& events.len() == worlds.len()
    &&& events[0] == ForkEvent::Read
    &&& worlds[0] == (ForkedV { session: false, messages: false })
    &&& forall|i: int| 0 < i < events.len() ==> #[trigger] fork_step(described, events, worlds, i)
    &&& fork_follows(described, events.last()) is Finish
}

/// A fork is made with all its messages, or no session is left of it.
pub proof fn forks_are_whole_or_nothing(
    described: bool,
    events: Seq<ForkEvent>,
    worlds: Seq<ForkedV>,
)
    requires
        is_whole_fork(described, events, worlds),
    ensures
        ({
            let made = fork_follows(described, events.last()) == ForkAction::Finish(true);
            worlds.last() == ForkedV { session: made, messages: made }
        }),
{
    let n = events.len();
    assert(n > 1);
    assert(fork_step(described, events, worlds, 1));
    if n > 2 {
        assert(fork_step(described, events, worlds, 2));
        if n > 3 {
            assert(fork_step(described, events, worlds, 3));
            if n > 4 {
                assert(fork_step(described, events, worlds, 4));
                if n > 5 {
                    assert(fork_step(described, events, worlds, 5));
                }
            }
        }
    }
}

/// A fork takes the summary over just where it copied the message at the boundary, and the
/// new boundary is the copy of a message at the old one.
pub proof fn boundary_is_remapped(kept: Seq<i64>, copied: Seq<i64>, boundary: i64)
    requires
        kept.len() == copied.len(),
    ensures
        mapped_boundary(kept, copied, boundary) is Some <==> kept.contains(boundary),
        mapped_boundary(kept, copied, boundary) matches Some(row) ==> exists|i: int|
            0 <= i < kept.len() && #[trigger] kept[i] == boundary && copied[i] == row,
    decreases kept.len(),
{
    if kept.len() > 0 {
        let k = kept.drop_last();
        let c = copied.drop_last();
        if kept.last() == boundary {
            assert(kept[kept.len() - 1] == boundary);
        } else {
            boundary_is_remapped(k, c, boundary);
            if mapped_boundary(k, c, boundary) is Some {
                let row = mapped_boundary(k, c, boundary)->0;
                let i = choose|i: int| 0 <= i < k.len() && #[trigger] k[i] == boundary && c[i] == row;
                assert(kept[i] == boundary && copied[i] == row);
            }
            if kept.contains(boundary) {
                let i = choose|i: int| 0 <= i < kept.len() && kept[i] == boundary;
                assert(k[i] == boundary);
            }
        }
    }
}

/// What is answered to a decision on an action that is not pending.
pub open spec fn not_pending(action_id: Seq<char>, session_id: Seq<char>) -> ReplyV {
    refusal(404, "no pending action "@ + action_id + " for session "@ + session_id)
}

/// What is answered to a decision on an action that is not pending for the session.
pub fn approval_refusal(pending: &Vec<String>, action_id: &str, session_id: &str) -> (r: Option<
    Reply,
>)
    ensures
        match r {
            None => texts(pending@).contains(action_id@),
            Some(reply) => !texts(pending@).contains(action_id@) && reply@ == not_pending(
                action_id@,
                session_id@,
            ),
        },
{
    if listed(pending, action_id) {
        None
    } else {
        let mut m = join3("no pending action ", action_id, " for session ");
        m.push_str(session_id);
        Some(err_response(404, m.as_str()))
    }
}

/// The provider that a session's metadata names.
pub open spec fn session_provider_v(meta: Option<JsonV>) -> Option<Seq<char>> {
    match meta {
        Some(m) => m.text_at("provider"@),
        None => None,
    }
}

/// The provider that parsed metadata names.
pub fn provider_in(meta: &Json) -> (r: Option<String>)
    ensures
        opt_string(r) == session_provider_v(Some(meta@)),
{
    owned_opt(meta.get_str("provider"))
}

/// The provider that a session's stored metadata names.
pub fn session_provider(metadata: Option<&str>) -> (r: Option<String>)
    ensures
        opt_string(r) == (match metadata {
            Some(m) => session_provider_v(json_of_text(m@)),
            None => None,
        }),
{
    match metadata {
        Some(m) => match Json::parse(m) {
            Ok(j) => provider_in(&j),
            Err(_) => None,
        },
        None => None,
    }
}

/// What a compaction of a session works with.
#[derive(Debug, PartialEq)]
pub struct CompactionPlan {
    /// The provider that may summarise, where there is any.
    pub provider_id: Option<String>,
    pub model: Option<String>,
    /// The context that the session is to fit in.
    pub context_length: i32,
}

/// The plan is what a compaction of a session works with, where `meta` is what its metadata
/// says.
pub open spec fn is_plan(
    r: CompactionPlan,
    m: Map<Seq<char>, ProviderEntry>,
    meta: Option<JsonV>,
    max_context_tokens: i32,
) -> bool {
    match r.provider_id {
        Some(id) => m.contains_key(id@) && is_choice(m, session_provider_v(meta), id@)
            && opt_string(r.model) == Some(m[id@].service.model_for(None)) && r.context_length == (
        match m[id@].context_length {
            Some(n) => n,
            None => max_context_tokens,
        }),
        None => m == Map::<Seq<char>, ProviderEntry>::empty() && r.model is None && r.context_length
            == max_context_tokens,
    }
}

/// What a compaction of a session works with: the session's own provider, else the first,
/// with its model and its context length. Where there is no provider, or its context length
/// is not known, the given limit counts.
pub fn compaction_plan(
    router: &ProviderRouter,
    metadata: Option<&str>,
    max_context_tokens: i32,
) -> (r: CompactionPlan)
    requires
        router.wf(),
    ensures
        is_plan(r, router@.entries, match metadata {
            Some(t) => json_of_text(t@),
            None => None,
        }, max_context_tokens),
{
    let asked = session_provider(metadata);
    let preferred = match &asked {
        Some(p) => Some(p.as_str()),
        None => None,
    };
    match router.resolve_provider(preferred) {
        Ok((id, model)) => {
            let context_length: i32 = match router.context_length(id.as_str()) {
                Some(n) => n,
                None => max_context_tokens,
            };
            CompactionPlan { provider_id: Some(id), model: Some(model), context_length }
        },
        Err(_) => CompactionPlan {
            provider_id: None,
            model: None,
            context_length: max_context_tokens,
        },
    }
}

/// What a compaction did.
#[derive(Debug, Clone, Copy, PartialEq, Eq, Structural)]
pub struct CompactionResult {
    pub messages_compacted: i64,
    pub tokens_before: i64,
    pub tokens_after: i64,
}

/// What is answered to a compaction.
pub open spec fn compacted_reply(result: Option<CompactionResult>) -> ReplyV {
    ReplyV {
        status: 200,
        body: match result {
            Some(c) => JsonV::empty().put("compacted"@, JsonV::Bool(true)).put(
                "messages_compacted"@,
                JsonV::Int(c.messages_compacted as int),
            ).put("tokens_before"@, JsonV::Int(c.tokens_before as int)).put(
                "tokens_after"@,
                JsonV::Int(c.tokens_after as int),
            ),
            None => JsonV::empty().put("compacted"@, JsonV::Bool(false)),
        },
    }
}

/// What is answered to a compaction: what it did, or that there was nothing to do.
pub fn compaction_reply(result: Option<CompactionResult>) -> (r: Reply)
    ensures
        r@ == compacted_reply(result),
{
    match result {
        Some(c) => json_response(
            Json::object().with("compacted", Json::Bool(true)).with(
                "messages_compacted",
                Json::Int(c.messages_compacted),
            ).with("tokens_before", Json::Int(c.tokens_before)).with(
                "tokens_after",
                Json::Int(c.tokens_after),
            ),
        ),
        None => json_response(Json::object().with("compacted", Json::Bool(false))),
    }
}

/// A session remembers its mode, or that it is a chat; its working directory, where one is
/// given, and that it was the first; and its provider, with the model only where there is one.
/// What is empty is not given.
pub proof fn sessions_remember_their_request(
    mode: Option<Seq<char>>,
    cwd: Option<Seq<char>>,
    provider: Option<Seq<char>>,
    model: Option<Seq<char>>,
)
    ensures
        ({
            let meta = first_metadata(mode, cwd, provider, model);
            let said = |o: Option<Seq<char>>| o matches Some(t) && t.len() > 0;
            &&& meta.get("mode"@) == Some(
                if said(mode) {
                    JsonV::Str(mode->0)
                } else {
                    JsonV::Str("chat"@)
                },
            )
            &&& meta.get("cwd"@) == (if said(cwd) {
                Some(JsonV::Str(cwd->0))
            } else {
                None
            })
            &&& meta.get("chat_dir"@) == (if said(cwd) {
                Some(JsonV::Str(cwd->0))
            } else {
                None
            })
            &&& meta.get("provider"@) == (if said(provider) {
                Some(JsonV::Str(provider->0))
            } else {
                None
            })
            &&& meta.get("model"@) == (if said(provider) && said(model) {
                Some(JsonV::Str(model->0))
            } else {
                None
            })
        }),
{
    reveal_strlit("mode");
    reveal_strlit("cwd");
    reveal_strlit("chat_dir");
    reveal_strlit("provider");
    reveal_strlit("model");
    assert("mode"@.len() == 4 && "cwd"@.len() == 3 && "chat_dir"@.len() == 8 && "provider"@.len()
        == 8 && "model"@.len() == 5 && "chat_dir"@[0] == 'c' && "provider"@[0] == 'p');
}

/// Attaching paths leaves each of them attached, old and new, and attaches nothing else: what
/// is there was there before or is new.
pub proof fn paths_are_attached(have: Seq<JsonV>, more: Seq<JsonV>, k: int)
    ensures
        ({
            let all = union_paths(have, more);
            &&& 0 <= k < have.len() ==> k < all.len() && all[k] == have[k]
            &&& 0 <= k < more.len() ==> all.contains(more[k]) || exists|i: int|
                0 <= i < all.len() && json_equal(#[trigger] all[i], more[k])
            &&& have.len() <= k < all.len() ==> more.contains(all[k])
            &&& more.len() == 0 ==> all == have
        }),
    decreases more.len(),
{
    union_keeps(have, more);
    let all = union_paths(have, more);
    if 0 <= k < have.len() {
        assert(all.take(have.len() as int)[k] == have[k]);
    }
    if more.len() > 0 {
        let less = more.drop_last();
        let before = union_paths(have, less);
        paths_are_attached(have, less, k);
        if 0 <= k < less.len() {
            assert(less[k] == more[k]);
            if before.contains(less[k]) {
                let i = choose|i: int| 0 <= i < before.len() && before[i] == less[k];
                assert(all[i] == more[k]);
            } else {
                let i = choose|i: int| 0 <= i < before.len() && json_equal(#[trigger] before[i], less[k]);
                assert(json_equal(all[i], more[k]));
            }
        }
        if k == less.len() {
            if among(before, more.last()) {
                let i = choose|i: int|
                    0 <= i < before.len() && json_equal(#[trigger] before[i], more.last());
                assert(json_equal(all[i], more[k]));
            } else {
                assert(all[before.len() as int] == more[k]);
            }
        }
        if have.len() <= k < all.len() {
            if k < before.len() {
                let i = choose|i: int| 0 <= i < less.len() && less[i] == before[k];
                assert(more[i] == all[k]);
            } else {
                assert(more[more.len() - 1] == all[k]);
            }
        }
    }
}

/// A fork without a message copies all messages; one at a message copies, in their order, just
/// those that do not come after it. A message that is not there is no place to fork at.
pub proof fn forks_copy_what_came_before(rows: Seq<MessageRow>, next: MessageRow, cut: i64, id: Seq<char>)
    ensures
        rows_upto(rows, None) == rows,
        rows_upto(rows.push(next), Some(cut)) == (if next.rowid <= cut {
            rows_upto(rows, Some(cut)).push(next)
        } else {
            rows_upto(rows, Some(cut))
        }),
        rows_upto(Seq::empty(), Some(cut)).len() == 0,
        cutoff_of(rows, None) == Ok::<Option<i64>, ()>(None),
        cutoff_of(rows, Some(id)) is Err <==> forall|i: int|
            0 <= i < rows.len() ==> (#[trigger] rows[i]).id@ != id,
        fork_refusal().status == 404,
{
    all_rows(rows);
    assert(rows.push(next).drop_last() =~= rows);
    row_at_bounds(rows, id);
    row_is_found(rows, id);
}

proof fn all_rows(rows: Seq<MessageRow>)
    ensures
        rows_upto(rows, None) == rows,
    decreases rows.len(),
{
    if rows.len() > 0 {
        all_rows(rows.drop_last());
        assert(rows.drop_last().push(rows.last()) =~= rows);
    } else {
        assert(rows_upto(rows, None) =~= rows);
    }
}

proof fn row_is_found(rows: Seq<MessageRow>, id: Seq<char>)
    ensures
        row_at(rows, id) is None ==> forall|i: int|
            0 <= i < rows.len() ==> (#[trigger] rows[i]).id@ != id,
    decreases rows.len(),
{
    if rows.len() > 0 && rows[0].id@ != id {
        let rest = rows.skip(1);
        row_is_found(rest, id);
        if row_at(rows, id) is None {
            assert forall|i: int| 0 <= i < rows.len() implies (#[trigger] rows[i]).id@ != id by {
                if i > 0 {
                    assert(rest[i - 1] == rows[i]);
                }
            }
        }
    }
}

/// A fork that meets no failure is made: a session, then the source's metadata where it has
/// any, then the messages, then the summary. Metadata and summary are only ever taken over into
/// a session that is there, and a session without its messages is dropped.
pub proof fn forks_without_failures_are_made(described: bool)
    ensures
        fork_follows(described, ForkEvent::Read) == ForkAction::MakeSession,
        fork_follows(true, ForkEvent::Made(true)) == ForkAction::Describe,
        fork_follows(true, ForkEvent::Described) == ForkAction::CopyMessages,
        fork_follows(false, ForkEvent::Made(true)) == ForkAction::CopyMessages,
        fork_follows(described, ForkEvent::Copied(true)) == ForkAction::Carry,
        fork_follows(described, ForkEvent::Carried) == ForkAction::Finish(true),
        fork_follows(described, ForkEvent::Made(false)) == ForkAction::Finish(false),
        fork_follows(described, ForkEvent::Copied(false)) == ForkAction::DropSession,
        fork_follows(described, ForkEvent::Dropped) == ForkAction::Finish(false),
{
}

/// A session's provider is the one that its metadata names, and none where it names none.
pub proof fn sessions_name_their_provider(meta: JsonV)
    ensures
        session_provider_v(Some(meta)) == (match meta.at("provider"@) {
            JsonV::Str(p) => Some(p),
            _ => None,
        }),
        session_provider_v(None) is None,
        filled(Some(""@)) is None,
        filled(None) is None,
        forall|t: Seq<char>| t.len() > 0 ==> #[trigger] filled(Some(t)) == Some(t),
{
    reveal_strlit("");
}

/// What is no object is not patched, and an object is patched by its members.
pub proof fn patches_replace_members(m: Map<Seq<char>, JsonV>, patch: Map<Seq<char>, JsonV>, key: Seq<char>)
    ensures
        ({
            let now = patched_metadata(JsonV::Obj(m), patch);
            &&& patch.contains_key(key) && key != "attached_paths"@ ==> now.get(key) == Some(patch[key])
            &&& !patch.contains_key(key) ==> now.get(key) == JsonV::Obj(m).get(key)
            &&& patch.contains_key("attached_paths"@) ==> now.get("attached_paths"@) == Some(
                JsonV::Arr(
                    union_paths(
                        match JsonV::Obj(m).at("attached_paths"@) {
                            JsonV::Arr(s) => s,
                            _ => Seq::empty(),
                        },
                        match patch["attached_paths"@] {
                            JsonV::Arr(s) => s,
                            _ => Seq::empty(),
                        },
                    ),
                ),
            )
        }),
        patched_metadata(JsonV::Null, patch) == JsonV::Null,
{
    attached_paths_accumulate(m, patch, key);
}

/// A page holds as many sessions as are asked for, from where it is asked for: fifty from the
/// first where nothing is, never fewer than none nor more than five hundred, and never from
/// before the first.
pub proof fn pages_hold_what_is_asked(n: i64)
    ensures
        page_size(None) == 50,
        0 <= n <= 500 ==> page_size(Some(n)) == n,
        n > 500 ==> page_size(Some(n)) == 500,
        n < 0 ==> page_size(Some(n)) == 0,
        page_start(None) == 0,
        n >= 0 ==> page_start(Some(n)) == n,
        n < 0 ==> page_start(Some(n)) == 0,
{
}

/// A deletion succeeds just where something was deleted; where nothing was, the session is not
/// there.
pub proof fn deletions_are_answered_by_what_went(deleted: Result<u64, String>, id: Seq<char>)
    ensures
        deletion_reply(deleted, id).status == (match deleted {
            Ok(n) => if n > 0 {
                200u16
            } else {
                404u16
            },
            Err(_) => 500u16,
        }),
        deleted matches Err(e) ==> deletion_reply(deleted, id).body.get("error"@) == Some(
            JsonV::Str(e@),
        ),
{
}

/// A search that did not find its session says so; any other failure is the service's.
pub proof fn failed_searches_say_why(a: Seq<char>, b: Seq<char>, error: Seq<char>)
    ensures
        failed_stats(a + "not found"@ + b) == 404,
        !contains_text(error, "not found"@) ==> failed_stats(error) == 500,
{
    let s = a + "not found"@ + b;
    let n = a.len() as int;
    assert(s.subrange(n, n + "not found"@.len()) =~= "not found"@);
    assert(crate::text::occurs_at(s, "not found"@, n));
}

/// A decision on an action that is not pending is refused, and told which action and session.
pub proof fn decisions_need_a_pending_action(action_id: Seq<char>, session_id: Seq<char>)
    ensures
        not_pending(action_id, session_id).status == 404,
        not_pending(action_id, session_id).body.get("error"@) == Some(
            JsonV::Str("no pending action "@ + action_id + " for session "@ + session_id),
        ),
{
}

/// A compaction tells what it did, each count under its name, or that it did nothing.
pub proof fn compactions_tell_what_they_did(result: Option<CompactionResult>)
    ensures
        compacted_reply(result).status == 200,
        compacted_reply(result).body.get("compacted"@) == Some(JsonV::Bool(result is Some)),
        result matches Some(c) ==> {
            let body = compacted_reply(result).body;
            &&& body.get("messages_compacted"@) == Some(JsonV::Int(c.messages_compacted as int))
            &&& body.get("tokens_before"@) == Some(JsonV::Int(c.tokens_before as int))
            &&& body.get("tokens_after"@) == Some(JsonV::Int(c.tokens_after as int))
        },
{
    reveal_strlit("compacted");
    reveal_strlit("messages_compacted");
    reveal_strlit("tokens_before");
    reveal_strlit("tokens_after");
    assert("compacted"@.len() == 9 && "messages_compacted"@.len() == 18 && "tokens_before"@.len()
        == 13 && "tokens_after"@.len() == 12);
}

/// A session is answered with its identifier.
pub proof fn sessions_are_named(id: Seq<char>)
    ensures
        named_session(id).status == 200,
        named_session(id).body.get("session_id"@) == Some(JsonV::Str(id)),
{
}

/// A session is compacted by its own provider, where that is registered, with its model and to
/// its context; the given limit counts where the context is not known or there is no provider.
pub proof fn sessions_are_compacted_by_their_provider(
    r: CompactionPlan,
    m: Map<Seq<char>, ProviderEntry>,
    meta: Option<JsonV>,
    max_context_tokens: i32,
)
    requires
        is_plan(r, m, meta, max_context_tokens),
    ensures
        meta matches Some(j) ==> (j.at("provider"@) matches JsonV::Str(p) ==> (m.contains_key(p)
            ==> (r.provider_id matches Some(id) && id@ == p))),
        r.provider_id is None <==> m == Map::<Seq<char>, ProviderEntry>::empty(),
        r.provider_id matches Some(id) ==> {
            &&& m.contains_key(id@)
            &&& r.model matches Some(model) && model@ == m[id@].service.model_for(None)
            &&& m[id@].context_length matches Some(n) ==> r.context_length == n
            &&& m[id@].context_length is None ==> r.context_length == max_context_tokens
        },
        r.provider_id is None ==> r.context_length == max_context_tokens && r.model is None,
{
}

} // verus!
