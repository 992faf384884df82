//! The connected tool servers and the tools they offer.
//!
//! All tools share one flat namespace: of two servers that offer a tool of one name, the
//! one that connected later has it.

use crate::dict::Dict;
use crate::error::MCPServerError;
use crate::json::{json_of_text, jsons, opt_string, Json, JsonV};
use crate::mcp::client::error_result;
use crate::mcp::sse_transport::tools_model;
use crate::mcp::tools::{args_fault, args_pass, validate_tool_args};
use crate::models::mcp::{MCPServerConfig, ToolDefinition, ToolResult, ToolV, TransportType};
use crate::registry::Registry;
use crate::routes::mcp::{replace_texts, replaced_value, MCPServerRow};
use crate::text::{decimal, decimal_text, join3, lex_lt, lex_total, lex_transitive, owned, precedes, same, texts};
use vstd::prelude::*;

verus! {

/// How many seconds a call may take where nothing else is set.
pub const DEFAULT_TOOL_TIMEOUT_SECS: u64 = 30;

/// How many seconds a connection may take.
pub const CONNECT_TIMEOUT_SECS: u64 = 60;

/// How many seconds pass between two looks for servers that died.
pub const HEALTH_TICK_SECS: u64 = 15;

/// The first wait before a new attempt to connect, in seconds.
pub const RECONNECT_BASE_BACKOFF_SECS: u64 = 5;

/// The longest wait before a new attempt to connect, in seconds.
pub const RECONNECT_MAX_BACKOFF_SECS: u64 = 300;

/// Two to the power of `n`.
pub open spec fn doubled(n: nat) -> int
    decreases n,
{
    if n == 0 {
        1
    } else {
        2 * doubled((n - 1) as nat)
    }
}

/// The wait after so many failures in a row: it doubles with each, up to a limit.
pub open spec fn backoff(attempts: nat) -> int {
    let steps: nat = if attempts == 0 {
        0
    } else if attempts - 1 < 6 {
        (attempts - 1) as nat
    } else {
        6
    };
    let wait = RECONNECT_BASE_BACKOFF_SECS * doubled(steps);
    if wait < RECONNECT_MAX_BACKOFF_SECS {
        wait
    } else {
        RECONNECT_MAX_BACKOFF_SECS as int
    }
}

proof fn doubled_small()
    ensures
        doubled(0) == 1,
        doubled(1) == 2,
        doubled(2) == 4,
        doubled(3) == 8,
        doubled(4) == 16,
        doubled(5) == 32,
        doubled(6) == 64,
{
    reveal_with_fuel(doubled, 8);
}

/// The wait after so many failures in a row.
pub fn backoff_secs(attempts: u32) -> (r: u64)
    ensures
        r == backoff(attempts as nat),
        RECONNECT_BASE_BACKOFF_SECS <= r <= RECONNECT_MAX_BACKOFF_SECS,
{
    proof {
        doubled_small();
    }
    if attempts <= 1 {
        5
    } else if attempts == 2 {
        10
    } else if attempts == 3 {
        20
    } else if attempts == 4 {
        40
    } else if attempts == 5 {
        80
    } else if attempts == 6 {
        160
    } else {
        300
    }
}

/// Another failure never shortens the wait, which stays between the first and the longest
/// one.
pub proof fn waits_grow(attempts: nat)
    ensures
        backoff(attempts) <= backoff(attempts + 1),
        RECONNECT_BASE_BACKOFF_SECS <= backoff(attempts) <= RECONNECT_MAX_BACKOFF_SECS,
        1 <= attempts < 6 ==> backoff(attempts + 1) == 2 * backoff(attempts),
{
    doubled_small();
}

/// What the manager knows.
#[verifier::ext_equal]
pub struct ManagerV {
    /// The connected servers with the tools that each listed.
    pub servers: Map<Seq<char>, Seq<ToolV>>,
    /// The tools by their names.
    pub tools: Map<Seq<char>, ToolV>,
    /// How many seconds a call may take, by server.
    pub timeouts: Map<Seq<char>, u64>,
    /// The failures in a row, by server.
    pub failures: Map<Seq<char>, u32>,
    /// When a server may be tried again, in milliseconds.
    pub after: Map<Seq<char>, u64>,
}

/// The tools without those of a server.
pub open spec fn pruned(tools: Map<Seq<char>, ToolV>, server_id: Seq<char>) -> Map<
    Seq<char>,
    ToolV,
> {
    Map::new(
        |k: Seq<char>| tools.contains_key(k) && tools[k].server_id != server_id,
        |k: Seq<char>| tools[k],
    )
}

/// The tools with a list added; of two of one name the later counts.
pub open spec fn with_tools(tools: Map<Seq<char>, ToolV>, list: Seq<ToolV>) -> Map<Seq<char>, ToolV>
    decreases list.len(),
{
    if list.len() == 0 {
        tools
    } else {
        with_tools(tools, list.drop_last()).insert(list.last().name, list.last())
    }
}

impl ManagerV {
    /// A server connected and listed its tools: those it had before are gone, and so are
    /// its failures.
    pub open spec fn connected(
        self,
        id: Seq<char>,
        list: Seq<ToolV>,
        timeout_s: Option<u64>,
    ) -> ManagerV {
        ManagerV {
            servers: self.servers.insert(id, list),
            tools: with_tools(pruned(self.tools, id), list),
            timeouts: match timeout_s {
                Some(n) => self.timeouts.insert(id, n),
                None => self.timeouts.remove(id),
            },
            failures: self.failures.remove(id),
            after: self.after.remove(id),
        }
    }

    /// A server is gone, with its tools.
    pub open spec fn gone(self, id: Seq<char>) -> ManagerV {
        if self.servers.contains_key(id) {
            ManagerV {
                servers: self.servers.remove(id),
                tools: pruned(self.tools, id),
                timeouts: self.timeouts.remove(id),
                ..self
            }
        } else {
            ManagerV { timeouts: self.timeouts.remove(id), ..self }
        }
    }

    /// One failure more in a row.
    pub open spec fn next_failures(self, id: Seq<char>) -> u32 {
        let n = if self.failures.contains_key(id) {
            self.failures[id]
        } else {
            0
        };
        if n < u32::MAX {
            (n + 1) as u32
        } else {
            n
        }
    }

    /// A connection failed: the next attempt waits.
    pub open spec fn failed(self, id: Seq<char>, now_ms: u64) -> ManagerV {
        let n = self.next_failures(id);
        let when = now_ms + 1000 * backoff(n as nat);
        ManagerV {
            failures: self.failures.insert(id, n),
            after: self.after.insert(
                id,
                if when <= u64::MAX {
                    when as u64
                } else {
                    u64::MAX
                },
            ),
            ..self
        }
    }

    /// A server may be tried again.
    pub open spec fn due(self, id: Seq<char>, now_ms: u64) -> bool {
        !self.after.contains_key(id) || now_ms >= self.after[id]
    }

    /// How many seconds a call may take: what the caller asks, else what the server is
    /// set to, else the default.
    pub open spec fn call_timeout(self, server_id: Seq<char>, asked: Option<u64>) -> u64 {
        match asked {
            Some(n) => n,
            None => if self.timeouts.contains_key(server_id) {
                self.timeouts[server_id]
            } else {
                DEFAULT_TOOL_TIMEOUT_SECS
            },
        }
    }
}

/// Pruning takes a server's tools and no others.
pub proof fn pruning_takes_one_server(tools: Map<Seq<char>, ToolV>, server_id: Seq<char>, name: Seq<char>)
    ensures
        pruned(tools, server_id).contains_key(name) <==> tools.contains_key(name)
            && tools[name].server_id != server_id,
        pruned(tools, server_id).contains_key(name) ==> pruned(tools, server_id)[name]
            == tools[name],
{
}

/// Once a server is gone, no tool of it is offered any more.
pub proof fn gone_servers_offer_nothing(st: ManagerV, id: Seq<char>, name: Seq<char>)
    requires
        st.servers.contains_key(id),
    ensures
        !st.gone(id).servers.contains_key(id),
        st.gone(id).tools.contains_key(name) ==> st.gone(id).tools[name].server_id != id,
{
}

/// Each tool that is offered stands under its name, and its server is connected.
pub open spec fn is_sound(st: ManagerV) -> bool {
    forall|k: Seq<char>| #[trigger]
        st.tools.contains_key(k) ==> st.tools[k].name == k && st.servers.contains_key(
            st.tools[k].server_id,
        )
}

proof fn added_tools_are_sound(tools: Map<Seq<char>, ToolV>, list: Seq<ToolV>, id: Seq<char>)
    requires
        forall|i: int| 0 <= i < list.len() ==> (#[trigger] list[i]).server_id == id,
        forall|k: Seq<char>| #[trigger] tools.contains_key(k) ==> tools[k].name == k,
    ensures
        forall|k: Seq<char>| #[trigger]
            with_tools(tools, list).contains_key(k) ==> with_tools(tools, list)[k].name == k && (
            with_tools(tools, list)[k].server_id == id || (tools.contains_key(k) && with_tools(
                tools,
                list,
            )[k] == tools[k])),
    decreases list.len(),
{
    if list.len() > 0 {
        added_tools_are_sound(tools, list.drop_last(), id);
        assert(list.last().server_id == id);
    }
}

/// Whatever happens to servers, a tool that is offered has a server that is connected, as
/// long as each server lists its own tools.
pub proof fn offered_tools_have_servers(
    st: ManagerV,
    id: Seq<char>,
    list: Seq<ToolV>,
    timeout_s: Option<u64>,
    now_ms: u64,
)
    requires
        is_sound(st),
        forall|i: int| 0 <= i < list.len() ==> (#[trigger] list[i]).server_id == id,
    ensures
        is_sound(st.connected(id, list, timeout_s)),
        is_sound(st.gone(id)),
        is_sound(st.failed(id, now_ms)),
{
    added_tools_are_sound(pruned(st.tools, id), list, id);
    let now = st.connected(id, list, timeout_s);
    assert forall|k: Seq<char>| #[trigger] now.tools.contains_key(k) implies now.tools[k].name == k
        && now.servers.contains_key(now.tools[k].server_id) by {
        if now.tools[k].server_id != id {
            assert(pruned(st.tools, id).contains_key(k));
            assert(st.tools.contains_key(k));
        }
    }
    assert forall|k: Seq<char>| #[trigger] st.gone(id).tools.contains_key(k) implies st.gone(
        id,
    ).tools[k].name == k && st.gone(id).servers.contains_key(st.gone(id).tools[k].server_id) by {
        assert(st.tools.contains_key(k));
    }
}

/// The tools in the order of their names, each after those of the same name.
pub open spec fn insert_tool(sorted: Seq<ToolV>, t: ToolV) -> Seq<ToolV>
    decreases sorted.len(),
{
    if sorted.len() > 0 && lex_lt(t.name, sorted.last().name) {
        insert_tool(sorted.drop_last(), t).push(sorted.last())
    } else {
        sorted.push(t)
    }
}

/// The tools in the order of their names; tools of one name stay in their order.
pub open spec fn sorted_tools(list: Seq<ToolV>) -> Seq<ToolV>
    decreases list.len(),
{
    if list.len() == 0 {
        Seq::empty()
    } else {
        insert_tool(sorted_tools(list.drop_last()), list.last())
    }
}

/// No tool comes before one whose name is smaller.
pub open spec fn in_order(list: Seq<ToolV>) -> bool {
    forall|i: int, j: int|
        0 <= i < j < list.len() ==> !lex_lt((#[trigger] list[j]).name, (#[trigger] list[i]).name)
}

proof fn insert_keeps_order(sorted: Seq<ToolV>, t: ToolV)
    requires
        in_order(sorted),
    ensures
        in_order(insert_tool(sorted, t)),
        insert_tool(sorted, t).to_multiset() == sorted.to_multiset().insert(t),
        forall|i: int|
            0 <= i < insert_tool(sorted, t).len() ==> (#[trigger] insert_tool(sorted, t)[i]) == t
                || sorted.contains(insert_tool(sorted, t)[i]),
    decreases sorted.len(),
{
    broadcast use vstd::seq_lib::group_to_multiset_ensures;

    let out = insert_tool(sorted, t);
    if sorted.len() > 0 && lex_lt(t.name, sorted.last().name) {
        let rest = sorted.drop_last();
        let last = sorted.last();
        let inner = insert_tool(rest, t);
        assert forall|i: int, j: int| 0 <= i < j < rest.len() implies !lex_lt(
            (#[trigger] rest[j]).name,
            (#[trigger] rest[i]).name,
        ) by {
            assert(!lex_lt(sorted[j].name, sorted[i].name));
        }
        insert_keeps_order(rest, t);
        assert(rest.push(last) =~= sorted);
        assert(out == inner.push(last));
        assert(sorted.to_multiset() =~= rest.to_multiset().insert(last));
        assert(out.to_multiset() =~= inner.to_multiset().insert(last));
        assert(out.to_multiset() =~= sorted.to_multiset().insert(t));
        assert forall|i: int| 0 <= i < out.len() implies (#[trigger] out[i]) == t
            || sorted.contains(out[i]) by {
            if i < inner.len() {
                assert(out[i] == inner[i]);
                if inner[i] != t {
                    let k = choose|k: int| 0 <= k < rest.len() && rest[k] == inner[i];
                    assert(sorted[k] == inner[i]);
                }
            } else {
                assert(sorted[sorted.len() - 1] == out[i]);
            }
        }
        assert forall|i: int, j: int| 0 <= i < j < out.len() implies !lex_lt(
            (#[trigger] out[j]).name,
            (#[trigger] out[i]).name,
        ) by {
            if j < inner.len() {
                assert(out[i] == inner[i] && out[j] == inner[j]);
            } else {
                assert(out[j] == last);
                assert(out[i] == inner[i]);
                if inner[i] == t {
                    lex_total(t.name, last.name);
                } else {
                    let k = choose|k: int| 0 <= k < rest.len() && rest[k] == inner[i];
                    assert(!lex_lt(sorted[sorted.len() - 1].name, sorted[k].name));
                }
            }
        }
    } else {
        assert(out == sorted.push(t));
        assert forall|i: int| 0 <= i < out.len() implies (#[trigger] out[i]) == t
            || sorted.contains(out[i]) by {
            if i < sorted.len() {
                assert(sorted[i] == out[i]);
            }
        }
        assert forall|i: int, j: int| 0 <= i < j < out.len() implies !lex_lt(
            (#[trigger] out[j]).name,
            (#[trigger] out[i]).name,
        ) by {
            if j < sorted.len() {
                assert(out[i] == sorted[i] && out[j] == sorted[j]);
            } else {
                assert(out[j] == t);
                assert(out[i] == sorted[i]);
                let last = sorted[sorted.len() - 1];
                if lex_lt(t.name, sorted[i].name) {
                    lex_total(last.name, sorted[i].name);
                    lex_total(t.name, last.name);
                    if i < sorted.len() - 1 {
                        assert(!lex_lt(last.name, sorted[i].name));
                        if lex_lt(sorted[i].name, last.name) {
                            lex_transitive(t.name, sorted[i].name, last.name);
                        }
                    }
                }
            }
        }
    }
}

/// Sorting puts the tools in the order of their names, and neither adds nor drops one. So
/// the same tools are always listed in the same order.
pub proof fn sorting_sorts(list: Seq<ToolV>)
    ensures
        in_order(sorted_tools(list)),
        sorted_tools(list).to_multiset() == list.to_multiset(),
    decreases list.len(),
{
    broadcast use vstd::seq_lib::group_to_multiset_ensures;

    if list.len() > 0 {
        sorting_sorts(list.drop_last());
        insert_keeps_order(sorted_tools(list.drop_last()), list.last());
        assert(list.drop_last().push(list.last()) =~= list);
        assert(list.to_multiset() =~= list.drop_last().to_multiset().insert(list.last()));
    } else {
        assert(sorted_tools(list) =~= list);
    }
}

/// The tools in the order of their names.
pub fn sort_tools(list: Vec<ToolDefinition>) -> (r: Vec<ToolDefinition>)
    ensures
        tools_model(r@) == sorted_tools(tools_model(list@)),
{
    let ghost all = tools_model(list@);
    let ghost input = list@;
    let mut rest = list;
    let mut out: Vec<ToolDefinition> = Vec::new();
    let ghost mut n: int = 0;
    proof {
        assert(tools_model(out@) =~= sorted_tools(all.take(0)));
        assert(rest@ =~= input.skip(0));
    }
    while rest.len() > 0
        invariant
            0 <= n <= input.len(),
            all == tools_model(input),
            rest@ == input.skip(n),
            tools_model(out@) == sorted_tools(all.take(n)),
        decreases rest@.len(),
    {
        let t = rest.remove(0);
        let ghost before = tools_model(out@);
        let mut at: usize = out.len();
        proof {
            assert(t@ == all[n]);
            assert(all.take(n + 1).drop_last() =~= all.take(n));
            assert(all.take(n + 1).last() == t@);
            assert(rest@ =~= input.skip(n + 1));
            assert(before.take(at as int) =~= before);
            assert(insert_tool(before, t@) =~= insert_tool(before.take(at as int), t@)
                + before.skip(at as int));
        }
        while at > 0 && precedes(t.name.as_str(), out[at - 1].name.as_str())
            invariant
                at <= out@.len(),
                before == tools_model(out@),
                insert_tool(before, t@) == insert_tool(before.take(at as int), t@) + before.skip(
                    at as int,
                ),
            decreases at,
        {
            proof {
                let p = before.take(at as int);
                assert(p.last() == out@[at - 1]@);
                assert(p.drop_last() =~= before.take(at - 1));
                assert(insert_tool(before.take(at - 1), t@).push(p.last()) + before.skip(at as int)
                    =~= insert_tool(before.take(at - 1), t@) + before.skip(at - 1));
            }
            at -= 1;
        }
        proof {
            let p = before.take(at as int);
            if at > 0 {
                assert(p.last() == out@[at - 1]@);
            }
            assert(insert_tool(p, t@) == p.push(t@));
            assert(p.push(t@) + before.skip(at as int) =~= before.insert(at as int, t@));
        }
        out.insert(at, t);
        proof {
            assert(tools_model(out@) =~= before.insert(at as int, t@));
            n = n + 1;
        }
    }
    proof {
        assert(all.take(n) =~= all);
    }
    out
}

/// What a call needs: the server that has the tool, and how many seconds it may take.
pub struct CallPlan {
    pub server_id: String,
    pub timeout_secs: u64,
}

/// The connected tool servers and the tools they offer.
pub struct MCPManager {
    servers: Registry<Vec<ToolDefinition>>,
    tool_registry: Registry<ToolDefinition>,
    server_timeouts: Registry<u64>,
    reconnect_failures: Registry<u32>,
    reconnect_after: Registry<u64>,
}

/// The models of the lists of tools.
pub open spec fn lists_model(m: Map<Seq<char>, Vec<ToolDefinition>>) -> Map<Seq<char>, Seq<ToolV>> {
    m.map_values(|v: Vec<ToolDefinition>| tools_model(v@))
}

/// The models of the tools.
pub open spec fn table_model(m: Map<Seq<char>, ToolDefinition>) -> Map<Seq<char>, ToolV> {
    m.map_values(|t: ToolDefinition| t@)
}

impl View for MCPManager {
    type V = ManagerV;

    closed spec fn view(&self) -> ManagerV {
        ManagerV {
            servers: lists_model(self.servers@),
            tools: table_model(self.tool_registry@),
            timeouts: self.server_timeouts@,
            failures: self.reconnect_failures@,
            after: self.reconnect_after@,
        }
    }
}

impl ManagerV {
    /// The plan is that of a call, or the result says why the call cannot be made.
    pub open spec fn is_planned(
        self,
        r: Result<CallPlan, ToolResult>,
        tool_name: Seq<char>,
        args: JsonV,
        timeout: Option<u64>,
    ) -> bool {
        let known = self.tools.contains_key(tool_name);
        let tool = self.tools[tool_name];
        let fits = args_pass(tool, args);
        let there = self.servers.contains_key(tool.server_id);
        match r {
            Ok(plan) => known && fits && there && plan.server_id@ == tool.server_id
                && plan.timeout_secs == self.call_timeout(tool.server_id, timeout),
            Err(result) => {
                &&& !(known && fits && there)
                &&& result.is_error
                &&& !result.truncated
                &&& result.duration_ms == 0
                &&& result.output_size_bytes == 0
                &&& !known ==> result.content@ == "[Unknown tool: "@ + tool_name + "]"@
                &&& known && !fits ==> result.content@ == invalid_arguments(
                    tool_name,
                    args_fault(tool, args),
                )
                &&& known && fits ==> result.content@ == "[Server for tool '"@ + tool_name
                    + "' is not connected]"@
            },
        }
    }
}

impl MCPManager {
    /// The tables are sound, and each tool stands under its own name.
    pub closed spec fn wf(&self) -> bool {
        &&& self.servers.wf()
        &&& self.tool_registry.wf()
        &&& self.server_timeouts.wf()
        &&& self.reconnect_failures.wf()
        &&& self.reconnect_after.wf()
        &&& forall|k: Seq<char>| #[trigger]
            self.tool_registry@.contains_key(k) ==> self.tool_registry@[k].name@ == k
    }

    /// No server connected.
    pub fn new() -> (r: MCPManager)
        ensures
            r.wf(),
            r@ == (ManagerV {
                servers: Map::empty(),
                tools: Map::empty(),
                timeouts: Map::empty(),
                failures: Map::empty(),
                after: Map::empty(),
            }),
    {
        let r = MCPManager {
            servers: Registry::new(),
            tool_registry: Registry::new(),
            server_timeouts: Registry::new(),
            reconnect_failures: Registry::new(),
            reconnect_after: Registry::new(),
        };
        proof {
            assert(r@.servers =~= Map::empty());
            assert(r@.tools =~= Map::empty());
        }
        r
    }

    /// Takes a server's tools out of the table.
    pub fn prune_registry_for(&mut self, server_id: &str)
        requires
            old(self).wf(),
        ensures
            final(self).wf(),
            final(self)@ == (ManagerV { tools: pruned(old(self)@.tools, server_id@), ..old(self)@ }),
    {
        let ghost st = self@;
        let ghost table = self.tool_registry@;
        let names = self.tool_registry.keys();
        let mut i: usize = 0;
        while i < names.len()
            invariant
                i <= names@.len(),
                self.wf(),
                table == old(self).tool_registry@,
                self.servers == old(self).servers,
                self.server_timeouts == old(self).server_timeouts,
                self.reconnect_failures == old(self).reconnect_failures,
                self.reconnect_after == old(self).reconnect_after,
                forall|k: Seq<char>|
                    #![trigger self.tool_registry@.contains_key(k)]
                    self.tool_registry@.contains_key(k) ==> table.contains_key(k)
                        && self.tool_registry@[k] == table[k],
                forall|k: Seq<char>|
                    #![trigger table.contains_key(k)]
                    table.contains_key(k) && table[k].server_id@ != server_id@
                        ==> self.tool_registry@.contains_key(k),
                forall|j: int|
                    #![trigger names@[j]]
                    0 <= j < i && table.contains_key(names@[j]@) && table[names@[j]@].server_id@
                        == server_id@ ==> !self.tool_registry@.contains_key(names@[j]@),
            decreases names@.len() - i,
        {
            let name = names[i].as_str();
            let doomed = match self.tool_registry.get(name) {
                Some(t) => same(t.server_id.as_str(), server_id),
                None => false,
            };
            if doomed {
                let _ = self.tool_registry.remove(name);
            }
            i += 1;
        }
        proof {
            let now = self.tool_registry@;
            assert forall|k: Seq<char>| #[trigger] now.contains_key(k) implies table[k].server_id@
                != server_id@ by {
                assert(table.contains_key(k));
                let j = choose|j: int| 0 <= j < names@.len() && (#[trigger] names@[j])@ == k;
                assert(names@[j]@ == k);
            }
            assert(self@.tools =~= pruned(st.tools, server_id@));
        }
    }

    /// A server connected and listed its tools.
    pub fn connected(&mut self, server_id: &str, tools: Vec<ToolDefinition>, timeout_s: Option<u64>)
        requires
            old(self).wf(),
        ensures
            final(self).wf(),
            final(self)@ == old(self)@.connected(server_id@, tools_model(tools@), timeout_s),
    {
        let ghost list = tools_model(tools@);
        self.prune_registry_for(server_id);
        let ghost base = self@.tools;
        let ghost mid = *self;
        let mut i: usize = 0;
        while i < tools.len()
            invariant
                i <= tools@.len(),
                list == tools_model(tools@),
                self.wf(),
                mid.wf(),
                self.servers == mid.servers,
                self.server_timeouts == mid.server_timeouts,
                self.reconnect_failures == mid.reconnect_failures,
                self.reconnect_after == mid.reconnect_after,
                table_model(self.tool_registry@) == with_tools(base, list.take(i as int)),
            decreases tools@.len() - i,
        {
            let t = tools[i].copy();
            let name = tools[i].name.clone();
            let ghost before = self.tool_registry@;
            self.tool_registry.insert(name.as_str(), t);
            i += 1;
            proof {
                assert(list.take(i as int).drop_last() =~= list.take(i - 1));
                assert(list.take(i as int).last() == t@);
                assert(table_model(self.tool_registry@) =~= table_model(before).insert(name@, t@));
            }
        }
        proof {
            assert(list.take(i as int) =~= list);
        }
        let ghost servers0 = self.servers@;
        self.servers.insert(server_id, tools);
        proof {
            assert(lists_model(self.servers@) =~= lists_model(servers0).insert(server_id@, list));
        }
        match timeout_s {
            Some(n) => {
                self.server_timeouts.insert(server_id, n);
            },
            None => {
                let _ = self.server_timeouts.remove(server_id);
            },
        }
        let _ = self.reconnect_failures.remove(server_id);
        let _ = self.reconnect_after.remove(server_id);
    }

    /// A server is gone: it and its tools are taken out. Whether it was connected.
    pub fn evict(&mut self, server_id: &str) -> (r: bool)
        requires
            old(self).wf(),
        ensures
            final(self).wf(),
            final(self)@ == old(self)@.gone(server_id@),
            r == old(self)@.servers.contains_key(server_id@),
    {
        let ghost st = self@;
        let _ = self.server_timeouts.remove(server_id);
        let was = self.servers.remove(server_id).is_some();
        proof {
            assert(lists_model(self.servers@) =~= st.servers.remove(server_id@));
            if !was {
                assert(st.servers.remove(server_id@) =~= st.servers);
            }
        }
        if was {
            self.prune_registry_for(server_id);
        }
        was
    }

    /// A connection to a server failed: it is taken out, and the next attempt waits. Whether
    /// it was connected before.
    pub fn connect_failed(&mut self, server_id: &str, now_ms: u64) -> (r: bool)
        requires
            old(self).wf(),
        ensures
            final(self).wf(),
            final(self)@ == old(self)@.gone(server_id@).failed(server_id@, now_ms),
            r == old(self)@.servers.contains_key(server_id@),
    {
        let was = self.evict(server_id);
        self.note_reconnect_failure(server_id, now_ms);
        was
    }

    /// Counts one failure more and sets when the server may be tried again.
    pub fn note_reconnect_failure(&mut self, server_id: &str, now_ms: u64)
        requires
            old(self).wf(),
        ensures
            final(self).wf(),
            final(self)@ == old(self)@.failed(server_id@, now_ms),
    {
        let before: u32 = match self.reconnect_failures.get(server_id) {
            Some(n) => *n,
            None => 0,
        };
        let attempts: u32 = before.saturating_add(1);
        self.reconnect_failures.insert(server_id, attempts);
        let wait: u64 = backoff_secs(attempts);
        let when: u64 = now_ms.saturating_add(wait * 1000);
        self.reconnect_after.insert(server_id, when);
    }

    /// Whether a server may be tried again.
    pub fn reconnect_is_due(&self, server_id: &str, now_ms: u64) -> (r: bool)
        requires
            self.wf(),
        ensures
            r == self@.due(server_id@, now_ms),
    {
        match self.reconnect_after.get(server_id) {
            Some(t) => now_ms >= *t,
            None => true,
        }
    }

    /// The servers that are connected, each once.
    pub fn connected_servers(&self) -> (r: Vec<String>)
        requires
            self.wf(),
        ensures
            forall|i: int| 0 <= i < r@.len() ==> self@.servers.contains_key((#[trigger] r@[i])@),
            forall|k: Seq<char>| #[trigger]
                self@.servers.contains_key(k) ==> exists|i: int|
                    0 <= i < r@.len() && (#[trigger] r@[i])@ == k,
            forall|i: int, j: int|
                0 <= i < j < r@.len() ==> (#[trigger] r@[i])@ != (#[trigger] r@[j])@,
    {
        self.servers.keys()
    }

    /// Whether a server is connected.
    pub fn is_connected(&self, server_id: &str) -> (r: bool)
        requires
            self.wf(),
        ensures
            r == self@.servers.contains_key(server_id@),
    {
        self.servers.contains_key(server_id)
    }

    /// Whether a tool is offered.
    pub fn has_tool(&self, name: &str) -> (r: bool)
        requires
            self.wf(),
        ensures
            r == self@.tools.contains_key(name@),
    {
        self.tool_registry.contains_key(name)
    }

    /// The tools in the order of their names: those of one server as it listed them, or
    /// all that are offered.
    pub fn list_tools(&self, server_id: Option<&str>) -> (r: Vec<ToolDefinition>)
        requires
            self.wf(),
        ensures
            match server_id {
                Some(id) => tools_model(r@) == if self@.servers.contains_key(id@) {
                    sorted_tools(self@.servers[id@])
                } else {
                    Seq::empty()
                },
                None => {
                    &&& in_order(tools_model(r@))
                    &&& forall|i: int|
                        0 <= i < r@.len() ==> self@.tools.contains_key((#[trigger] r@[i]).name@)
                            && self@.tools[r@[i].name@] == r@[i]@
                    &&& forall|k: Seq<char>| #[trigger]
                        self@.tools.contains_key(k) ==> exists|i: int|
                            0 <= i < r@.len() && (#[trigger] r@[i]).name@ == k
                    &&& forall|i: int, j: int|
                        0 <= i < j < r@.len() ==> (#[trigger] r@[i]).name@ != (#[trigger] r@[j]).name@
                },
            },
    {
        let mut list: Vec<ToolDefinition> = Vec::new();
        match server_id {
            Some(id) => {
                match self.servers.get(id) {
                    Some(tools) => {
                        let mut i: usize = 0;
                        while i < tools.len()
                            invariant
                                i <= tools@.len(),
                                list@.len() == i,
                                forall|k: int| 0 <= k < i ==> (#[trigger] list@[k])@ == tools@[k]@,
                            decreases tools@.len() - i,
                        {
                            list.push(tools[i].copy());
                            i += 1;
                        }
                        proof {
                            assert(tools_model(list@) =~= tools_model(tools@));
                        }
                    },
                    None => {
                        proof {
                            assert(tools_model(list@) =~= Seq::empty());
                        }
                    },
                }
                sort_tools(list)
            },
            None => {
                let names = self.tool_registry.keys();
                let ghost table = self.tool_registry@;
                let mut i: usize = 0;
                while i < names.len()
                    invariant
                        self.wf(),
                        table == self.tool_registry@,
                        i <= names@.len(),
                        list@.len() == i,
                        forall|k: int|
                            0 <= k < names@.len() ==> table.contains_key((#[trigger] names@[k])@),
                        forall|k: int|
                            #![trigger list@[k]]
                            0 <= k < i ==> list@[k].name@ == names@[k]@ && list@[k]@
                                == table[names@[k]@]@,
                    decreases names@.len() - i,
                {
                    let name = names[i].as_str();
                    match self.tool_registry.get(name) {
                        Some(t) => {
                            list.push(t.copy());
                        },
                        None => {},
                    }
                    i += 1;
                }
                let ghost unsorted = tools_model(list@);
                let r = sort_tools(list);
                proof {
                    sorting_sorts(unsorted);
                    let sorted = tools_model(r@);
                    assert forall|a: int, b: int| 0 <= a < b < unsorted.len() implies (
                    #[trigger] unsorted[a]).name != (#[trigger] unsorted[b]).name by {
                        assert(unsorted[a].name == names@[a]@);
                        assert(unsorted[b].name == names@[b]@);
                    }
                    same_tools(unsorted, sorted);
                    assert forall|i: int| 0 <= i < r@.len() implies self@.tools.contains_key(
                        (#[trigger] r@[i]).name@,
                    ) && self@.tools[r@[i].name@] == r@[i]@ by {
                        assert(sorted[i] == r@[i]@);
                        let k = choose|k: int| 0 <= k < unsorted.len() && unsorted[k] == sorted[i];
                        assert(list@[k]@ == unsorted[k]);
                        assert(table.contains_key(names@[k]@));
                    }
                    assert forall|k: Seq<char>| #[trigger]
                        self@.tools.contains_key(k) implies exists|i: int|
                        0 <= i < r@.len() && (#[trigger] r@[i]).name@ == k by {
                        assert(table.contains_key(k));
                        let j = choose|j: int| 0 <= j < names@.len() && (#[trigger] names@[j])@ == k;
                        assert(list@[j].name@ == k);
                        assert(unsorted[j] == list@[j]@);
                        assert(sorted.contains(unsorted[j]));
                        let i = choose|i: int| 0 <= i < sorted.len() && sorted[i] == unsorted[j];
                        assert(r@[i]@ == sorted[i]);
                    }
                    assert forall|i: int, j: int| 0 <= i < j < r@.len() implies (
                    #[trigger] r@[i]).name@ != (#[trigger] r@[j]).name@ by {
                        assert(sorted[i] == r@[i]@ && sorted[j] == r@[j]@);
                        assert(sorted[i].name != sorted[j].name);
                    }
                }
                r
            },
        }
    }

    /// The server and the time for a call, or the result that says why it cannot be made:
    /// the tool is not known, its arguments do not fit, or its server is not connected.
    pub fn plan_call(&self, tool_name: &str, args: &Json, timeout: Option<u64>) -> (r: Result<
        CallPlan,
        ToolResult,
    >)
        requires
            self.wf(),
        ensures
            self@.is_planned(r, tool_name@, args@, timeout),
    {
        let tool = match self.tool_registry.get(tool_name) {
            Some(t) => t,
            None => {
                return Err(error_result(tool_name, join3("[Unknown tool: ", tool_name, "]")));
            },
        };
        let server_id = tool.server_id.as_str();
        let timeout_secs: u64 = match timeout {
            Some(n) => n,
            None => match self.server_timeouts.get(server_id) {
                Some(n) => *n,
                None => DEFAULT_TOOL_TIMEOUT_SECS,
            },
        };
        match validate_tool_args(tool, args) {
            Ok(_) => {},
            Err(msg) => {
                let mut m = join3("[Invalid arguments for tool '", tool_name, "': ");
                m.push_str(msg.as_str());
                m.push_str("]");
                proof {
                    assert(m@ == invalid_arguments(tool_name@, msg@));
                }
                return Err(error_result(tool_name, m));
            },
        }
        if !self.servers.contains_key(server_id) {
            return Err(
                error_result(
                    tool_name,
                    join3("[Server for tool '", tool_name, "' is not connected]"),
                ),
            );
        }
        Ok(CallPlan { server_id: owned(server_id), timeout_secs })
    }

    /// The servers to connect now: those that are enabled, not connected, and not waiting.
    pub fn servers_to_connect(&self, rows: &Vec<MCPServerRow>, now_ms: u64) -> (r: Vec<String>)
        requires
            self.wf(),
        ensures
            texts(r@) == to_connect(self@, rows@, now_ms),
    {
        let mut out: Vec<String> = Vec::new();
        let mut i: usize = 0;
        proof {
            assert(texts(out@) =~= to_connect(self@, rows@.take(0), now_ms));
        }
        while i < rows.len()
            invariant
                self.wf(),
                i <= rows@.len(),
                texts(out@) == to_connect(self@, rows@.take(i as int), now_ms),
            decreases rows@.len() - i,
        {
            let ghost before = out@;
            proof {
                assert(rows@.take(i + 1).drop_last() =~= rows@.take(i as int));
            }
            let id = rows[i].id.as_str();
            if rows[i].enabled != 0 && !self.servers.contains_key(id) && self.reconnect_is_due(
                id,
                now_ms,
            ) {
                out.push(owned(id));
                proof {
                    assert(texts(out@) =~= texts(before).push(id@));
                }
            }
            i += 1;
        }
        proof {
            assert(rows@.take(i as int) =~= rows@);
        }
        out
    }
}

/// What is said of arguments that do not fit.
pub open spec fn invalid_arguments(tool_name: Seq<char>, m: Seq<char>) -> Seq<char> {
    "[Invalid arguments for tool '"@ + tool_name + "': "@ + m + "]"@
}

/// The servers that are enabled, not connected, and not waiting, in order.
pub open spec fn to_connect(st: ManagerV, rows: Seq<MCPServerRow>, now_ms: u64) -> Seq<Seq<char>>
    decreases rows.len(),
{
    if rows.len() == 0 {
        Seq::empty()
    } else {
        let before = to_connect(st, rows.drop_last(), now_ms);
        let row = rows.last();
        if row.enabled != 0 && !st.servers.contains_key(row.id@) && st.due(row.id@, now_ms) {
            before.push(row.id@)
        } else {
            before
        }
    }
}

proof fn same_tools(a: Seq<ToolV>, b: Seq<ToolV>)
    requires
        a.to_multiset() == b.to_multiset(),
        forall|i: int, j: int|
            0 <= i < j < a.len() ==> (#[trigger] a[i]).name != (#[trigger] a[j]).name,
    ensures
        a.len() == b.len(),
        forall|i: int| 0 <= i < a.len() ==> b.contains(#[trigger] a[i]),
        forall|i: int| 0 <= i < b.len() ==> a.contains(#[trigger] b[i]),
        forall|i: int, j: int|
            0 <= i < j < b.len() ==> (#[trigger] b[i]).name != (#[trigger] b[j]).name,
{
    broadcast use vstd::seq_lib::group_to_multiset_ensures;

    assert(a.len() == a.to_multiset().len());
    assert(b.len() == b.to_multiset().len());
    assert forall|i: int| 0 <= i < a.len() implies b.contains(#[trigger] a[i]) by {
        assert(a.contains(a[i]));
        assert(a.to_multiset().count(a[i]) > 0);
        assert(b.to_multiset().count(a[i]) > 0);
    }
    assert forall|i: int| 0 <= i < b.len() implies a.contains(#[trigger] b[i]) by {
        assert(b.contains(b[i]));
        assert(b.to_multiset().count(b[i]) > 0);
        assert(a.to_multiset().count(b[i]) > 0);
    }
    assert(a.no_duplicates()) by {
        assert forall|i: int, j: int| 0 <= i < a.len() && 0 <= j < a.len() && i != j implies a[i]
            != a[j] by {
            if i < j {
                assert(a[i].name != a[j].name);
            } else {
                assert(a[j].name != a[i].name);
            }
        }
    }
    a.lemma_multiset_has_no_duplicates();
    b.lemma_multiset_has_no_duplicates_conv();
    assert forall|i: int, j: int| 0 <= i < j < b.len() implies (#[trigger] b[i]).name != (
    #[trigger] b[j]).name by {
        let x = choose|x: int| 0 <= x < a.len() && a[x] == b[i];
        let y = choose|y: int| 0 <= y < a.len() && a[y] == b[j];
        assert(b[i] != b[j]);
        if x < y {
            assert(a[x].name != a[y].name);
        } else {
            assert(a[y].name != a[x].name);
        }
    }
}

/// The texts of an array of texts, `None` for anything else.
pub open spec fn strings_of(v: Option<JsonV>) -> Option<Seq<Seq<char>>> {
    match v {
        Some(JsonV::Arr(items)) => if forall|i: int|
            0 <= i < items.len() ==> (#[trigger] items[i]) is Str {
            Some(items.map_values(|j: JsonV| j.text()->Some_0))
        } else {
            None
        },
        _ => None,
    }
}

/// The texts of an array of texts.
pub fn strings_in(v: Option<&Json>) -> (r: Option<Vec<String>>)
    ensures
        (match r {
            Some(list) => Some(texts(list@)),
            None => None,
        }) == strings_of(crate::json::opt_model(v)),
{
    let items = match v {
        Some(j) => match j.as_array() {
            Some(items) => items,
            None => return None,
        },
        None => return None,
    };
    let ghost all = jsons(items@);
    let mut out: Vec<String> = Vec::new();
    let mut i: usize = 0;
    while i < items.len()
        invariant
            i <= items@.len(),
            all == jsons(items@),
            crate::json::opt_model(v) == Some(JsonV::Arr(all)),
            out@.len() == i,
            forall|k: int| 0 <= k < i ==> JsonV::Str((#[trigger] out@[k])@) == all[k],
        decreases items@.len() - i,
    {
        match items[i].as_str() {
            Some(s) => {
                out.push(owned(s));
            },
            None => {
                proof {
                    assert(!(all[i as int] is Str));
                }
                return None;
            },
        }
        i += 1;
    }
    proof {
        assert forall|k: int| 0 <= k < all.len() implies (#[trigger] all[k]) is Str by {
            assert(JsonV::Str(out@[k]@) == all[k]);
        }
        assert forall|k: int| 0 <= k < all.len() implies texts(out@)[k] == all.map_values(
            |j: JsonV| j.text()->Some_0,
        )[k] by {
            assert(JsonV::Str(out@[k]@) == all[k]);
        }
        assert(texts(out@) =~= all.map_values(|j: JsonV| j.text()->Some_0));
    }
    Some(out)
}

/// What an optional text says as JSON.
pub open spec fn said_by(text: Option<String>) -> Option<JsonV> {
    match text {
        Some(s) => json_of_text(s@),
        None => None,
    }
}

/// What a stored text says as JSON, `None` where there is none or it is not JSON.
pub fn parse_stored(text: &Option<String>) -> (r: Option<Json>)
    ensures
        (match r {
            Some(j) => Some(j@),
            None => None,
        }) == said_by(*text),
{
    match text {
        Some(s) => match Json::parse(s.as_str()) {
            Ok(j) => Some(j),
            Err(_) => None,
        },
        None => None,
    }
}

/// The configuration is that of a stored server.
pub open spec fn is_config_of(
    r: MCPServerConfig,
    row: MCPServerRow,
    opened: Map<Seq<char>, String>,
) -> bool {
    &&& r.id@ == row.id@
    &&& r.name@ == row.name@
    &&& r.transport == TransportType::stored(row.transport@)
    &&& opt_string(r.command) == opt_string(row.command)
    &&& opt_string(r.url) == opt_string(row.url)
    &&& (match r.args {
        Some(list) => Some(texts(list@)),
        None => None,
    }) == strings_of(said_by(row.args))
    &&& (match r.env {
        Some(j) => Some(j@),
        None => None,
    }) == said_by(row.env)
    &&& (match r.headers {
        Some(j) => Some(j@),
        None => None,
    }) == (match said_by(row.headers) {
        Some(h) => Some(replaced_value(h, opened)),
        None => None,
    })
    &&& r.timeout_s == (match row.timeout_s {
        Some(n) => if n > 0 {
            Some(n as u64)
        } else {
            None
        },
        None => None,
    })
    &&& r.status@ == row.status@
    &&& opt_string(r.error_message) == opt_string(row.error_message)
    &&& opt_string(r.created_at) == opt_string(row.created_at)
    &&& opt_string(r.updated_at) == opt_string(row.updated_at)
}

/// A stored server as it is configured. `opened` holds the opened texts of its headers by
/// their names. A time limit that is not positive is none.
pub fn row_to_config(row: &MCPServerRow, opened: &Dict<String>) -> (r: MCPServerConfig)
    ensures
        is_config_of(r, *row, opened@),
{
    let parsed_args = parse_stored(&row.args);
    let args = match &parsed_args {
        Some(j) => strings_in(Some(j)),
        None => None,
    };
    let headers = match parse_stored(&row.headers) {
        Some(h) => Some(replace_texts(&h, opened)),
        None => None,
    };
    let timeout_s = match row.timeout_s {
        Some(n) => if n > 0 {
            Some(n as u64)
        } else {
            None
        },
        None => None,
    };
    MCPServerConfig {
        id: row.id.clone(),
        name: row.name.clone(),
        transport: TransportType::from_stored(row.transport.as_str()),
        command: row.command.clone(),
        args,
        url: row.url.clone(),
        env: parse_stored(&row.env),
        headers,
        timeout_s,
        status: row.status.clone(),
        error_message: row.error_message.clone(),
        created_at: row.created_at.clone(),
        updated_at: row.updated_at.clone(),
    }
}

/// What is stored of a connection that was given up: the reason.
pub fn connect_timeout_message() -> (r: String)
    ensures
        r@ == "connect timed out after "@ + decimal(CONNECT_TIMEOUT_SECS as nat) + "s"@,
{
    let n = decimal_text(CONNECT_TIMEOUT_SECS);
    join3("connect timed out after ", n.as_str(), "s")
}

/// The error of a connection that was given up.
pub fn connect_timeout_error() -> (r: MCPServerError)
    ensures
        r == MCPServerError::Timeout(CONNECT_TIMEOUT_SECS),
{
    MCPServerError::Timeout(CONNECT_TIMEOUT_SECS)
}

/// The waits before new attempts to connect: five seconds first, twice as long each time, and
/// five minutes from the seventh failure on.
pub proof fn the_waits_are_these(attempts: nat)
    ensures
        backoff(0) == 5,
        backoff(1) == 5,
        backoff(2) == 10,
        backoff(3) == 20,
        backoff(4) == 40,
        backoff(5) == 80,
        backoff(6) == 160,
        attempts >= 7 ==> backoff(attempts) == 300,
{
    doubled_small();
}

/// A connection offers the tools that the server lists, each under its name and in place of
/// any other of that name; the tools that it had before and does not list are gone, and those
/// of other servers stay. Its failures are forgotten, and its time limit is the one that is set.
pub proof fn connected_servers_offer_their_tools(
    st: ManagerV,
    id: Seq<char>,
    list: Seq<ToolV>,
    timeout_s: Option<u64>,
    i: int,
    name: Seq<char>,
    other: Seq<char>,
)
    requires
        other != id,
    ensures
        ({
            let now = st.connected(id, list, timeout_s);
            &&& now.servers.contains_pair(id, list)
            &&& 0 <= i < list.len() && (forall|k: int| i < k < list.len() ==> (#[trigger] list[k]).name
                != list[i].name) ==> now.tools.contains_pair(list[i].name, list[i])
            &&& (forall|k: int| 0 <= k < list.len() ==> (#[trigger] list[k]).name != name) ==> {
                &&& now.tools.contains_key(name) <==> st.tools.contains_key(name)
                    && st.tools[name].server_id != id
                &&& now.tools.contains_key(name) ==> now.tools[name] == st.tools[name]
            }
            &&& timeout_s matches Some(n) ==> now.timeouts.contains_pair(id, n)
            &&& timeout_s is None ==> !now.timeouts.contains_key(id)
            &&& !now.failures.contains_key(id)
            &&& !now.after.contains_key(id)
            &&& now.servers.contains_key(other) == st.servers.contains_key(other)
            &&& st.servers.contains_key(other) ==> now.servers[other] == st.servers[other]
            &&& now.timeouts.contains_key(other) == st.timeouts.contains_key(other)
            &&& st.timeouts.contains_key(other) ==> now.timeouts[other] == st.timeouts[other]
            &&& now.failures.contains_key(other) == st.failures.contains_key(other)
            &&& now.after.contains_key(other) == st.after.contains_key(other)
        }),
{
    listed_tools_are_offered(pruned(st.tools, id), list, i, name);
}

proof fn listed_tools_are_offered(
    tools: Map<Seq<char>, ToolV>,
    list: Seq<ToolV>,
    i: int,
    name: Seq<char>,
)
    ensures
        0 <= i < list.len() && (forall|k: int| i < k < list.len() ==> (#[trigger] list[k]).name
            != list[i].name) ==> with_tools(tools, list).contains_pair(list[i].name, list[i]),
        (forall|k: int| 0 <= k < list.len() ==> (#[trigger] list[k]).name != name) ==> with_tools(
            tools,
            list,
        ).contains_key(name) == tools.contains_key(name) && (tools.contains_key(name)
            ==> with_tools(tools, list)[name] == tools[name]),
    decreases list.len(),
{
    if list.len() > 0 {
        let less = list.drop_last();
        assert(forall|k: int| 0 <= k < less.len() ==> #[trigger] less[k] == list[k]);
        listed_tools_are_offered(tools, less, i, name);
        assert(list.last() == list[list.len() - 1]);
    }
}

/// A server that is gone takes its tools and its time limit with it, and leaves those of the
/// others.
pub proof fn gone_servers_leave_the_others(st: ManagerV, id: Seq<char>, other: Seq<char>, name: Seq<char>)
    requires
        other != id,
    ensures
        ({
            let now = st.gone(id);
            &&& !now.servers.contains_key(id)
            &&& !now.timeouts.contains_key(id)
            &&& now.servers.contains_key(other) == st.servers.contains_key(other)
            &&& st.servers.contains_key(other) ==> now.servers[other] == st.servers[other]
            &&& now.timeouts.contains_key(other) == st.timeouts.contains_key(other)
            &&& st.timeouts.contains_key(other) ==> now.timeouts[other] == st.timeouts[other]
            &&& st.tools.contains_key(name) && st.tools[name].server_id != id
                ==> now.tools.contains_pair(name, st.tools[name])
            &&& now.failures == st.failures
            &&& now.after == st.after
        }),
{
}

/// A failure to connect is counted, and the next attempt is due after the wait that goes with
/// the count, and not before; nothing else changes.
pub proof fn failures_put_the_next_attempt_off(st: ManagerV, id: Seq<char>, now_ms: u64, later_ms: u64)
    requires
        now_ms + 300000 <= u64::MAX,
    ensures
        ({
            let now = st.failed(id, now_ms);
            let before: int = if st.failures.contains_key(id) {
                st.failures[id] as int
            } else {
                0
            };
            &&& before < u32::MAX ==> now.failures.contains_pair(id, (before + 1) as u32)
            &&& before < u32::MAX ==> (now.due(id, later_ms) <==> later_ms >= now_ms + 1000
                * backoff((before + 1) as nat))
            &&& now.servers == st.servers
            &&& now.tools == st.tools
            &&& now.timeouts == st.timeouts
            &&& now.failures.remove(id) == st.failures.remove(id)
            &&& now.after.remove(id) == st.after.remove(id)
        }),
        !st.after.contains_key(id) ==> st.due(id, later_ms),
{
    waits_grow(st.next_failures(id) as nat);
    let now = st.failed(id, now_ms);
    assert(now.failures.remove(id) =~= st.failures.remove(id));
    assert(now.after.remove(id) =~= st.after.remove(id));
}

/// A call may take what the caller asks; without that what the server is set to, and half a
/// minute where it is not set.
pub proof fn calls_may_take_their_time(st: ManagerV, id: Seq<char>, asked: Option<u64>)
    ensures
        asked matches Some(n) ==> st.call_timeout(id, asked) == n,
        asked is None && st.timeouts.contains_key(id) ==> st.call_timeout(id, asked)
            == st.timeouts[id],
        asked is None && !st.timeouts.contains_key(id) ==> st.call_timeout(id, asked) == 30,
{
}

/// The servers to connect are, in their order, just those that are enabled, not connected and
/// due.
pub proof fn enabled_servers_are_connected(
    st: ManagerV,
    rows: Seq<MCPServerRow>,
    row: MCPServerRow,
    now_ms: u64,
)
    ensures
        to_connect(st, Seq::empty(), now_ms).len() == 0,
        to_connect(st, rows.push(row), now_ms) == (if row.enabled != 0 && !st.servers.contains_key(
            row.id@,
        ) && (!st.after.contains_key(row.id@) || st.after[row.id@] <= now_ms) {
            to_connect(st, rows, now_ms).push(row.id@)
        } else {
            to_connect(st, rows, now_ms)
        }),
{
    assert(rows.push(row).drop_last() =~= rows);
}

/// A list of texts is read as those texts, in order; anything else is no list of texts. What is
/// said of arguments that do not fit names the tool and the fault.
pub proof fn lists_of_texts_are_read(items: Seq<JsonV>, i: int, tool_name: Seq<char>, m: Seq<char>)
    ensures
        (forall|k: int| 0 <= k < items.len() ==> (#[trigger] items[k]) is Str) ==> (strings_of(
            Some(JsonV::Arr(items)),
        ) matches Some(list) && list.len() == items.len() && (0 <= i < items.len() ==> items[i]
            == JsonV::Str(list[i]))),
        0 <= i < items.len() && !(items[i] is Str) ==> strings_of(Some(JsonV::Arr(items))) is None,
        strings_of(None) is None,
        invalid_arguments(tool_name, m) == "[Invalid arguments for tool '"@ + tool_name + "': "@ + m
            + "]"@,
{
}

/// A stored server is configured as it was stored: with its command or its address, the
/// arguments and the environment that its texts say, its headers with their texts opened, and
/// its time limit where that is positive.
pub proof fn servers_are_configured_as_stored(
    r: MCPServerConfig,
    row: MCPServerRow,
    opened: Map<Seq<char>, String>,
)
    requires
        is_config_of(r, row, opened),
    ensures
        r.id@ == row.id@ && r.name@ == row.name@ && r.status@ == row.status@,
        row.transport@ == "stdio"@ ==> r.transport == TransportType::Stdio,
        row.command matches Some(c) ==> (r.command matches Some(d) && d@ == c@),
        row.command is None ==> r.command is None,
        row.url matches Some(c) ==> (r.url matches Some(d) && d@ == c@),
        row.url is None ==> r.url is None,
        row.args matches Some(t) ==> (json_of_text(t@) matches Some(JsonV::Arr(items)) ==> ((
        forall|k: int| 0 <= k < items.len() ==> (#[trigger] items[k]) is Str) ==> (r.args matches Some(
            list,
        ) && list@.len() == items.len() && forall|k: int|
            #![trigger list@[k]]
            0 <= k < items.len() ==> items[k] == JsonV::Str(list@[k]@)))),
        row.env matches Some(t) ==> (json_of_text(t@) matches Some(v) ==> (r.env matches Some(j)
            && j@ == v)),
        row.headers matches Some(t) ==> (json_of_text(t@) matches Some(JsonV::Obj(m)) ==> (
        r.headers matches Some(j) && j@ == JsonV::Obj(crate::routes::mcp::replaced(m, opened)))),
        row.timeout_s matches Some(n) ==> (n > 0 ==> r.timeout_s == Some(n as u64)) && (n <= 0
            ==> r.timeout_s is None),
        row.timeout_s is None ==> r.timeout_s is None,
{
    match row.args {
        Some(t) => match json_of_text(t@) {
            Some(JsonV::Arr(items)) => {
                if forall|k: int| 0 <= k < items.len() ==> (#[trigger] items[k]) is Str {
                    let list = r.args->0;
                    let said = strings_of(Some(JsonV::Arr(items)))->0;
                    assert(texts(list@) == said);
                    assert forall|k: int|
                        #![trigger list@[k]]
                        0 <= k < items.len() implies items[k] == JsonV::Str(list@[k]@) by {
                        assert(texts(list@)[k] == said[k]);
                        assert(items[k] is Str);
                    }
                }
            },
            _ => {},
        },
        None => {},
    }
}

/// A call is made on the server of its tool just where the tool is offered, its arguments fit
/// and its server is connected; the first of these that does not hold is the error.
pub proof fn calls_are_made_or_say_why_not(
    st: ManagerV,
    r: Result<CallPlan, ToolResult>,
    tool_name: Seq<char>,
    args: JsonV,
    timeout: Option<u64>,
)
    requires
        st.is_planned(r, tool_name, args, timeout),
    ensures
        r is Ok <==> st.tools.contains_key(tool_name) && args_pass(st.tools[tool_name], args)
            && st.servers.contains_key(st.tools[tool_name].server_id),
        r matches Ok(plan) ==> plan.server_id@ == st.tools[tool_name].server_id,
        r matches Ok(plan) ==> (timeout matches Some(n) ==> plan.timeout_secs == n),
        r matches Err(e) ==> e.is_error,
        !st.tools.contains_key(tool_name) ==> (r matches Err(e) && e.content@ == "[Unknown tool: "@
            + tool_name + "]"@),
        st.tools.contains_key(tool_name) && !args_pass(st.tools[tool_name], args) ==> (r matches Err(
            e,
        ) && e.content@ == "[Invalid arguments for tool '"@ + tool_name + "': "@ + args_fault(
            st.tools[tool_name],
            args,
        ) + "]"@),
{
}

} // verus!
