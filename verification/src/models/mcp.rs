//! Servers that offer tools, and the tools they offer.

use crate::ids::{is_utc_time, now_text, random_id, uuid_shaped};
use crate::json::{Json, JsonV};
use crate::text::{owned, same};
use vstd::prelude::*;

verus! {

/// How a server is reached.
#[derive(Debug, Clone, Copy, PartialEq, Eq, Structural)]
pub enum TransportType {
    Stdio,
    Sse,
    StreamableHttp,
    /// Part of this process.
    InProcess,
}

impl Default for TransportType {
    fn default() -> (r: TransportType)
        ensures
            r == TransportType::Stdio,
    {
        TransportType::Stdio
    }
}

impl TransportType {
    /// The name of a transport.
    pub open spec fn name(self) -> Seq<char> {
        match self {
            TransportType::Stdio => "stdio"@,
            TransportType::Sse => "sse"@,
            TransportType::StreamableHttp => "streamable_http"@,
            TransportType::InProcess => "in_process"@,
        }
    }

    /// The name of a transport.
    pub fn as_str(&self) -> (r: &'static str)
        ensures
            r@ == self.name(),
    {
        match self {
            TransportType::Stdio => "stdio",
            TransportType::Sse => "sse",
            TransportType::StreamableHttp => "streamable_http",
            TransportType::InProcess => "in_process",
        }
    }

    /// The transport of a stored name; a name that is not known is streamable HTTP.
    pub open spec fn stored(name: Seq<char>) -> TransportType {
        if name == "stdio"@ {
            TransportType::Stdio
        } else if name == "sse"@ {
            TransportType::Sse
        } else if name == "in_process"@ {
            TransportType::InProcess
        } else {
            TransportType::StreamableHttp
        }
    }

    /// The transport of a stored name.
    pub fn from_stored(name: &str) -> (r: TransportType)
        ensures
            r == TransportType::stored(name@),
    {
        if same(name, "stdio") {
            TransportType::Stdio
        } else if same(name, "sse") {
            TransportType::Sse
        } else if same(name, "in_process") {
            TransportType::InProcess
        } else {
            TransportType::StreamableHttp
        }
    }

    /// The transport that a name denotes, `None` where it denotes none.
    pub fn parse(name: &str) -> (r: Option<TransportType>)
        ensures
            match r {
                Some(t) => name@ == t.name(),
                None => forall|t: TransportType| name@ != #[trigger] t.name(),
            },
    {
        if same(name, "stdio") {
            Some(TransportType::Stdio)
        } else if same(name, "sse") {
            Some(TransportType::Sse)
        } else if same(name, "streamable_http") {
            Some(TransportType::StreamableHttp)
        } else if same(name, "in_process") {
            Some(TransportType::InProcess)
        } else {
            None
        }
    }
}

/// The stored name of a transport reads back as that transport.
pub proof fn transport_reads_back(t: TransportType)
    ensures
        TransportType::stored(t.name()) == t,
{
    reveal_strlit("stdio");
    reveal_strlit("sse");
    reveal_strlit("in_process");
    reveal_strlit("streamable_http");
    assert("stdio"@.len() == 5 && "sse"@.len() == 3 && "in_process"@.len() == 10
        && "streamable_http"@.len() == 15);
}

/// A server as it is configured.
#[derive(Debug, PartialEq)]
pub struct MCPServerConfig {
    pub id: String,
    pub name: String,
    pub transport: TransportType,
    pub command: Option<String>,
    pub args: Option<Vec<String>>,
    pub url: Option<String>,
    pub env: Option<Json>,
    pub headers: Option<Json>,
    /// How many seconds a call of a tool may take.
    pub timeout_s: Option<u64>,
    pub status: String,
    pub error_message: Option<String>,
    pub created_at: Option<String>,
    pub updated_at: Option<String>,
}

impl MCPServerConfig {
    /// A server that has not been connected, under an identifier and with its times.
    pub fn with_id(
        id: String,
        name: &str,
        transport: TransportType,
        created_at: String,
        updated_at: String,
    ) -> (r: MCPServerConfig)
        ensures
            r.id@ == id@,
            r.created_at == Some(created_at),
            r.updated_at == Some(updated_at),
            r.is_fresh(name@, transport),
    {
        MCPServerConfig {
            id,
            name: owned(name),
            transport,
            command: None,
            args: None,
            url: None,
            env: None,
            headers: None,
            timeout_s: None,
            status: owned("disconnected"),
            error_message: None,
            created_at: Some(created_at),
            updated_at: Some(updated_at),
        }
    }

    /// Nothing is known of the server but its name and its transport.
    pub open spec fn is_fresh(&self, name: Seq<char>, transport: TransportType) -> bool {
        &&& self.name@ == name
        &&& self.transport == transport
        &&& self.command is None
        &&& self.args is None
        &&& self.url is None
        &&& self.env is None
        &&& self.headers is None
        &&& self.timeout_s is None
        &&& self.status@ == "disconnected"@
        &&& self.error_message is None
    }

    /// A server that has not been connected, under a new identifier and made now.
    pub fn new(name: &str, transport: TransportType) -> (r: MCPServerConfig)
        ensures
            uuid_shaped(r.id@),
            r.created_at matches Some(t) && is_utc_time(t@),
            r.updated_at matches Some(t) && is_utc_time(t@),
            r.is_fresh(name@, transport),
    {
        MCPServerConfig::with_id(random_id(), name, transport, now_text(), now_text())
    }
}

/// A tool that a server offers.
#[derive(Debug, PartialEq)]
pub struct ToolDefinition {
    pub name: String,
    pub description: String,
    pub input_schema: Json,
    pub server_id: String,
}

/// What a tool is.
#[verifier::ext_equal]
pub struct ToolV {
    pub name: Seq<char>,
    pub description: Seq<char>,
    pub input_schema: JsonV,
    pub server_id: Seq<char>,
}

impl View for ToolDefinition {
    type V = ToolV;

    open spec fn view(&self) -> ToolV {
        ToolV {
            name: self.name@,
            description: self.description@,
            input_schema: self.input_schema@,
            server_id: self.server_id@,
        }
    }
}

impl ToolDefinition {
    /// A copy of the definition.
    pub fn copy(&self) -> (r: ToolDefinition)
        ensures
            r@ == self@,
    {
        ToolDefinition {
            name: self.name.clone(),
            description: self.description.clone(),
            input_schema: self.input_schema.copy(),
            server_id: self.server_id.clone(),
        }
    }
}

/// The outcome of a call of a tool.
#[derive(Debug, PartialEq)]
pub struct ToolResult {
    pub content: String,
    pub tool_call_id: String,
    pub duration_ms: i32,
    pub output_size_bytes: i32,
    pub is_error: bool,
    pub truncated: bool,
}

/// Each transport is stored under its name, and a name that is not known is that of a server
/// on the web.
pub proof fn transports_have_their_names(name: Seq<char>)
    ensures
        TransportType::Stdio.name() == "stdio"@,
        TransportType::Sse.name() == "sse"@,
        TransportType::StreamableHttp.name() == "streamable_http"@,
        TransportType::InProcess.name() == "in_process"@,
        name != "stdio"@ && name != "sse"@ && name != "in_process"@ ==> TransportType::stored(name)
            == TransportType::StreamableHttp,
{
}

/// Two tools with one model have one name, description, schema and server.
pub proof fn tools_lose_nothing(a: ToolDefinition, b: ToolDefinition)
    requires
        a@ == b@,
    ensures
        a.name@ == b.name@ && a.description@ == b.description@,
        a.input_schema@ == b.input_schema@ && a.server_id@ == b.server_id@,
{
}

} // verus!
