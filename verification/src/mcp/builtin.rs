//! The tool servers that are part of this program.

use crate::error::MCPServerError;
use crate::text::{join2, same};
use vstd::prelude::*;

verus! {

/// A tool server that is part of this program.
#[derive(Debug, Clone, Copy, PartialEq, Eq, Structural)]
pub enum Builtin {
    KittyTools,
    KittyWeb,
    KittyWasm,
}

impl Builtin {
    /// The name under which a server is configured.
    pub open spec fn name(self) -> Seq<char> {
        match self {
            Builtin::KittyTools => "kitty-tools"@,
            Builtin::KittyWeb => "kitty-web"@,
            Builtin::KittyWasm => "kitty-wasm"@,
        }
    }
}

/// The names of the servers that are part of this program.
pub const BUILTIN_SERVERS: [&'static str; 3] = ["kitty-tools", "kitty-web", "kitty-wasm"];

/// Each name that is listed is that of a server.
pub proof fn each_name_is_a_server(i: int)
    requires
        0 <= i < 3,
    ensures
        exists|b: Builtin| #[trigger] b.name() == BUILTIN_SERVERS@[i]@,
{
    assert(Builtin::KittyTools.name() == BUILTIN_SERVERS@[0]@);
    assert(Builtin::KittyWeb.name() == BUILTIN_SERVERS@[1]@);
    assert(Builtin::KittyWasm.name() == BUILTIN_SERVERS@[2]@);
}

/// The server of a name; a name that is not known is an error.
pub fn builtin_named(name: &str) -> (r: Result<Builtin, MCPServerError>)
    ensures
        match r {
            Ok(b) => name@ == b.name(),
            Err(e) => (forall|b: Builtin| name@ != #[trigger] b.name()) && (
            e matches MCPServerError::Generic(m) && m@ == "unknown in-process server: "@ + name@),
        },
{
    if same(name, "kitty-tools") {
        Ok(Builtin::KittyTools)
    } else if same(name, "kitty-web") {
        Ok(Builtin::KittyWeb)
    } else if same(name, "kitty-wasm") {
        Ok(Builtin::KittyWasm)
    } else {
        Err(MCPServerError::Generic(join2("unknown in-process server: ", name)))
    }
}

/// Each server is configured under its own name.
pub proof fn servers_have_their_names()
    ensures
        Builtin::KittyTools.name() == "kitty-tools"@,
        Builtin::KittyWeb.name() == "kitty-web"@,
        Builtin::KittyWasm.name() == "kitty-wasm"@,
{
}

} // verus!
