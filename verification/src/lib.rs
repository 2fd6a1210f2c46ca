//! Persistent terminal sessions over Unix sockets.
//!
//! This crate holds the logic of the tool: the wire protocol, the daemon's session
//! table, the session relay, the client, the SSH tunnel and the rules about sockets
//! and directories. Everything here works on plain values; sockets, terminals and
//! processes belong to the program around it.

use vstd::prelude::*;

pub mod buffer;
pub mod cli;
pub mod cli_laws;
pub mod client;
pub mod client_laws;
pub mod connect;
pub mod connect_laws;
pub mod daemon;
pub mod daemon_laws;
pub mod end_to_end;
pub mod errors;
pub mod negotiation;
pub mod path_laws;
pub mod paths;
pub mod protocol;
pub mod request_laws;
pub mod roundtrip;
pub mod rows;
pub mod security;
pub mod security_laws;
pub mod server;
pub mod server_laws;
pub mod step_laws;
pub mod talk_laws;
pub mod text;
pub mod text_laws;
pub mod tunnel;
pub mod tunnel_laws;
pub mod wire_laws;

verus! {

/// A variable with its value, where it has one.
pub open spec fn given(name: Seq<char>, value: Option<String>) -> Seq<(Seq<char>, Seq<char>)> {
    match value {
        Some(v) => seq![(name, v@)],
        None => Seq::empty(),
    }
}

/// The environment to forward to a session, from the values of `TERM`, `LANG` and
/// `COLORTERM`; what is not set is left out.
pub fn collect_env_vars(
    term: Option<String>,
    lang: Option<String>,
    colorterm: Option<String>,
) -> (vars: Vec<(String, String)>)
    ensures
        protocol::pairs(vars@) == given("TERM"@, term) + given("LANG"@, lang) + given(
            "COLORTERM"@,
            colorterm,
        ),
{
    let mut vars: Vec<(String, String)> = Vec::new();
    match term {
        Some(v) => vars.push(("TERM".to_owned(), v)),
        None => {},
    }
    match lang {
        Some(v) => vars.push(("LANG".to_owned(), v)),
        None => {},
    }
    match colorterm {
        Some(v) => vars.push(("COLORTERM".to_owned(), v)),
        None => {},
    }
    proof {
        assert(protocol::pairs(vars@) =~= given("TERM"@, term) + given("LANG"@, lang) + given(
            "COLORTERM"@,
            colorterm,
        ));
    }
    vars
}

} // verus!
