//! How the client is started.

use vstd::prelude::*;

verus! {

broadcast use vstd::string::group_string_axioms;

/// How messages are set apart on the wire.
#[derive(Debug, Clone, Copy, PartialEq, Eq, Structural)]
pub enum Framing {
    /// One message on each line.
    Ndjson,
    /// A header with the length before each message.
    Lsp,
}

/// How the server is reached.
#[derive(Debug)]
pub enum Transport {
    /// A server that listens on a socket.
    Socket(String),
    /// The same, but a server is started if none listens.
    DefaultSocket(String),
    /// A server that is started as a child and spoken to over its standard
    /// input and output.
    Stdio(Vec<String>),
}

#[derive(Debug)]
pub struct ReplArgs {
    pub transport: Transport,
    pub framing: Framing,
}

impl Transport {
    /// What the operator sees of the way to the server.
    pub open spec fn shown(self) -> Seq<char> {
        match self {
            Transport::Socket(path) => "socket:"@ + path@,
            Transport::DefaultSocket(path) => "socket:"@ + path@,
            Transport::Stdio(command) => "stdio:"@ + (if command@.len() > 0 {
                command@[0]@
            } else {
                ""@
            }),
        }
    }

    /// What the operator sees of the way to the server.
    pub fn label(&self) -> (r: String)
        ensures
            r@ == self.shown(),
    {
        match self {
            Transport::Socket(path) => {
                let mut label: String = "socket:".to_owned();
                label.push_str(path.as_str());
                label
            },
            Transport::DefaultSocket(path) => {
                let mut label: String = "socket:".to_owned();
                label.push_str(path.as_str());
                label
            },
            Transport::Stdio(command) => {
                let mut label: String = "stdio:".to_owned();
                if command.len() > 0 {
                    label.push_str(command[0].as_str());
                } else {
                    label.push_str("");
                }
                label
            },
        }
    }

    /// Whether a server is to be started first: none listens, and the socket
    /// is the default one.
    pub fn needs_server(&self, listening: bool) -> (r: bool)
        ensures
            r == (self is DefaultSocket && !listening),
    {
        match self {
            Transport::DefaultSocket(_) => !listening,
            _ => false,
        }
    }
}

} // verus!
