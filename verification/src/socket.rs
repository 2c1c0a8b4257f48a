//! What is said when a socket cannot be connected to.

use crate::error::{Error, ErrorModel};
use vstd::prelude::*;

verus! {

broadcast use vstd::string::group_string_axioms;

/// Why a connection failed.
#[derive(Debug)]
pub enum ConnectFailure {
    NotFound,
    ConnectionRefused,
    PermissionDenied,
    /// Anything else, as the system tells it.
    Other(String),
}

/// What is said of a connection that failed.
pub open spec fn connect_text(path: Seq<char>, failure: ConnectFailure) -> Seq<char> {
    match failure {
        ConnectFailure::NotFound => "no ptywright server is listening at "@ + path
            + ".\n\nStart one in another terminal:\n  ptywright serve --socket "@ + path
            + " &\n\n…or pipe a child server through stdio in one command:\n  ptywright repl --stdio -- ptywright serve --stdio"@,
        ConnectFailure::ConnectionRefused => "socket "@ + path
            + " exists but is not accepting connections — a previous server probably exited without cleaning up. Run `ptywright serve` (or `ptywright serve --socket "@
            + path + "`) and it will reclaim the stale socket automatically before binding."@,
        ConnectFailure::PermissionDenied => "permission denied connecting to "@ + path
            + ". Was the server started by a different user?"@,
        ConnectFailure::Other(error) => "connect to ptywright serve socket "@ + path + ": "@
            + error@,
    }
}

/// What is said of a connection that failed.
pub fn connect_error(path: &str, failure: &ConnectFailure) -> (r: Error)
    ensures
        r@ == ErrorModel::Rpc(connect_text(path@, *failure)),
{
    let message: String = match failure {
        ConnectFailure::NotFound => {
            let mut text: String = "no ptywright server is listening at ".to_owned();
            text.push_str(path);
            text.push_str(
                ".\n\nStart one in another terminal:\n  ptywright serve --socket ",
            );
            text.push_str(path);
            text.push_str(
                " &\n\n…or pipe a child server through stdio in one command:\n  ptywright repl --stdio -- ptywright serve --stdio",
            );
            text
        },
        ConnectFailure::ConnectionRefused => {
            let mut text: String = "socket ".to_owned();
            text.push_str(path);
            text.push_str(
                " exists but is not accepting connections — a previous server probably exited without cleaning up. Run `ptywright serve` (or `ptywright serve --socket ",
            );
            text.push_str(path);
            text.push_str(
                "`) and it will reclaim the stale socket automatically before binding.",
            );
            text
        },
        ConnectFailure::PermissionDenied => {
            let mut text: String = "permission denied connecting to ".to_owned();
            text.push_str(path);
            text.push_str(". Was the server started by a different user?");
            text
        },
        ConnectFailure::Other(error) => {
            let mut text: String = "connect to ptywright serve socket ".to_owned();
            text.push_str(path);
            text.push_str(": ");
            text.push_str(error.as_str());
            text
        },
    };
    Error::Rpc(message)
}

} // verus!
