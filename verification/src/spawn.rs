//! Starting a server as a child.

use crate::error::{Error, ErrorModel};
use crate::text::{texts, texts_push};
use vstd::prelude::*;

verus! {

broadcast use vstd::string::group_string_axioms;

/// The program of a command and its arguments. A command without a program is
/// an error.
pub fn child_command(command: &Vec<String>) -> (r: Result<(String, Vec<String>), Error>)
    ensures
        match r {
            Ok((program, args)) => texts(command@) == seq![program@] + texts(args@),
            Err(e) => command@.len() == 0 && e@ == ErrorModel::Rpc(
                "--stdio requires a child command after `--`"@,
            ),
        },
{
    if command.len() == 0 {
        return Err(Error::rpc("--stdio requires a child command after `--`"));
    }
    let ghost all = texts(command@);
    let program: String = command[0].clone();
    let mut args: Vec<String> = Vec::new();
    let mut i: usize = 1;
    assert(texts(args@) =~= all.subrange(1, 1));
    while i < command.len()
        invariant
            1 <= i <= command@.len(),
            all == texts(command@),
            texts(args@) == all.subrange(1, i as int),
        decreases command@.len() - i,
    {
        let arg: String = command[i].clone();
        proof {
            texts_push(args@, arg);
            assert(all.subrange(1, i + 1) =~= all.subrange(1, i as int).push(arg@));
        }
        args.push(arg);
        i += 1;
    }
    assert(all =~= seq![program@] + all.subrange(1, i as int));
    Ok((program, args))
}

/// What is said of a child that could not be started.
pub fn spawn_error(program: &str, error: &str) -> (r: Error)
    ensures
        r@ == ErrorModel::Rpc("spawn `"@ + program@ + "`: "@ + error@),
{
    let mut message: String = "spawn `".to_owned();
    message.push_str(program);
    message.push_str("`: ");
    message.push_str(error);
    Error::Rpc(message)
}

} // verus!
