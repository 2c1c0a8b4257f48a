//! Calls that are answered without the server.

use crate::command::arg::CallModel;
use crate::command::dispatch::{dsl_step, list_entry, OutcomeModel, StepModel};
use crate::command::wire::paths_differ;
use crate::ctx::{CtxModel, TabModel};
use crate::error::ErrorModel;
use crate::text::{begins, join};
use vstd::prelude::*;

verus! {

/// Whether a step ends with an error whose message begins in some way.
pub open spec fn refuses(step: StepModel, head: Seq<char>) -> bool {
    step matches StepModel::Done { outcome: Err(ErrorModel::Rpc(m)), heartbeat } && heartbeat is None
        && begins(m, head)
}

/// The paths of the calls.
pub open spec fn is_known(path: Seq<char>) -> bool {
    ||| path == "plugins"@ || path == "plugins.describe"@ || path == "session.spawn"@
    ||| path == "session.resume"@ || path == "session.live"@ || path == "session.attach"@
    ||| path == "session.list"@ || path == "session.close"@ || path == "state"@
    ||| path == "send.intent"@ || path == "send.text"@ || path == "send.key"@ || path == "turn"@
    ||| path == "wait"@ || path == "cancel_wait"@ || path == "wait.matches"@
    ||| path == "wait.screen_stable"@ || path == "transcript.snapshot"@
    ||| path == "screen.snapshot"@ || path == "screen.view"@ || path == "view"@
    ||| path == "inspect"@
}

/// A call that is not known is refused with its name, and nothing is asked.
pub proof fn unknown_calls_are_refused(call: CallModel, ctx: CtxModel)
    requires
        !is_known(join(call.path, "."@)),
    ensures
        refuses(dsl_step(call, ctx), "unknown command `"@ + join(call.path, "."@) + "`"@),
{
    let head = "unknown command `"@ + join(call.path, "."@) + "`"@;
    reveal_strlit("`");
    reveal_strlit("` — try `:help`");
    let m = "unknown command `"@ + join(call.path, "."@) + "` — try `:help`"@;
    assert(m.take(head.len() as int) =~= head);
}

/// The paths of the calls that take a string first.
pub open spec fn takes_a_string(path: Seq<char>) -> bool {
    ||| path == "plugins.describe"@ || path == "session.spawn"@ || path == "session.resume"@
    ||| path == "send.intent"@ || path == "send.text"@ || path == "send.key"@ || path == "turn"@
    ||| path == "cancel_wait"@
}

/// A call that takes a string first is refused, by its name, where that is missing or
/// something else, and nothing is asked.
pub proof fn strings_are_required(call: CallModel, ctx: CtxModel)
    requires
        takes_a_string(join(call.path, "."@)),
        call.positional.len() == 0 || !(call.positional[0] is String),
    ensures
        refuses(dsl_step(call, ctx), join(call.path, "."@) + " expect"@),
{
    paths_differ();
    let path = join(call.path, "."@);
    reveal_strlit(" expect");
    reveal_strlit(" expects a string argument");
    reveal_strlit(" expected a string argument, got ");
    let head = path + " expect"@;
    let missing = path + " expects a string argument"@;
    assert(missing.take(head.len() as int) =~= head);
    if call.positional.len() > 0 {
        let other = path + " expected a string argument, got "@ + call.positional[0].shown();
        assert(other.take(head.len() as int) =~= head);
    }
}

/// A wait without a matcher, or with something that is none, and one whose timeout is no
/// length of time, is refused, and nothing is asked.
pub proof fn matchers_are_required(call: CallModel, ctx: CtxModel)
    ensures
        ({
            let path = join(call.path, "."@);
            let step = dsl_step(call, ctx);
            let timeout = crate::fields::lookup(call.kwargs, "timeout"@);
            let late = timeout matches Some(t) && !(t is Duration);
            &&& path == "wait"@ && (call.positional.len() == 0 || late || call.positional[0] is String
                || call.positional[0] is Int || call.positional[0] is Bool || call.positional[0]
                is Null) ==> refuses(step, Seq::empty())
            &&& path == "wait.matches"@ && (call.positional.len() == 0 || late || !(
            call.positional[0] is String || call.positional[0] is Regex)) ==> refuses(
                step,
                Seq::empty(),
            )
            &&& path == "wait.screen_stable"@ && (call.positional.len() == 0 || late || !(
            call.positional[0] is Duration)) ==> refuses(step, Seq::empty())
        }),
{
    paths_differ();
    let step = dsl_step(call, ctx);
    if let StepModel::Done { outcome: Err(ErrorModel::Rpc(m)), .. } = step {
        assert(m.take(0) =~= Seq::<char>::empty());
    }
}

/// `session.attach` takes a string, or nothing; `session.close` as well. Anything else
/// is refused.
pub proof fn ids_are_strings(call: CallModel, ctx: CtxModel)
    requires
        join(call.path, "."@) == "session.attach"@ || join(call.path, "."@) == "session.close"@,
        call.positional.len() > 0,
        !(call.positional[0] is String),
    ensures
        refuses(dsl_step(call, ctx), join(call.path, "."@) + " expects "@),
{
    paths_differ();
    let path = join(call.path, "."@);
    reveal_strlit(" expects ");
    reveal_strlit("session.attach");
    reveal_strlit("session.close");
    reveal_strlit("session.attach expects an adapter id or \"all\", got ");
    reveal_strlit("session.close expects a string adapter id; got ");
    let head = path + " expects "@;
    let shown = call.positional[0].shown();
    let a = "session.attach expects an adapter id or \"all\", got "@ + shown;
    let b = "session.close expects a string adapter id; got "@ + shown;
    if path == "session.attach"@ {
        assert(a.take(head.len() as int) =~= head);
    } else {
        assert(b.take(head.len() as int) =~= head);
    }
}

/// `session.list` shows every tab, in order, by its id and its plugin, or that there is
/// none, and asks nothing.
pub proof fn sessions_are_listed(call: CallModel, ctx: CtxModel, i: int)
    requires
        join(call.path, "."@) == "session.list"@,
    ensures
        dsl_step(call, ctx) matches StepModel::Done { outcome: Ok(OutcomeModel::Line(line)), .. } && {
            &&& ctx.tabs.len() == 0 ==> line == "(no adapters)"@
            &&& 0 <= i < ctx.tabs.len() ==> exists|parts: Seq<Seq<char>>| #[trigger]
                join(parts, ", "@) == line && parts.len() == ctx.tabs.len() && parts[i]
                    == ctx.tabs[i].id + " ("@ + ctx.tabs[i].plugin + ")"@
        },
{
    paths_differ();
    let parts = ctx.tabs.map_values(|t: TabModel| list_entry(t));
    if 0 <= i < ctx.tabs.len() {
        assert(parts[i] == list_entry(ctx.tabs[i]));
    }
}

}
