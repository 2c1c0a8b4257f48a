//! Tips for the operator.

use vstd::prelude::*;

verus! {

broadcast use vstd::string::group_string_axioms;

/// How many tips there are.
pub const TIP_COUNT: usize = 12;

/// The tips, of which one is shown at each start.
pub open spec fn tips() -> Seq<Seq<char>> {
    seq![
        "type `plugins()` to see what you can spawn, then `session.spawn(\"agent-shell\")` to drive one"@,
        "press Tab inside `session.spawn(` to pick a plugin · Shift-Tab steps back"@,
        "`view()` renders the focused PTY inline — same styling the agent itself sees"@,
        "the two-call loop is `send.text \"hello\"` then `wait(matches \"^❯ \")`"@,
        "`turn{ \"send_prompt\", prompt = \"hi\", wait = matches \"^❯ \" }` is the atomic send-then-wait"@,
        "trailing tables are Lua kwargs — `session.spawn{ \"name\", rows = 24 }`"@,
        "`:tabs` for a one-line adapter summary · `:focus <id>` to switch"@,
        "`local s = screen.snapshot()` captures the screen so you can poke at `s.cursor` etc."@,
        "the full Lua stdlib is available — `os.date()`, `string.format(...)`, `for i = 1, 5 do ... end`"@,
        "`:rpc <method> {json}` is the raw JSON-RPC pass-through for anything the bindings don't cover"@,
        "`:notifications off` silences `session.changed` chatter when you want a quiet prompt"@,
        "multi-line input just works: open a `do` / `function` / `{` and the prompt switches to `...`"@,
    ]
}

/// The guide that `:tips` shows.
pub const LONG_GUIDE: &'static str = "\
The REPL evaluates real Lua 5.4. Every line below is a function call;\n\
the trailing-table sugar (`{ ... }`) is Lua's call-with-kwargs idiom.\n\
\n\
1. list and spawn:\n\
   plugins()                              list built-in TUIs\n\
   session.spawn(\"agent-shell\")           spawn an adapter (focus follows)\n\
   session.spawn{ \"agent-shell\", rows = 24 }\n\
                                          same call, with kwargs\n\
\n\
2. drive the focused adapter:\n\
   send.text \"explain this repo\"          send a prompt (string sugar)\n\
   send.key \"enter\"                       send a single key\n\
   wait(matches \"^❯ \")                    block until a regex hits\n\
   wait(screen_stable(ms(250)))           wait for the screen to settle\n\
   view()                                 render the focused PTY inline\n\
\n\
3. atomic send + wait:\n\
   turn{ \"send_prompt\", prompt = \"hi\",\n\
         wait = matches \"^❯ \", timeout = s(10) }\n\
                                          one round-trip · auto-correlated\n\
\n\
4. inspect and debug:\n\
   state()                                re-classify the focused adapter\n\
   transcript.snapshot()                  dump (redacted) transcript\n\
   inspect()                              raw adapter.inspect dump\n\
\n\
5. tabs and focus:\n\
   session.list()                         adapters known to this REPL\n\
   :tabs                                  same, terse one-line view\n\
   :focus <id>                            switch focus\n\
   session.attach \"id\"  /  \"all\"          adopt a server-side adapter\n\
\n\
Quality-of-life:\n\
   - Tab cycles completions · Shift-Tab steps back\n\
   - Multi-line input: opening `do` / `function` / `{` extends the prompt\n\
   - `:notifications off` silences `session.changed` events\n\
   - `:rpc <method> {json}` for raw JSON-RPC pass-through\n\
   - `:help` shows the full command reference\n";

/// The tips, of which one is shown at each start.
pub fn rotating_tips() -> (r: Vec<&'static str>)
    ensures
        r@.map_values(|t: &'static str| t@) == tips(),
{
    let r: Vec<&'static str> = vec![
        "type `plugins()` to see what you can spawn, then `session.spawn(\"agent-shell\")` to drive one",
        "press Tab inside `session.spawn(` to pick a plugin · Shift-Tab steps back",
        "`view()` renders the focused PTY inline — same styling the agent itself sees",
        "the two-call loop is `send.text \"hello\"` then `wait(matches \"^❯ \")`",
        "`turn{ \"send_prompt\", prompt = \"hi\", wait = matches \"^❯ \" }` is the atomic send-then-wait",
        "trailing tables are Lua kwargs — `session.spawn{ \"name\", rows = 24 }`",
        "`:tabs` for a one-line adapter summary · `:focus <id>` to switch",
        "`local s = screen.snapshot()` captures the screen so you can poke at `s.cursor` etc.",
        "the full Lua stdlib is available — `os.date()`, `string.format(...)`, `for i = 1, 5 do ... end`",
        "`:rpc <method> {json}` is the raw JSON-RPC pass-through for anything the bindings don't cover",
        "`:notifications off` silences `session.changed` chatter when you want a quiet prompt",
        "multi-line input just works: open a `do` / `function` / `{` and the prompt switches to `...`",
    ];
    assert(r@.map_values(|t: &'static str| t@) =~= tips());
    r
}

/// The tip for a seed.
pub open spec fn tip_for(seed: u64) -> Seq<char> {
    tips()[(seed as usize % TIP_COUNT) as int]
}

/// The tip for a seed.
pub fn rotating_tip_for(seed: u64) -> (r: &'static str)
    ensures
        r@ == tip_for(seed),
{
    let all: Vec<&'static str> = rotating_tips();
    let i: usize = (seed as usize) % TIP_COUNT;
    assert(all@.len() == all@.map_values(|t: &'static str| t@).len());
    assert(all@.map_values(|t: &'static str| t@)[i as int] == all@[i as int]@);
    all[i]
}

/// The guide that `:tips` shows.
pub fn long_guide() -> (r: &'static str)
    ensures
        r@ == LONG_GUIDE@,
{
    LONG_GUIDE
}

// ---- laws ---------------------------------------------------------------

/// Every tip is shown for one of the first seeds.
pub proof fn every_tip_is_reached(i: int)
    requires
        0 <= i < tips().len(),
    ensures
        0 <= i < TIP_COUNT,
        tip_for(i as u64) == tips()[i],
{
}

/// The tips come round again.
pub proof fn tips_come_round(seed: u64)
    requires
        seed + TIP_COUNT <= usize::MAX,
        seed + TIP_COUNT <= u64::MAX,
    ensures
        tip_for((seed + TIP_COUNT) as u64) == tip_for(seed),
{
    assert((seed + 12) % 12 == seed as int % 12);
}

/// The lengths of the tips, and the characters by which tips of one length
/// differ.
proof fn tip_lengths()
    ensures
        tips().len() == TIP_COUNT,
        tips()[0].len() == 92,
        tips()[1].len() == 73,
        tips()[2].len() == 76,
        tips()[3].len() == 67,
        tips()[4].len() == 89,
        tips()[5].len() == 69,
        tips()[6].len() == 64,
        tips()[7].len() == 84,
        tips()[8].len() == 95,
        tips()[9].len() == 93,
        tips()[10].len() == 84,
        tips()[11].len() == 92,
        tips()[0][0] == 't',
        tips()[11][0] == 'm',
        tips()[7][1] == 'l',
        tips()[10][1] == ':',
{
    reveal_strlit(
        "type `plugins()` to see what you can spawn, then `session.spawn(\"agent-shell\")` to drive one",
    );
    reveal_strlit(
        "press Tab inside `session.spawn(` to pick a plugin · Shift-Tab steps back",
    );
    reveal_strlit(
        "`view()` renders the focused PTY inline — same styling the agent itself sees",
    );
    reveal_strlit(
        "the two-call loop is `send.text \"hello\"` then `wait(matches \"^❯ \")`",
    );
    reveal_strlit(
        "`turn{ \"send_prompt\", prompt = \"hi\", wait = matches \"^❯ \" }` is the atomic send-then-wait",
    );
    reveal_strlit(
        "trailing tables are Lua kwargs — `session.spawn{ \"name\", rows = 24 }`",
    );
    reveal_strlit(
        "`:tabs` for a one-line adapter summary · `:focus <id>` to switch",
    );
    reveal_strlit(
        "`local s = screen.snapshot()` captures the screen so you can poke at `s.cursor` etc.",
    );
    reveal_strlit(
        "the full Lua stdlib is available — `os.date()`, `string.format(...)`, `for i = 1, 5 do ... end`",
    );
    reveal_strlit(
        "`:rpc <method> {json}` is the raw JSON-RPC pass-through for anything the bindings don't cover",
    );
    reveal_strlit(
        "`:notifications off` silences `session.changed` chatter when you want a quiet prompt",
    );
    reveal_strlit(
        "multi-line input just works: open a `do` / `function` / `{` and the prompt switches to `...`",
    );
}

/// Whether none of the first `n` characters is a line feed.
spec fn no_line_feed(s: Seq<char>, n: nat) -> bool
    decreases n,
{
    n == 0 || (s[n - 1] != '\n' && no_line_feed(s, (n - 1) as nat))
}

proof fn no_line_feed_holds(s: Seq<char>, n: nat, i: int)
    requires
        no_line_feed(s, n),
        0 <= i < n,
    ensures
        s[i] != '\n',
    decreases n,
{
    if i < n - 1 {
        no_line_feed_holds(s, (n - 1) as nat, i);
    }
}

proof fn tip_0_is_one_line()
    ensures
        no_line_feed(tips()[0], 92),
{
    reveal_strlit(
        "type `plugins()` to see what you can spawn, then `session.spawn(\"agent-shell\")` to drive one",
    );
    reveal_with_fuel(no_line_feed, 93);
}

proof fn tip_1_is_one_line()
    ensures
        no_line_feed(tips()[1], 73),
{
    reveal_strlit(
        "press Tab inside `session.spawn(` to pick a plugin · Shift-Tab steps back",
    );
    reveal_with_fuel(no_line_feed, 74);
}

proof fn tip_2_is_one_line()
    ensures
        no_line_feed(tips()[2], 76),
{
    reveal_strlit(
        "`view()` renders the focused PTY inline — same styling the agent itself sees",
    );
    reveal_with_fuel(no_line_feed, 77);
}

proof fn tip_3_is_one_line()
    ensures
        no_line_feed(tips()[3], 67),
{
    reveal_strlit(
        "the two-call loop is `send.text \"hello\"` then `wait(matches \"^❯ \")`",
    );
    reveal_with_fuel(no_line_feed, 68);
}

proof fn tip_4_is_one_line()
    ensures
        no_line_feed(tips()[4], 89),
{
    reveal_strlit(
        "`turn{ \"send_prompt\", prompt = \"hi\", wait = matches \"^❯ \" }` is the atomic send-then-wait",
    );
    reveal_with_fuel(no_line_feed, 90);
}

proof fn tip_5_is_one_line()
    ensures
        no_line_feed(tips()[5], 69),
{
    reveal_strlit(
        "trailing tables are Lua kwargs — `session.spawn{ \"name\", rows = 24 }`",
    );
    reveal_with_fuel(no_line_feed, 70);
}

proof fn tip_6_is_one_line()
    ensures
        no_line_feed(tips()[6], 64),
{
    reveal_strlit(
        "`:tabs` for a one-line adapter summary · `:focus <id>` to switch",
    );
    reveal_with_fuel(no_line_feed, 65);
}

proof fn tip_7_is_one_line()
    ensures
        no_line_feed(tips()[7], 84),
{
    reveal_strlit(
        "`local s = screen.snapshot()` captures the screen so you can poke at `s.cursor` etc.",
    );
    reveal_with_fuel(no_line_feed, 85);
}

proof fn tip_8_is_one_line()
    ensures
        no_line_feed(tips()[8], 95),
{
    reveal_strlit(
        "the full Lua stdlib is available — `os.date()`, `string.format(...)`, `for i = 1, 5 do ... end`",
    );
    reveal_with_fuel(no_line_feed, 96);
}

proof fn tip_9_is_one_line()
    ensures
        no_line_feed(tips()[9], 93),
{
    reveal_strlit(
        "`:rpc <method> {json}` is the raw JSON-RPC pass-through for anything the bindings don't cover",
    );
    reveal_with_fuel(no_line_feed, 94);
}

proof fn tip_10_is_one_line()
    ensures
        no_line_feed(tips()[10], 84),
{
    reveal_strlit(
        "`:notifications off` silences `session.changed` chatter when you want a quiet prompt",
    );
    reveal_with_fuel(no_line_feed, 85);
}

proof fn tip_11_is_one_line()
    ensures
        no_line_feed(tips()[11], 92),
{
    reveal_strlit(
        "multi-line input just works: open a `do` / `function` / `{` and the prompt switches to `...`",
    );
    reveal_with_fuel(no_line_feed, 93);
}

/// Every tip is a line that fits: it is not empty, has no line feed and no
/// more than 120 characters.
pub proof fn tips_are_lines(seed: u64)
    ensures
        0 < tip_for(seed).len() <= 120,
        !tip_for(seed).contains('\n'),
{
    tip_lengths();
    tip_0_is_one_line();
    tip_1_is_one_line();
    tip_2_is_one_line();
    tip_3_is_one_line();
    tip_4_is_one_line();
    tip_5_is_one_line();
    tip_6_is_one_line();
    tip_7_is_one_line();
    tip_8_is_one_line();
    tip_9_is_one_line();
    tip_10_is_one_line();
    tip_11_is_one_line();
    let tip = tip_for(seed);
    assert(no_line_feed(tip, tip.len()));
    assert forall|i: int| 0 <= i < tip.len() implies tip[i] != '\n' by {
        no_line_feed_holds(tip, tip.len(), i);
    }
}

/// As many seeds in a row as there are tips show as many different tips.
pub proof fn tips_differ(seed: u64, i: int, j: int)
    requires
        0 <= i < j < TIP_COUNT,
        seed + j <= usize::MAX,
        seed + j <= u64::MAX,
    ensures
        tip_for((seed + i) as u64) != tip_for((seed + j) as u64),
{
    tip_lengths();
    let a = (seed + i) % 12;
    let b = (seed + j) % 12;
    assert(a != b);
    assert(tip_for((seed + i) as u64) == tips()[a]);
    assert(tip_for((seed + j) as u64) == tips()[b]);
}

/// No tip is shown for two seeds in a row.
pub proof fn tips_change(seed: u64)
    requires
        seed < usize::MAX,
        seed < u64::MAX,
    ensures
        tip_for((seed + 1) as u64) != tip_for(seed),
{
    tips_differ(seed, 0, 1);
}

} // verus!
