//! One-line summaries of what a command did.

pub mod sizes;

use crate::duration::Duration;
use crate::json::{json_encoded, models, Json, JsonModel};
use crate::paint::{
    colour, dimmed, paint, painted, plain, span_models, span_models_push, Ink, Shade, Span,
    SpanModel,
};
use crate::text::{decimal, decimal_text, join, joined, texts, texts_push};
use vstd::prelude::*;
use vstd::utf8::encode_utf8;

verus! {

broadcast use vstd::string::group_string_axioms;

/// A summary: a dim line, and badges behind it.
#[derive(Debug, PartialEq, Eq)]
pub struct Note {
    pub primary: String,
    pub badges: Vec<String>,
}

pub struct NoteModel {
    pub primary: Seq<char>,
    pub badges: Seq<Seq<char>>,
}

impl View for Note {
    type V = NoteModel;

    open spec fn view(&self) -> NoteModel {
        NoteModel { primary: self.primary@, badges: texts(self.badges@) }
    }
}

/// A summary without badges.
pub open spec fn plain_note(primary: Seq<char>) -> NoteModel {
    NoteModel { primary, badges: Seq::empty() }
}

/// Black on amber, or amber reversed: how a badge is drawn on a terminal.
pub open spec fn badge_ink() -> Ink {
    Ink { foreground: Some(Shade::Fixed(214)), reverse: true, ..plain() }
}

/// How a badge is drawn as a piece of a line.
pub open spec fn badge_span_ink() -> Ink {
    Ink { foreground: Some(Shade::Black), background: Some(Shade::Fixed(214)), ..plain() }
}

/// The painted badges, each behind a space.
pub open spec fn badges_text(badges: Seq<Seq<char>>) -> Seq<char>
    decreases badges.len(),
{
    if badges.len() == 0 {
        Seq::empty()
    } else {
        badges_text(badges.drop_last()) + " "@ + painted(
            badge_ink(),
            " "@ + badges.last() + " "@,
        )
    }
}

/// The pieces of the badges, each behind a space.
pub open spec fn badge_spans(badges: Seq<Seq<char>>) -> Seq<SpanModel>
    decreases badges.len(),
{
    if badges.len() == 0 {
        Seq::empty()
    } else {
        badge_spans(badges.drop_last()).push(SpanModel { text: " "@, ink: plain() }).push(
            SpanModel { text: " "@ + badges.last() + " "@, ink: badge_span_ink() },
        )
    }
}

impl NoteModel {
    /// The painted line: an arrow, the dim text, the badges.
    pub open spec fn rendered(self) -> Seq<char> {
        "  "@ + painted(colour(Shade::DarkGray), "↳"@) + " "@ + painted(dimmed(), self.primary)
            + badges_text(self.badges)
    }

    /// The line as pieces: an arrow, the dim text, the badges.
    pub open spec fn line_spans(self) -> Seq<SpanModel> {
        seq![
            SpanModel { text: "  "@, ink: plain() },
            SpanModel { text: "↳"@, ink: colour(Shade::DarkGray) },
            SpanModel { text: " "@, ink: plain() },
            SpanModel { text: self.primary, ink: dimmed() },
        ] + badge_spans(self.badges)
    }
}

fn padded(s: &str) -> (r: String)
    ensures
        r@ == " "@ + s@ + " "@,
{
    let mut out: String = " ".to_owned();
    out.push_str(s);
    out.push_str(" ");
    out
}

impl Note {
    pub fn line(primary: &str) -> (r: Note)
        ensures
            r@ == plain_note(primary@),
    {
        let r = Note { primary: primary.to_owned(), badges: Vec::new() };
        assert(r@.badges == Seq::<Seq<char>>::empty());
        r
    }

    /// The note with another badge behind the others.
    pub fn with_badge(self, badge: &str) -> (r: Note)
        ensures
            r@ == (NoteModel { primary: self@.primary, badges: self@.badges.push(badge@) }),
    {
        let mut badges: Vec<String> = self.badges;
        let text: String = badge.to_owned();
        proof {
            texts_push(badges@, text);
        }
        badges.push(text);
        Note { primary: self.primary, badges }
    }

    /// The painted line.
    pub fn render(&self) -> (r: String)
        ensures
            r@ == self@.rendered(),
    {
        let mut out: String = "  ".to_owned();
        out.push_str(paint(Ink::colour(Shade::DarkGray), "↳").as_str());
        out.push_str(" ");
        out.push_str(paint(Ink::dimmed(), self.primary.as_str()).as_str());
        let ghost head = out@;
        let ghost all = texts(self.badges@);
        let mut i: usize = 0;
        assert(all.take(0) == Seq::<Seq<char>>::empty());
        assert(head + badges_text(all.take(0)) == head);
        while i < self.badges.len()
            invariant
                i <= self.badges@.len(),
                all == texts(self.badges@),
                out@ == head + badges_text(all.take(i as int)),
            decreases self.badges@.len() - i,
        {
            let ghost before = out@;
            let mut ink: Ink = Ink::colour(Shade::Fixed(214));
            ink.reverse = true;
            assert(ink == badge_ink());
            let chip: String = padded(self.badges[i].as_str());
            out.push_str(" ");
            out.push_str(paint(ink, chip.as_str()).as_str());
            proof {
                assert(all.take(i + 1).drop_last() == all.take(i as int));
                assert(all.take(i + 1).last() == self.badges@[i as int]@);
                assert(out@ == head + badges_text(all.take(i + 1)));
            }
            i += 1;
        }
        assert(all.take(i as int) == all);
        out
    }

    /// The line as styled pieces.
    pub fn to_line(&self) -> (r: Vec<Span>)
        ensures
            span_models(r@) == self@.line_spans(),
    {
        let mut out: Vec<Span> = Vec::new();
        out.push(Span::new("  ", Ink::plain()));
        out.push(Span::new("↳", Ink::colour(Shade::DarkGray)));
        out.push(Span::new(" ", Ink::plain()));
        out.push(Span::new(self.primary.as_str(), Ink::dimmed()));
        let ghost head = span_models(out@);
        let ghost all = texts(self.badges@);
        let mut i: usize = 0;
        proof {
            assert(head == seq![
                SpanModel { text: "  "@, ink: plain() },
                SpanModel { text: "↳"@, ink: colour(Shade::DarkGray) },
                SpanModel { text: " "@, ink: plain() },
                SpanModel { text: self@.primary, ink: dimmed() },
            ]);
            assert(all.take(0) == Seq::<Seq<char>>::empty());
            assert(head + badge_spans(all.take(0)) == head);
        }
        while i < self.badges.len()
            invariant
                i <= self.badges@.len(),
                all == texts(self.badges@),
                span_models(out@) == head + badge_spans(all.take(i as int)),
            decreases self.badges@.len() - i,
        {
            let ghost before = out@;
            let gap: Span = Span::new(" ", Ink::plain());
            let mut ink: Ink = Ink::colour(Shade::Black);
            ink.background = Some(Shade::Fixed(214));
            assert(ink == badge_span_ink());
            let chip: Span = Span::new(padded(self.badges[i].as_str()).as_str(), ink);
            proof {
                span_models_push(before, gap);
                span_models_push(before.push(gap), chip);
                assert(all.take(i + 1).drop_last() == all.take(i as int));
                assert(all.take(i + 1).last() == self.badges@[i as int]@);
                assert(span_models(before).push(gap@).push(chip@) == head + badge_spans(
                    all.take(i + 1),
                ));
            }
            out.push(gap);
            out.push(chip);
            i += 1;
        }
        assert(all.take(i as int) == all);
        out
    }
}

// ---- parts of the summaries ---------------------------------------------

/// ` · state: <name>` when the response names a state.
pub open spec fn state_suffix(response: JsonModel) -> Seq<char> {
    match response.inner_text("state"@, "state"@) {
        Some(name) => if name.len() > 0 {
            " · state: "@ + name
        } else {
            Seq::empty()
        },
        None => Seq::empty(),
    }
}

pub fn state_label_suffix(response: &Json) -> (r: String)
    ensures
        r@ == state_suffix(response@),
{
    match response.get_inner_str("state", "state") {
        Some(name) => if name.as_str().is_empty() {
            String::new()
        } else {
            let mut out: String = " · state: ".to_owned();
            out.push_str(name.as_str());
            out
        },
        None => String::new(),
    }
}

/// `<cols>×<rows>` when the state has both.
pub open spec fn dims_text(state: Option<JsonModel>) -> Option<Seq<char>> {
    match state {
        None => None,
        Some(s) => match (s.inner_unsigned("size"@, "cols"@), s.inner_unsigned(
            "size"@,
            "rows"@,
        )) {
            (Some(cols), Some(rows)) => Some(decimal(cols as nat) + "×"@ + decimal(rows as nat)),
            _ => None,
        },
    }
}

pub fn format_dims_from_state(state: Option<&Json>) -> (r: Option<String>)
    ensures
        match r {
            Some(s) => dims_text(match state {
                Some(j) => Some(j@),
                None => None,
            }) == Some(s@),
            None => dims_text(match state {
                Some(j) => Some(j@),
                None => None,
            }) is None,
        },
{
    match state {
        None => None,
        Some(s) => {
            let cols: Option<u64> = s.get_inner_u64("size", "cols");
            let rows: Option<u64> = s.get_inner_u64("size", "rows");
            match (cols, rows) {
                (Some(cols), Some(rows)) => {
                    let mut out: String = decimal_text(cols as u128);
                    out.push_str("×");
                    out.push_str(decimal_text(rows as u128).as_str());
                    Some(out)
                },
                _ => None,
            }
        },
    }
}

/// A separator with a name and a number, or nothing.
pub open spec fn numbered(label: Seq<char>, n: Option<u64>) -> Seq<char> {
    match n {
        Some(n) => label + decimal(n as nat),
        None => Seq::empty(),
    }
}

fn numbered_text(label: &str, n: Option<u64>) -> (r: String)
    ensures
        r@ == numbered(label@, n),
{
    match n {
        Some(n) => {
            let mut out: String = label.to_owned();
            out.push_str(decimal_text(n as u128).as_str());
            out
        },
        None => String::new(),
    }
}

// ---- summaries ----------------------------------------------------------

/// What is known of a fresh adapter, in order: its id, its plugin, its
/// process, its state, its size and whether the alternate screen is on.
pub open spec fn spawned_parts(response: JsonModel) -> Seq<Seq<char>> {
    let a = match response.text_field("adapter"@) {
        Some(id) => seq![id],
        None => Seq::empty(),
    };
    let b = match response.text_field("plugin"@) {
        Some(plugin) => a.push(plugin),
        None => a,
    };
    let c = match response.unsigned_field("pid"@) {
        Some(pid) => b.push("pid "@ + decimal(pid as nat)),
        None => b,
    };
    let d = match response.inner_text("state"@, "state"@) {
        Some(name) => if name.len() > 0 {
            c.push("state: "@ + name)
        } else {
            c
        },
        None => c,
    };
    let e = match dims_text(response.field("state"@)) {
        Some(dims) => d.push(dims),
        None => d,
    };
    let alternate = match response.inner_field("state"@, "metadata"@) {
        Some(m) => m.flag_field("alternate_screen"@) == Some(true),
        None => false,
    };
    if alternate {
        e.push("alt-screen"@)
    } else {
        e
    }
}

/// The summary of `session.spawn`.
pub open spec fn spawned_note(response: JsonModel) -> NoteModel {
    let parts = spawned_parts(response);
    if parts.len() == 0 {
        plain_note("spawned"@)
    } else {
        plain_note("spawned · "@ + join(parts, " · "@))
    }
}

/// The summary of `session.spawn`.
pub fn spawned(response: &Json) -> (r: Note)
    ensures
        r@ == spawned_note(response@),
{
    let mut parts: Vec<String> = Vec::new();
    assert(texts(parts@) == Seq::<Seq<char>>::empty());
    if let Some(id) = response.get_str("adapter") {
        let id: String = id.clone();
        proof {
            texts_push(parts@, id);
            assert(Seq::<Seq<char>>::empty().push(id@) == seq![id@]);
        }
        parts.push(id);
    }
    if let Some(plugin) = response.get_str("plugin") {
        let plugin: String = plugin.clone();
        proof {
            texts_push(parts@, plugin);
        }
        parts.push(plugin);
    }
    if let Some(pid) = response.get_u64("pid") {
        let text: String = numbered_text("pid ", Some(pid));
        proof {
            texts_push(parts@, text);
        }
        parts.push(text);
    }
    if let Some(name) = response.get_inner_str("state", "state") {
        if !name.as_str().is_empty() {
            let mut text: String = "state: ".to_owned();
            text.push_str(name.as_str());
            proof {
                texts_push(parts@, text);
            }
            parts.push(text);
        }
    }
    if let Some(dims) = format_dims_from_state(response.get("state")) {
        proof {
            texts_push(parts@, dims);
        }
        parts.push(dims);
    }
    let alternate: bool = match response.get_inner("state", "metadata") {
        Some(m) => match m.get_bool("alternate_screen") {
            Some(b) => b,
            None => false,
        },
        None => false,
    };
    if alternate {
        let mark: String = "alt-screen".to_owned();
        proof {
            texts_push(parts@, mark);
        }
        parts.push(mark);
    }
    if parts.len() == 0 {
        Note::line("spawned")
    } else {
        let mut primary: String = "spawned · ".to_owned();
        primary.push_str(joined(&parts, " · ").as_str());
        Note::line(primary.as_str())
    }
}

/// The summary of `session.close`.
pub fn closed(adapter: &str) -> (r: Note)
    ensures
        r@ == plain_note("closed · "@ + adapter@),
{
    let mut primary: String = "closed · ".to_owned();
    primary.push_str(adapter);
    Note::line(primary.as_str())
}

/// The summary of `send.text`: how many bytes went out.
pub open spec fn send_text_note(text: Seq<char>, response: JsonModel) -> NoteModel {
    plain_note("wrote "@ + decimal(encode_utf8(text).len()) + " bytes"@ + state_suffix(response))
}

/// The summary of `send.text`.
pub fn send_text(text: &str, response: &Json) -> (r: Note)
    ensures
        r@ == send_text_note(text@, response@),
{
    let bytes: usize = text.as_bytes().len();
    let mut primary: String = "wrote ".to_owned();
    primary.push_str(decimal_text(bytes as u128).as_str());
    primary.push_str(" bytes");
    primary.push_str(state_label_suffix(response).as_str());
    Note::line(primary.as_str())
}

/// The summary of `send.key`.
pub fn send_key(key: &str, response: &Json) -> (r: Note)
    ensures
        r@ == plain_note("sent key "@ + key@ + state_suffix(response@)),
{
    let mut primary: String = "sent key ".to_owned();
    primary.push_str(key);
    primary.push_str(state_label_suffix(response).as_str());
    Note::line(primary.as_str())
}

/// The summary of `send.intent`.
pub fn send_intent(intent: &str, response: &Json) -> (r: Note)
    ensures
        r@ == plain_note("intent "@ + intent@ + state_suffix(response@)),
{
    let mut primary: String = "intent ".to_owned();
    primary.push_str(intent);
    primary.push_str(state_label_suffix(response).as_str());
    Note::line(primary.as_str())
}

/// The summary of a wait for a pattern.
pub open spec fn wait_match_note(elapsed: Duration, response: JsonModel) -> NoteModel {
    plain_note(
        "matched after "@ + decimal(elapsed.millis() as nat) + "ms"@ + numbered(
            " · row "@,
            response.inner_unsigned("matched"@, "row"@),
        ) + numbered(" · seq "@, response.inner_unsigned("state"@, "sequence"@)),
    )
}

/// The summary of a wait for a pattern.
pub fn wait_match(elapsed: Duration, response: &Json) -> (r: Note)
    ensures
        r@ == wait_match_note(elapsed, response@),
{
    let mut primary: String = "matched after ".to_owned();
    primary.push_str(decimal_text(elapsed.as_millis()).as_str());
    primary.push_str("ms");
    primary.push_str(numbered_text(" · row ", response.get_inner_u64("matched", "row")).as_str());
    primary.push_str(
        numbered_text(" · seq ", response.get_inner_u64("state", "sequence")).as_str(),
    );
    Note::line(primary.as_str())
}

/// The summary of a wait for a screen that settles.
pub open spec fn wait_stable_note(elapsed: Duration, response: JsonModel) -> NoteModel {
    plain_note(
        "stable after "@ + decimal(elapsed.millis() as nat) + "ms"@ + numbered(
            " · seq "@,
            response.inner_unsigned("state"@, "sequence"@),
        ),
    )
}

/// The summary of a wait for a screen that settles.
pub fn wait_stable(elapsed: Duration, response: &Json) -> (r: Note)
    ensures
        r@ == wait_stable_note(elapsed, response@),
{
    let mut primary: String = "stable after ".to_owned();
    primary.push_str(decimal_text(elapsed.as_millis()).as_str());
    primary.push_str("ms");
    primary.push_str(
        numbered_text(" · seq ", response.get_inner_u64("state", "sequence")).as_str(),
    );
    Note::line(primary.as_str())
}

/// The summary of a turn: always with its badge.
pub open spec fn turn_complete_note(elapsed: Duration, response: JsonModel) -> NoteModel {
    NoteModel {
        primary: "turn completed in "@ + decimal(elapsed.millis() as nat) + "ms"@ + numbered(
            " · row "@,
            response.inner_unsigned("matched"@, "row"@),
        ),
        badges: seq!["turn complete"@],
    }
}

/// The summary of a turn.
pub fn turn_complete(elapsed: Duration, response: &Json) -> (r: Note)
    ensures
        r@ == turn_complete_note(elapsed, response@),
{
    let mut primary: String = "turn completed in ".to_owned();
    primary.push_str(decimal_text(elapsed.as_millis()).as_str());
    primary.push_str("ms");
    primary.push_str(numbered_text(" · row ", response.get_inner_u64("matched", "row")).as_str());
    assert(Seq::<Seq<char>>::empty().push("turn complete"@) == seq!["turn complete"@]);
    Note::line(primary.as_str()).with_badge("turn complete")
}

// ---- byte counts --------------------------------------------------------

/// `x / d`, rounded to the nearest integer; a tie goes to the even one.
pub open spec fn nearest(x: nat, d: nat) -> nat {
    let q = x / d;
    let r = x % d;
    if 2 * r > d || (2 * r == d && q % 2 == 1) {
        q + 1
    } else {
        q
    }
}

/// The distance between neighbours of `n` among the numbers of 53 binary
/// digits.
pub open spec fn spacing(n: nat) -> nat
    decreases n,
{
    if n < 9007199254740992 {
        1
    } else {
        2 * spacing(n / 2)
    }
}

/// The number of 53 binary digits that is nearest to `n`.
pub open spec fn rounded(n: nat) -> nat {
    nearest(n, spacing(n)) * spacing(n)
}

/// `x / unit` with one decimal.
pub open spec fn one_decimal(x: nat, unit: nat) -> Seq<char> {
    let tenths = nearest(x * 10, unit);
    decimal(tenths / 10) + "."@ + decimal(tenths % 10)
}

/// A byte count in bytes, KiB or MiB, whichever is the greatest that it
/// reaches.
pub open spec fn bytes_text(bytes: nat) -> Seq<char> {
    let n = rounded(bytes);
    if n >= 1048576 {
        one_decimal(n, 1048576) + " MiB"@
    } else if n >= 1024 {
        one_decimal(n, 1024) + " KiB"@
    } else {
        decimal(bytes) + " B"@
    }
}

proof fn spacing_bounds(n: nat)
    ensures
        1 <= spacing(n),
        spacing(n) <= n || spacing(n) == 1,
    decreases n,
{
    if n >= 9007199254740992 {
        spacing_bounds(n / 2);
    }
}

fn nearest_u128(x: u128, d: u128) -> (r: u128)
    requires
        0 < d <= 0x1_0000_0000_0000_0000,
        x < 0x100_0000_0000_0000_0000,
    ensures
        r == nearest(x as nat, d as nat),
        r <= x + 1,
{
    let q: u128 = x / d;
    let rest: u128 = x % d;
    proof {
        assert(q <= x) by (nonlinear_arith)
            requires
                q == x / d,
                d > 0,
        ;
    }
    if 2 * rest > d || (2 * rest == d && q % 2 == 1) {
        q + 1
    } else {
        q
    }
}

fn spacing_u128(n: u128) -> (r: u128)
    requires
        n <= 0xffff_ffff_ffff_ffff,
    ensures
        r == spacing(n as nat),
        1 <= r,
        r <= n || r == 1,
    decreases n,
{
    proof {
        spacing_bounds(n as nat);
        spacing_bounds((n / 2) as nat);
    }
    if n < 9007199254740992 {
        1
    } else {
        2 * spacing_u128(n / 2)
    }
}

fn one_decimal_text(x: u128, unit: u128) -> (r: String)
    requires
        0 < unit <= 0x1_0000_0000_0000_0000,
        x <= 0x2_0000_0000_0000_0000,
    ensures
        r@ == one_decimal(x as nat, unit as nat),
{
    let tenths: u128 = nearest_u128(x * 10, unit);
    let mut out: String = decimal_text(tenths / 10);
    out.push_str(".");
    out.push_str(decimal_text(tenths % 10).as_str());
    out
}

/// A byte count for people: `512 B`, `1.2 KiB`, `3.4 MiB`.
pub fn format_bytes(bytes: usize) -> (r: String)
    ensures
        r@ == bytes_text(bytes as nat),
{
    let unit: u128 = spacing_u128(bytes as u128);
    let count: u128 = nearest_u128(bytes as u128, unit);
    proof {
        let n = bytes as int;
        let u = unit as int;
        let q = n / u;
        assert(count <= q + 1);
        assert((q + 1) * u <= 2 * n + u) by (nonlinear_arith)
            requires
                q == n / u,
                u >= 1,
                n >= 0,
        ;
        assert(count * u <= (q + 1) * u) by (nonlinear_arith)
            requires
                count <= q + 1,
                u >= 1,
        ;
        assert(u <= 0xffff_ffff_ffff_ffff);
        assert(q * u <= n) by (nonlinear_arith)
            requires
                q == n / u,
                u >= 1,
                n >= 0,
        ;
        assert((q + 1) * u == q * u + u) by (nonlinear_arith);
        assert(count * u <= 0x2_0000_0000_0000_0000);
    }
    let n: u128 = count * unit;
    if n >= 1048576 {
        let mut out: String = one_decimal_text(n, 1048576);
        out.push_str(" MiB");
        out
    } else if n >= 1024 {
        let mut out: String = one_decimal_text(n, 1024);
        out.push_str(" KiB");
        out
    } else {
        let mut out: String = decimal_text(bytes as u128);
        out.push_str(" B");
        out
    }
}

/// The summary of a transcript of so many bytes.
pub open spec fn transcript_line(bytes: nat, redacted: Option<u64>) -> NoteModel {
    plain_note(
        "transcript · "@ + (bytes_text(bytes) + (match redacted {
            Some(count) => " · redacted "@ + decimal(count as nat) + " pattern"@ + if count == 1 {
                ""@
            } else {
                "s"@
            },
            None => Seq::empty(),
        })),
    )
}

/// The summary of a transcript of so many bytes.
pub fn transcript_of(bytes: usize, redacted: Option<u64>) -> (r: Note)
    ensures
        r@ == transcript_line(bytes as nat, redacted),
{
    let mut primary: String = format_bytes(bytes);
    let ghost size = primary@;
    match redacted {
        Some(count) => {
            let mut tail: String = " · redacted ".to_owned();
            tail.push_str(decimal_text(count as u128).as_str());
            tail.push_str(" pattern");
            tail.push_str(
                if count == 1 {
                    ""
                } else {
                    "s"
                },
            );
            primary.push_str(tail.as_str());
        },
        None => {
            assert(size + Seq::<char>::empty() == size);
        },
    }
    let mut line: String = "transcript · ".to_owned();
    line.push_str(primary.as_str());
    Note::line(line.as_str())
}

/// How many patterns a transcript response says were redacted.
pub open spec fn redacted_count(response: JsonModel) -> Option<u64> {
    match response.unsigned_field("redacted"@) {
        Some(n) => Some(n),
        None => match response.items_field("redactions"@) {
            Some(items) => Some(items.len() as u64),
            None => None,
        },
    }
}

/// How many bytes the transcript of a response takes as JSON text.
pub open spec fn transcript_bytes(response: JsonModel) -> nat {
    match response.field("transcript"@) {
        Some(t) => encode_utf8(json_encoded(t)).len(),
        None => 0,
    }
}

/// The summary of `transcript.snapshot`: how much text came, and how much of
/// it was redacted.
pub fn transcript(response: &Json) -> (r: Note)
    ensures
        r@ == transcript_line(transcript_bytes(response@), redacted_count(response@)),
{
    let bytes: usize = match response.get("transcript") {
        Some(t) => t.encode().as_str().as_bytes().len(),
        None => 0,
    };
    let redacted: Option<u64> = match response.get_u64("redacted") {
        Some(n) => Some(n),
        None => match response.get_array("redactions") {
            Some(items) => {
                assert(models(items@).len() == items@.len());
                Some(items.len() as u64)
            },
            None => None,
        },
    };
    transcript_of(bytes, redacted)
}

} // verus!
