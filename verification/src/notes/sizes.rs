//! How big a transcript is told to be.

use crate::command::dispatch::{next_step, OutcomeModel, PendingModel, StepModel};
use crate::ctx::CtxModel;
use crate::duration::Duration;
use crate::json::{json_encoded, JsonModel};
use crate::notes::{bytes_text, nearest, rounded, spacing};
use crate::text::{begins, decimal};
use vstd::prelude::*;
use vstd::utf8::encode_utf8;

verus! {

proof fn small_counts_are_kept(n: nat)
    requires
        n < 9007199254740992,
    ensures
        rounded(n) == n,
{
    assert(spacing(n) == 1);
    assert(n / 1 == n && n % 1 == 0);
    assert(nearest(n, 1) == n);
    assert(n * 1 == n);
}

/// Whether a number of tenths is the nearest to a size in some unit: it is off by half a
/// tenth at most.
pub open spec fn is_nearest(tenths: nat, bytes: nat, unit: nat) -> bool {
    -(unit as int) <= 2 * (10 * bytes - tenths * unit) <= unit
}

proof fn nearest_is_nearest(x: nat, d: nat)
    requires
        d > 0,
    ensures
        -(d as int) <= 2 * (x - nearest(x, d) * d) <= d,
{
    let q = x / d;
    let r = x % d;
    assert(x == q * d + r && r < d) by (nonlinear_arith)
        requires
            d > 0,
            q == x / d,
            r == x % d,
    ;
    assert((q + 1) * d == q * d + d) by (nonlinear_arith);
}

/// A size is told in bytes below 1024, then in units of 1024 bytes, and from 1024 of
/// those on in units of 1024 times as many, with one decimal, which is the nearest.
pub proof fn sizes_are_told(bytes: nat)
    requires
        bytes < 9007199254740992,
    ensures
        bytes < 1024 ==> bytes_text(bytes) == decimal(bytes) + " B"@,
        1024 <= bytes < 1048576 ==> exists|tenths: nat|
            is_nearest(tenths, bytes, 1024) && bytes_text(bytes) == #[trigger] decimal(tenths / 10)
                + "."@ + decimal(tenths % 10) + " KiB"@,
        1048576 <= bytes ==> exists|tenths: nat|
            is_nearest(tenths, bytes, 1048576) && bytes_text(bytes) == #[trigger] decimal(
                tenths / 10,
            ) + "."@ + decimal(tenths % 10) + " MiB"@,
{
    small_counts_are_kept(bytes);
    let k = nearest(bytes * 10, 1024);
    let m = nearest(bytes * 10, 1048576);
    nearest_is_nearest(bytes * 10, 1024);
    nearest_is_nearest(bytes * 10, 1048576);
    if 1024 <= bytes < 1048576 {
        assert(is_nearest(k, bytes, 1024));
        assert(bytes_text(bytes) == decimal(k / 10) + "."@ + decimal(k % 10) + " KiB"@);
    }
    if 1048576 <= bytes {
        assert(is_nearest(m, bytes, 1048576));
        assert(bytes_text(bytes) == decimal(m / 10) + "."@ + decimal(m % 10) + " MiB"@);
    }
}

/// A transcript is told of by its size as JSON text and by how many patterns were
/// redacted, as far as the server says so, by their number or by their list.
pub proof fn transcripts_are_told_of(value: JsonModel, elapsed: Duration, ctx: CtxModel)
    ensures
        next_step(PendingModel::Transcript, Ok(value), elapsed, ctx).0 matches StepModel::Done {
            outcome: Ok(OutcomeModel::Note { note, .. }),
            ..
        } && {
            let size = match value.field("transcript"@) {
                Some(t) => encode_utf8(json_encoded(t)).len(),
                None => 0,
            };
            let head = "transcript · "@ + bytes_text(size);
            &&& note.badges.len() == 0
            &&& begins(note.primary, head)
            &&& value.unsigned_field("redacted"@) matches Some(n) ==> note.primary == head
                + " · redacted "@ + decimal(n as nat) + (if n == 1 {
                " pattern"@
            } else {
                " patterns"@
            })
            &&& value.field("redacted"@) is None && value.field("redactions"@) is None
                ==> note.primary == head
            &&& value.field("redacted"@) is None ==> (value.field(
                "redactions"@,
            ) matches Some(JsonModel::Arr(items)) ==> (1 < items.len() <= u64::MAX ==> note.primary
                == head + " · redacted "@ + decimal(items.len()) + " patterns"@))
        },
{
    reveal_strlit("");
    reveal_strlit("s");
    reveal_strlit(" pattern");
    reveal_strlit(" patterns");
    assert(" pattern"@ + ""@ =~= " pattern"@);
    assert(" pattern"@ + "s"@ =~= " patterns"@);
    let size = crate::notes::transcript_bytes(value);
    let head = "transcript · "@ + bytes_text(size);
    let line = crate::notes::transcript_line(size, crate::notes::redacted_count(value)).primary;
    assert(line.take(head.len() as int) =~= head);
    match crate::notes::redacted_count(value) {
        Some(n) => {
            let tail = if n == 1 {
                ""@
            } else {
                "s"@
            };
            assert(line =~= head + " · redacted "@ + decimal(n as nat) + (" pattern"@ + tail));
        },
        None => {
            assert(line =~= head);
        },
    }
}

}
