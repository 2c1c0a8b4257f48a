//! Messages in a stream of bytes, which may come in pieces.

use crate::args::Framing;
use crate::error::{Error, ErrorModel};
use crate::text::{
    byte_len, decimal, decimals_are_read_back, encode_concat, text_from_utf8, utf8_error,
};
use crate::transport::{
    framed, framed_messages_are_read_back, header_step, length_line, HeaderStep, LspHeaders,
};
use vstd::prelude::*;
use vstd::utf8::{
    decode_utf8, encode_utf8, encode_utf8_decode_utf8, encode_utf8_valid_utf8,
    is_ascii_chars_encode_utf8, valid_utf8,
};

verus! {

broadcast use vstd::string::group_string_axioms;

/// What the first bytes of a stream are.
#[derive(Debug, PartialEq)]
pub enum FrameRead {
    /// More bytes are needed to tell.
    More,
    /// The stream is over.
    Closed,
    /// A line is not UTF-8.
    BadLine,
    /// The stream is over in the middle of a message.
    CutShort,
    /// A message, which takes the first `used` bytes.
    Frame { payload: String, used: usize },
}

pub enum FrameModel {
    More,
    Closed,
    BadLine,
    CutShort,
    Frame { payload: Seq<char>, used: int },
    Fail(ErrorModel),
}

/// What a reading says.
pub open spec fn frame_model(read: Result<FrameRead, Error>) -> FrameModel {
    match read {
        Ok(FrameRead::More) => FrameModel::More,
        Ok(FrameRead::Closed) => FrameModel::Closed,
        Ok(FrameRead::BadLine) => FrameModel::BadLine,
        Ok(FrameRead::CutShort) => FrameModel::CutShort,
        Ok(FrameRead::Frame { payload, used }) => FrameModel::Frame {
            payload: payload@,
            used: used as int,
        },
        Err(e) => FrameModel::Fail(e@),
    }
}

// ---- lines --------------------------------------------------------------

/// Where the line that starts at `p` ends: behind its line feed, or at the end
/// of the bytes.
pub open spec fn line_end(bytes: Seq<u8>, p: int) -> int
    decreases bytes.len() - p,
{
    if 0 <= p < bytes.len() {
        if bytes[p] == 10 {
            p + 1
        } else {
            line_end(bytes, p + 1)
        }
    } else {
        p
    }
}

/// Whether a line feed ends the line that starts at `p`.
pub open spec fn line_is_whole(bytes: Seq<u8>, p: int) -> bool {
    p < line_end(bytes, p) && bytes[line_end(bytes, p) - 1] == 10
}

/// The line that starts at `p`.
pub open spec fn line_at(bytes: Seq<u8>, p: int) -> Seq<u8> {
    bytes.subrange(p, line_end(bytes, p))
}

proof fn line_end_bounds(bytes: Seq<u8>, p: int)
    requires
        0 <= p <= bytes.len(),
    ensures
        p <= line_end(bytes, p) <= bytes.len(),
        p < bytes.len() ==> p < line_end(bytes, p),
    decreases bytes.len() - p,
{
    if p < bytes.len() && bytes[p] != 10 {
        line_end_bounds(bytes, p + 1);
    }
}

proof fn line_ends_at(bytes: Seq<u8>, p: int, e: int)
    requires
        0 <= p < e <= bytes.len(),
        forall|i: int| p <= i < e - 1 ==> bytes[i] != 10,
        bytes[e - 1] == 10 || e == bytes.len(),
    ensures
        line_end(bytes, p) == e,
    decreases e - p,
{
    if p < e - 1 {
        line_ends_at(bytes, p + 1, e);
    } else if bytes[p] != 10 {
        assert(line_end(bytes, p + 1) == p + 1);
    }
}

/// Where the line that starts at `p` ends.
fn find_line_end(bytes: &Vec<u8>, p: usize) -> (r: usize)
    requires
        p <= bytes@.len(),
    ensures
        r == line_end(bytes@, p as int),
        p <= r <= bytes@.len(),
{
    let mut i: usize = p;
    while i < bytes.len()
        invariant
            p <= i <= bytes@.len(),
            line_end(bytes@, p as int) == line_end(bytes@, i as int),
        decreases bytes@.len() - i,
    {
        if bytes[i] == 10 {
            return i + 1;
        }
        i += 1;
    }
    i
}

fn part(bytes: &Vec<u8>, from: usize, to: usize) -> (r: Vec<u8>)
    requires
        from <= to <= bytes@.len(),
    ensures
        r@ == bytes@.subrange(from as int, to as int),
{
    let mut out: Vec<u8> = Vec::new();
    let mut i: usize = from;
    while i < to
        invariant
            from <= i <= to <= bytes@.len(),
            out@ == bytes@.subrange(from as int, i as int),
        decreases to - i,
    {
        out.push(bytes[i]);
        i += 1;
        assert(out@ =~= bytes@.subrange(from as int, i as int));
    }
    out
}

/// The text that bytes encode, or the reason why they encode none.
fn decoded(bytes: Vec<u8>) -> (r: Result<String, String>)
    ensures
        match r {
            Ok(s) => valid_utf8(bytes@) && s@ == decode_utf8(bytes@),
            Err(message) => !valid_utf8(bytes@) && message@ == utf8_error(bytes@),
        },
{
    match text_from_utf8(bytes) {
        Ok(s) => {
            proof {
                encode_utf8_valid_utf8(s@);
                encode_utf8_decode_utf8(s@);
            }
            Ok(s)
        },
        Err(message) => Err(message),
    }
}

// ---- one message per line -----------------------------------------------

/// What the first bytes of a stream with one message per line are.
pub open spec fn ndjson_read(bytes: Seq<u8>, ended: bool) -> FrameModel {
    if !line_is_whole(bytes, 0) && !ended {
        FrameModel::More
    } else if bytes.len() == 0 {
        FrameModel::Closed
    } else if valid_utf8(line_at(bytes, 0)) {
        FrameModel::Frame { payload: decode_utf8(line_at(bytes, 0)), used: line_end(bytes, 0) }
    } else {
        FrameModel::BadLine
    }
}

/// Reads a line with its line feed. `ended` says that no bytes follow.
pub fn read_ndjson_line(bytes: &Vec<u8>, ended: bool) -> (r: FrameRead)
    ensures
        frame_model(Ok(r)) == ndjson_read(bytes@, ended),
{
    proof {
        line_end_bounds(bytes@, 0);
    }
    let e: usize = find_line_end(bytes, 0);
    if !(e > 0 && bytes[e - 1] == 10) && !ended {
        FrameRead::More
    } else if bytes.len() == 0 {
        FrameRead::Closed
    } else {
        match decoded(part(bytes, 0, e)) {
            Ok(payload) => FrameRead::Frame { payload, used: e },
            Err(_) => FrameRead::BadLine,
        }
    }
}

// ---- messages behind headers --------------------------------------------

/// What a message of `n` bytes that starts at `p` is.
pub open spec fn body_at(bytes: Seq<u8>, p: int, n: int, ended: bool) -> FrameModel {
    let body = bytes.subrange(p, p + n);
    if p + n > bytes.len() {
        if ended {
            FrameModel::CutShort
        } else {
            FrameModel::More
        }
    } else if valid_utf8(body) {
        FrameModel::Frame { payload: decode_utf8(body), used: p + n }
    } else {
        FrameModel::Fail(
            ErrorModel::Rpc("LSP payload is not valid UTF-8: "@ + utf8_error(body)),
        )
    }
}

/// What the bytes of a stream are whose headers go on at `p`, after those that
/// `headers` knows.
pub open spec fn headers_from(
    bytes: Seq<u8>,
    p: int,
    ended: bool,
    headers: LspHeaders,
) -> FrameModel
    decreases bytes.len() - p,
    when 0 <= p <= bytes.len()
    via headers_from_shrinks
{
    if !line_is_whole(bytes, p) && !ended {
        FrameModel::More
    } else if p == bytes.len() {
        match header_step(headers, None).0 {
            Ok(_) => FrameModel::Closed,
            Err(e) => FrameModel::Fail(e),
        }
    } else if !valid_utf8(line_at(bytes, p)) {
        FrameModel::BadLine
    } else {
        let e = line_end(bytes, p);
        let (step, next) = header_step(headers, Some(decode_utf8(line_at(bytes, p))));
        match step {
            Ok(HeaderStep::More) => headers_from(bytes, e, ended, next),
            Ok(HeaderStep::Body(n)) => body_at(bytes, e, n as int, ended),
            Ok(HeaderStep::Closed) => FrameModel::Closed,
            Err(error) => FrameModel::Fail(error),
        }
    }
}

#[via_fn]
proof fn headers_from_shrinks(bytes: Seq<u8>, p: int, ended: bool, headers: LspHeaders) {
    line_end_bounds(bytes, p);
}

/// What is known before the first header.
pub open spec fn no_headers() -> LspHeaders {
    LspHeaders { content_length: None, saw_header: false }
}

/// What the first bytes of a stream with messages behind headers are.
pub open spec fn lsp_read(bytes: Seq<u8>, ended: bool) -> FrameModel {
    headers_from(bytes, 0, ended, no_headers())
}

/// Reads a message and its headers. `ended` says that no bytes follow.
pub fn read_lsp_payload(bytes: &Vec<u8>, ended: bool) -> (r: Result<FrameRead, Error>)
    ensures
        frame_model(r) == lsp_read(bytes@, ended),
{
    let mut headers: LspHeaders = LspHeaders::new();
    let mut p: usize = 0;
    loop
        invariant
            p <= bytes@.len(),
            lsp_read(bytes@, ended) == headers_from(bytes@, p as int, ended, headers),
        decreases bytes@.len() - p,
    {
        proof {
            line_end_bounds(bytes@, p as int);
        }
        let e: usize = find_line_end(bytes, p);
        if !(e > p && bytes[e - 1] == 10) && !ended {
            return Ok(FrameRead::More);
        }
        if p == bytes.len() {
            return match headers.read(None) {
                Ok(_) => Ok(FrameRead::Closed),
                Err(error) => Err(error),
            };
        }
        let line: String = match decoded(part(bytes, p, e)) {
            Ok(line) => line,
            Err(_) => {
                return Ok(FrameRead::BadLine);
            },
        };
        match headers.read(Some(line.as_str())) {
            Ok(HeaderStep::More) => {
                p = e;
            },
            Ok(HeaderStep::Body(n)) => {
                return read_body(bytes, e, n, ended);
            },
            Ok(HeaderStep::Closed) => {
                return Ok(FrameRead::Closed);
            },
            Err(error) => {
                return Err(error);
            },
        }
    }
}

fn read_body(bytes: &Vec<u8>, p: usize, n: usize, ended: bool) -> (r: Result<FrameRead, Error>)
    requires
        p <= bytes@.len(),
    ensures
        frame_model(r) == body_at(bytes@, p as int, n as int, ended),
{
    if n > bytes.len() - p {
        return Ok(if ended { FrameRead::CutShort } else { FrameRead::More });
    }
    match decoded(part(bytes, p, p + n)) {
        Ok(payload) => Ok(FrameRead::Frame { payload, used: p + n }),
        Err(error) => {
            let mut message: String = "LSP payload is not valid UTF-8: ".to_owned();
            message.push_str(error.as_str());
            Err(Error::Rpc(message))
        },
    }
}

// ---- laws ---------------------------------------------------------------

/// A stream that is over needs no more bytes.
pub proof fn ended_streams_need_no_more(bytes: Seq<u8>)
    ensures
        !(lsp_read(bytes, true) is More),
        !(ndjson_read(bytes, true) is More),
{
    ended_headers_need_no_more(bytes, 0, no_headers());
}

proof fn ended_headers_need_no_more(bytes: Seq<u8>, p: int, headers: LspHeaders)
    requires
        0 <= p <= bytes.len(),
    ensures
        !(headers_from(bytes, p, true, headers) is More),
    decreases bytes.len() - p,
{
    line_end_bounds(bytes, p);
    if p < bytes.len() && valid_utf8(line_at(bytes, p)) {
        let (step, next) = header_step(headers, Some(decode_utf8(line_at(bytes, p))));
        if step == Ok::<HeaderStep, ErrorModel>(HeaderStep::More) {
            ended_headers_need_no_more(bytes, line_end(bytes, p), next);
        }
    }
}

/// What the first bytes of a stream are does not depend on what follows: once
/// they are enough, more of them change nothing.
pub proof fn more_bytes_change_nothing(bytes: Seq<u8>, more: Seq<u8>, ended: bool)
    ensures
        !(lsp_read(bytes, false) is More) ==> lsp_read(bytes + more, ended) == lsp_read(
            bytes,
            false,
        ),
        !(ndjson_read(bytes, false) is More) ==> ndjson_read(bytes + more, ended) == ndjson_read(
            bytes,
            false,
        ),
{
    if !(lsp_read(bytes, false) is More) {
        more_bytes_keep_headers(bytes, more, ended, 0, no_headers());
    }
    if !(ndjson_read(bytes, false) is More) {
        more_bytes_keep_lines(bytes, more, 0);
    }
}

proof fn more_bytes_keep_lines(bytes: Seq<u8>, more: Seq<u8>, p: int)
    requires
        0 <= p <= bytes.len(),
        line_is_whole(bytes, p),
    ensures
        line_is_whole(bytes + more, p),
        line_end(bytes + more, p) == line_end(bytes, p),
        line_end(bytes, p) <= bytes.len(),
        line_at(bytes + more, p) == line_at(bytes, p),
    decreases bytes.len() - p,
{
    line_end_bounds(bytes, p);
    if bytes[p] != 10 {
        assert(line_end(bytes, p) == line_end(bytes, p + 1));
        if p + 1 == line_end(bytes, p + 1) {
            line_end_bounds(bytes, p + 1);
        }
        more_bytes_keep_lines(bytes, more, p + 1);
    }
    assert(line_at(bytes + more, p) =~= line_at(bytes, p));
}

proof fn more_bytes_keep_headers(
    bytes: Seq<u8>,
    more: Seq<u8>,
    ended: bool,
    p: int,
    headers: LspHeaders,
)
    requires
        0 <= p <= bytes.len(),
        !(headers_from(bytes, p, false, headers) is More),
    ensures
        headers_from(bytes + more, p, ended, headers) == headers_from(bytes, p, false, headers),
    decreases bytes.len() - p,
{
    line_end_bounds(bytes, p);
    assert(line_is_whole(bytes, p));
    more_bytes_keep_lines(bytes, more, p);
    if valid_utf8(line_at(bytes, p)) {
        let e = line_end(bytes, p);
        let (step, next) = header_step(headers, Some(decode_utf8(line_at(bytes, p))));
        match step {
            Ok(HeaderStep::More) => {
                more_bytes_keep_headers(bytes, more, ended, e, next);
            },
            Ok(HeaderStep::Body(n)) => {
                assert((bytes + more).subrange(e, e + n) =~= bytes.subrange(e, e + n));
            },
            _ => {},
        }
    }
}

/// A message that is framed with a header is read back from the bytes of its
/// frame, whatever follows, and exactly what follows is left.
pub proof fn lsp_frames_are_read_back(payload: Seq<char>, rest: Seq<u8>, ended: bool)
    requires
        byte_len(payload) <= usize::MAX,
    ensures
        ({
            let bytes = encode_utf8(framed(Framing::Lsp, payload));
            &&& lsp_read(bytes + rest, ended) == FrameModel::Frame {
                payload,
                used: bytes.len() as int,
            }
            &&& (bytes + rest).skip(bytes.len() as int) == rest
        }),
{
    let n = byte_len(payload) as nat;
    let line = length_line(n);
    let blank = "\r\n"@;
    let text = framed(Framing::Lsp, payload);
    let bytes = encode_utf8(text);
    let all = bytes + rest;
    framed_messages_are_read_back(payload);
    encode_concat(line + blank, payload);
    encode_concat(line, blank);
    length_line_bytes(n);
    reveal_strlit("\r\n");
    is_ascii_chars_encode_utf8(blank);
    let a = encode_utf8(line);
    let b = encode_utf8(blank);
    let c = encode_utf8(payload);
    assert(bytes =~= a + b + c);
    // The line that gives the length.
    let e = a.len() as int;
    assert forall|i: int| 0 <= i < e - 1 implies all[i] != 10 by {
        assert(all[i] == a[i]);
    }
    assert(all[e - 1] == a[e - 1]);
    line_ends_at(all, 0, e);
    assert(line_at(all, 0) =~= a);
    encode_utf8_valid_utf8(line);
    encode_utf8_decode_utf8(line);
    // The blank line.
    let f = e + 2;
    assert(all[e] == b[0]);
    assert(all[e + 1] == b[1]);
    assert(b[0] == blank[0] as u8);
    assert(b[1] == blank[1] as u8);
    line_ends_at(all, e, f);
    assert(line_at(all, e) =~= b);
    encode_utf8_valid_utf8(blank);
    encode_utf8_decode_utf8(blank);
    // The message.
    assert(all.subrange(f, f + n) =~= c);
    encode_utf8_valid_utf8(payload);
    encode_utf8_decode_utf8(payload);
    let known = LspHeaders { content_length: Some(n as usize), saw_header: true };
    assert(headers_from(all, e, ended, known) == body_at(all, f, n as int, ended));
    assert(headers_from(all, 0, ended, no_headers()) == headers_from(all, e, ended, known));
    assert((bytes + rest).skip(bytes.len() as int) =~= rest);
}

/// The bytes of the line that gives a length: only its last is a line feed.
proof fn length_line_bytes(n: nat)
    ensures
        ({
            let bytes = encode_utf8(length_line(n));
            &&& bytes.len() > 0
            &&& bytes.last() == 10
            &&& forall|i: int| 0 <= i < bytes.len() - 1 ==> bytes[i] != 10
        }),
{
    let line = length_line(n);
    let digits = decimal(n);
    decimals_are_read_back(n);
    reveal_strlit("Content-Length: ");
    reveal_strlit("\r\n");
    let name = "Content-Length: "@;
    assert forall|i: int| 0 <= i < name.len() implies ' ' <= #[trigger] name[i] <= '~' by {
        assert(i == 0 || i == 1 || i == 2 || i == 3 || i == 4 || i == 5 || i == 6 || i == 7 || i
            == 8 || i == 9 || i == 10 || i == 11 || i == 12 || i == 13 || i == 14 || i == 15);
    }
    assert forall|i: int| 0 <= i < line.len() implies '\0' <= #[trigger] line[i] <= '\u{7f}' by {
        if name.len() <= i < name.len() + digits.len() {
            assert(line[i] == digits[i - name.len()]);
        } else if i < name.len() {
            assert(line[i] == name[i]);
            assert(' ' <= name[i] <= '~');
        }
    }
    is_ascii_chars_encode_utf8(line);
    let bytes = encode_utf8(line);
    assert forall|i: int| 0 <= i < bytes.len() - 1 implies bytes[i] != 10 by {
        assert(line[i] as u8 == bytes[i]);
        if name.len() <= i < name.len() + digits.len() {
            assert(line[i] == digits[i - name.len()]);
        } else if i < name.len() {
            assert(line[i] == name[i]);
            assert(' ' <= name[i] <= '~');
        }
    }
    assert(line[line.len() - 1] as u8 == bytes[bytes.len() - 1]);
}

/// Every character but a line feed has bytes that are none.
proof fn other_characters_have_no_line_feed(c: char, i: int)
    requires
        c != '\n',
        0 <= i < vstd::utf8::encode_scalar(c as u32).len(),
    ensures
        vstd::utf8::encode_scalar(c as u32)[i] != 10,
{
    let v = c as u32;
    assert(v != 10);
    assert(v != 10 && v <= 0x7f ==> (v & 0x7f) as u8 != 10) by (bit_vector);
    assert(0xC0u8 | ((v >> 6) & 0x1F) as u8 >= 0x80) by (bit_vector);
    assert(0xE0u8 | ((v >> 12) & 0x0F) as u8 >= 0x80) by (bit_vector);
    assert(0xF0u8 | ((v >> 18) & 0x7) as u8 >= 0x80) by (bit_vector);
    assert(0x80u8 | (v & 0x3F) as u8 >= 0x80) by (bit_vector);
    assert(0x80u8 | ((v >> 6) & 0x3F) as u8 >= 0x80) by (bit_vector);
    assert(0x80u8 | ((v >> 12) & 0x3F) as u8 >= 0x80) by (bit_vector);
}

proof fn lines_have_no_line_feed(s: Seq<char>, i: int)
    requires
        !s.contains('\n'),
        0 <= i < encode_utf8(s).len(),
    ensures
        encode_utf8(s)[i] != 10,
    decreases s.len(),
{
    let first = vstd::utf8::encode_scalar(s[0] as u32);
    let rest = s.drop_first();
    assert(s.contains(s[0]));
    if i < first.len() {
        other_characters_have_no_line_feed(s[0], i);
    } else {
        if rest.contains('\n') {
            let k = rest.index_of('\n');
            assert(s[k + 1] == '\n');
        }
        lines_have_no_line_feed(rest, i - first.len());
    }
}

/// A message without line feeds that is framed as a line is read back from the
/// bytes of its line, whatever follows, and exactly what follows is left.
pub proof fn ndjson_frames_are_read_back(payload: Seq<char>, rest: Seq<u8>, ended: bool)
    requires
        !payload.contains('\n'),
    ensures
        ({
            let bytes = encode_utf8(framed(Framing::Ndjson, payload));
            &&& ndjson_read(bytes + rest, ended) == FrameModel::Frame {
                payload: payload + "\n"@,
                used: bytes.len() as int,
            }
            &&& (bytes + rest).skip(bytes.len() as int) == rest
        }),
{
    let text = framed(Framing::Ndjson, payload);
    let bytes = encode_utf8(text);
    let all = bytes + rest;
    reveal_strlit("\n");
    encode_concat(payload, "\n"@);
    is_ascii_chars_encode_utf8("\n"@);
    let a = encode_utf8(payload);
    let b = encode_utf8("\n"@);
    let e = bytes.len() as int;
    assert(b.len() == 1);
    assert("\n"@[0] as u8 == b[0]);
    assert forall|i: int| 0 <= i < e - 1 implies all[i] != 10 by {
        assert(all[i] == a[i]);
        lines_have_no_line_feed(payload, i);
    }
    assert(all[e - 1] == b[0]);
    line_ends_at(all, 0, e);
    assert(line_at(all, 0) =~= bytes);
    encode_utf8_valid_utf8(text);
    encode_utf8_decode_utf8(text);
    assert((bytes + rest).skip(bytes.len() as int) =~= rest);
}

} // verus!
