use ptywright_repl::args::Framing;
use ptywright_repl::frames::{read_lsp_payload, read_ndjson_line, FrameRead};
use ptywright_repl::transport::frame;

fn message(payload: &str, used: usize) -> FrameRead {
    FrameRead::Frame { payload: payload.to_string(), used }
}

#[test]
fn lsp_frames_leave_what_follows() {
    let first = frame(Framing::Lsp, "{\"a\":\"é\"}");
    let second = frame(Framing::Lsp, "");
    let mut bytes = first.clone().into_bytes();
    bytes.extend_from_slice(second.as_bytes());
    bytes.extend_from_slice(b"rest");
    let read = read_lsp_payload(&bytes, false).expect("first");
    assert_eq!(read, message("{\"a\":\"é\"}", first.len()));
    bytes.drain(..first.len());
    let read = read_lsp_payload(&bytes, false).expect("second");
    assert_eq!(read, message("", second.len()));
    bytes.drain(..second.len());
    assert_eq!(bytes, b"rest");
}

#[test]
fn lsp_frames_may_come_in_pieces() {
    let bytes = b"Content-Type: x\r\ncontent-length: 3\n\nabcdef".to_vec();
    for n in 0..bytes.len() - 3 {
        let read = read_lsp_payload(&bytes[..n].to_vec(), false).expect("piece");
        assert_eq!(read, FrameRead::More);
    }
    for n in bytes.len() - 3..=bytes.len() {
        let read = read_lsp_payload(&bytes[..n].to_vec(), false).expect("frame");
        assert_eq!(read, message("abc", bytes.len() - 3));
    }
}

#[test]
fn lsp_streams_end() {
    let read = |bytes: &[u8]| read_lsp_payload(&bytes.to_vec(), true);
    assert_eq!(read(b"").expect("end"), FrameRead::Closed);
    assert_eq!(read(b"Content-Length: 4\r\n\r\nabc").expect("cut"), FrameRead::CutShort);
    assert_eq!(read(b"Content-Length: 0\r\n\r\n").expect("empty"), message("", 21));
    assert_eq!(
        read(b"Content-Length: 4").unwrap_err().message(),
        "unexpected EOF in LSP headers"
    );
    assert_eq!(
        read(b"\r\n").unwrap_err().message(),
        "LSP frame missing Content-Length header"
    );
}

#[test]
fn bytes_that_are_not_text_are_told() {
    let bytes = b"Content-Length: 2\r\n\r\na\xff".to_vec();
    assert_eq!(
        read_lsp_payload(&bytes, false).unwrap_err().message(),
        "LSP payload is not valid UTF-8: invalid utf-8 sequence of 1 bytes from index 1"
    );
    let bytes = b"Content-\xc3: 2\r\n\r\nab".to_vec();
    assert_eq!(read_lsp_payload(&bytes, false).expect("line"), FrameRead::BadLine);
    assert_eq!(read_ndjson_line(&b"\xed\xa0\x80\n".to_vec(), false), FrameRead::BadLine);
}

#[test]
fn lines_leave_what_follows() {
    let sent = frame(Framing::Ndjson, "{\"é\":1}");
    let mut bytes = sent.clone().into_bytes();
    bytes.extend_from_slice(b"\nrest");
    assert_eq!(read_ndjson_line(&bytes, false), message("{\"é\":1}\n", sent.len()));
    bytes.drain(..sent.len());
    assert_eq!(read_ndjson_line(&bytes, false), message("\n", 1));
    bytes.drain(..1);
    assert_eq!(read_ndjson_line(&bytes, false), FrameRead::More);
    assert_eq!(read_ndjson_line(&bytes, true), message("rest", 4));
    assert_eq!(read_ndjson_line(&Vec::new(), true), FrameRead::Closed);
    assert_eq!(read_ndjson_line(&Vec::new(), false), FrameRead::More);
}
