//! TCP server helpers: HTTP detection and response headers.

use vstd::prelude::*;
use vstd::string::StringExecFns;

verus! {

/// Whether `b` begins with the bytes of `GET ` or `HEAD `.
pub open spec fn http_request_prefix(b: Seq<u8>) -> bool {
    ||| (b.len() >= 4 && b[0] == 0x47u8 && b[1] == 0x45u8 && b[2] == 0x54u8 && b[3] == 0x20u8)
    ||| (b.len() >= 5 && b[0] == 0x48u8 && b[1] == 0x45u8 && b[2] == 0x41u8 && b[3] == 0x44u8 && b[4]
        == 0x20u8)
}

/// True if the peeked bytes begin an HTTP `GET ` or `HEAD ` request (served as audio/wav).
pub fn looks_like_http(peeked: &[u8]) -> (r: bool)
    ensures
        r == http_request_prefix(peeked@),
{
    let n = peeked.len();
    (n >= 4 && peeked[0] == 0x47 && peeked[1] == 0x45 && peeked[2] == 0x54 && peeked[3] == 0x20) || (
    n >= 5 && peeked[0] == 0x48 && peeked[1] == 0x45 && peeked[2] == 0x41 && peeked[3] == 0x44
        && peeked[4] == 0x20)
}

/// The response headers for a live stream of the given content type.
pub open spec fn stream_headers(content_type: Seq<char>) -> Seq<char> {
    "HTTP/1.1 200 OK\r\nContent-Type: "@ + content_type
        + "\r\nTransfer-Encoding: chunked\r\nConnection: keep-alive\r\nCache-Control: no-cache, no-store, must-revalidate\r\nAccess-Control-Allow-Origin: *\r\n\r\n"@
}

/// Builds chunked-transfer HTTP response headers for a live audio stream.
pub fn http_stream_headers(content_type: &str) -> (h: String)
    ensures
        h@ == stream_headers(content_type@),
{
    let mut h = String::from_str("HTTP/1.1 200 OK\r\nContent-Type: ");
    h.append(content_type);
    h.append(
        "\r\nTransfer-Encoding: chunked\r\nConnection: keep-alive\r\nCache-Control: no-cache, no-store, must-revalidate\r\nAccess-Control-Allow-Origin: *\r\n\r\n",
    );
    h
}

} // verus!
