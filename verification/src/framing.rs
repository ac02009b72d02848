//! Message framing shared by the browser's native-messaging protocol and the
//! local pipe: a 4-byte little-endian length, then that many payload bytes.
use vstd::prelude::*;

verus! {

/// Largest message the native-messaging host accepts from the browser.
pub const MAX_MESSAGE: usize = 67108864;

/// Largest request frame the desktop app accepts on its pipe.
pub const MAX_PIPE_FRAME: usize = 16777216;

/// The Windows named pipe on which the desktop app listens.
pub const PIPE_NAME: &'static str = "\\\\.\\pipe\\idmnoads";

/// The number that four bytes denote in little-endian order.
pub open spec fn le_value(b: Seq<u8>) -> nat
    recommends
        b.len() == 4,
{
    (b[0] as nat) + 256 * (b[1] as nat) + 65536 * (b[2] as nat) + 16777216 * (b[3] as nat)
}

/// The four little-endian bytes of `n`.
pub open spec fn le_bytes(n: u32) -> Seq<u8> {
    seq![
        (n % 256) as u8,
        ((n / 256) % 256) as u8,
        ((n / 65536) % 256) as u8,
        ((n / 16777216) % 256) as u8,
    ]
}

/// The length that the header of a frame of `len` payload bytes holds: the
/// length cut to 32 bits, as a cast to `u32` does.
pub open spec fn header_len(len: nat) -> u32 {
    (len % 4294967296) as u32
}

/// The bytes that frame `payload`.
pub open spec fn frame(payload: Seq<u8>) -> Seq<u8> {
    le_bytes(header_len(payload.len())) + payload
}

/// The payload length that a header announces, when it is acceptable: not
/// zero and at most `max`.
pub open spec fn accepted_len(header: Seq<u8>, max: nat) -> Option<nat> {
    let n = le_value(header);
    if 0 < n && n <= max {
        Some(n)
    } else {
        None
    }
}

/// The first message that a reader takes from a stream that holds `stream`:
/// none when the header is incomplete, announces an empty or too long
/// payload, or when the stream ends before the payload does.
pub open spec fn first_message(stream: Seq<u8>, max: nat) -> Option<Seq<u8>> {
    if stream.len() < 4 {
        None
    } else {
        match accepted_len(stream.take(4), max) {
            None => None,
            Some(n) => if stream.len() < 4 + n {
                None
            } else {
                Some(stream.subrange(4, 4 + n as int))
            },
        }
    }
}

/// The payload length announced by a frame header, if it is neither zero nor
/// above `max`.
pub fn frame_length(header: [u8; 4], max: usize) -> (r: Option<usize>)
    ensures
        match accepted_len(header@, max as nat) {
            Some(n) => r == Some(n as usize),
            None => r is None,
        },
{
    let n: u64 = header[0] as u64 + 256 * (header[1] as u64) + 65536 * (header[2] as u64)
        + 16777216 * (header[3] as u64);
    if n == 0 || n > max as u64 {
        None
    } else {
        Some(n as usize)
    }
}

/// The first message in `stream`, read under the length limit `max`.
pub fn decode_frame(stream: &[u8], max: usize) -> (r: Option<Vec<u8>>)
    ensures
        match first_message(stream@, max as nat) {
            Some(m) => r is Some && r->0@ == m,
            None => r is None,
        },
{
    if stream.len() < 4 {
        return None;
    }
    let header: [u8; 4] = [stream[0], stream[1], stream[2], stream[3]];
    assert(header@ =~= stream@.take(4));
    match frame_length(header, max) {
        None => None,
        Some(n) => {
            if stream.len() - 4 < n {
                None
            } else {
                let mut out: Vec<u8> = Vec::new();
                let mut i: usize = 4;
                while i < 4 + n
                    invariant
                        4 <= i <= 4 + n <= stream.len(),
                        out@ == stream@.subrange(4, i as int),
                    decreases 4 + n - i,
                {
                    out.push(stream[i]);
                    assert(stream@.subrange(4, i + 1) =~= stream@.subrange(4, i as int).push(
                        stream@[i as int],
                    ));
                    i = i + 1;
                }
                Some(out)
            }
        },
    }
}

/// The first message that the native-messaging host takes from the
/// browser's stream `stream`.
pub fn read_message(stream: &[u8]) -> (r: Option<Vec<u8>>)
    ensures
        match first_message(stream@, MAX_MESSAGE as nat) {
            Some(m) => r is Some && r->0@ == m,
            None => r is None,
        },
{
    decode_frame(stream, MAX_MESSAGE)
}

fn header_bytes(len: usize) -> (h: Vec<u8>)
    ensures
        h@ == le_bytes(header_len(len as nat)),
{
    let n: u64 = len as u64 % 4294967296;
    let mut h: Vec<u8> = Vec::new();
    h.push((n % 256) as u8);
    h.push(((n / 256) % 256) as u8);
    h.push(((n / 65536) % 256) as u8);
    h.push(((n / 16777216) % 256) as u8);
    assert(h@ =~= le_bytes(header_len(len as nat)));
    h
}

fn framed(payload: &[u8]) -> (out: Vec<u8>)
    ensures
        out@ == frame(payload@),
{
    let mut out = header_bytes(payload.len());
    let ghost h = out@;
    for i in 0..payload.len()
        invariant
            out@ == h + payload@.take(i as int),
    {
        out.push(payload[i]);
        assert(payload@.take(i + 1) =~= payload@.take(i as int).push(payload@[i as int]));
    }
    assert(payload@.take(payload.len() as int) =~= payload@);
    out
}

/// The bytes that send `payload` to the browser: its framed form.
pub fn write_message(payload: &[u8]) -> (out: Vec<u8>)
    ensures
        out@ == frame(payload@),
{
    framed(payload)
}

/// The bytes that forward `payload` to the desktop app over its pipe: the
/// same framing as towards the browser.
pub fn forward_to_app(payload: &[u8]) -> (out: Vec<u8>)
    ensures
        out@ == frame(payload@),
{
    framed(payload)
}

/// The little-endian bytes of a number give that number back.
pub proof fn lemma_le_roundtrip(n: u32)
    ensures
        le_bytes(n).len() == 4,
        le_value(le_bytes(n)) == n,
{
    assert((n % 256) + 256 * ((n / 256) % 256) + 65536 * ((n / 65536) % 256) + 16777216 * ((n
        / 16777216) % 256) == n) by (bit_vector);
}

/// Law: a reader takes back exactly the payload that was framed, whatever
/// follows it on the stream, when the payload is neither empty nor above the
/// limit.
pub proof fn lemma_frame_roundtrip(payload: Seq<u8>, rest: Seq<u8>, max: nat)
    requires
        0 < payload.len() <= max,
        max <= u32::MAX,
    ensures
        first_message(frame(payload) + rest, max) == Some(payload),
{
    let n = header_len(payload.len());
    lemma_le_roundtrip(n);
    let s = frame(payload) + rest;
    assert(s.take(4) =~= le_bytes(n));
    assert(s.subrange(4, 4 + payload.len() as int) =~= payload);
}

/// Law: a frame whose payload is empty or above the limit is refused.
pub proof fn lemma_frame_refused(payload: Seq<u8>, rest: Seq<u8>, max: nat)
    requires
        payload.len() == 0 || payload.len() > max,
        payload.len() <= u32::MAX,
    ensures
        first_message(frame(payload) + rest, max) is None,
{
    let n = header_len(payload.len());
    lemma_le_roundtrip(n);
    let s = frame(payload) + rest;
    assert(s.take(4) =~= le_bytes(n));
}

} // verus!
