//! The wire format between the application and the privileged helper: each
//! message is a 4-byte big-endian length followed by that many bytes of body.
use vstd::prelude::*;

use crate::text::{decimal, fmt_u64, push_str, string_from};

verus! {

/// The largest body that a reader of responses accepts: 16 MiB.
pub const MAX_FRAME_LEN: usize = 16777216;

/// The directory that holds the control sockets of the user `uid`.
pub fn socket_dir_for_uid(uid: u32) -> (r: String)
    ensures
        r@ == "/run/user/"@ + decimal(uid as nat) + "/daim"@,
{
    let mut s = string_from("/run/user/");
    let d = fmt_u64(uid as u64);
    push_str(&mut s, d.as_str());
    push_str(&mut s, "/daim");
    s
}

/// The big-endian bytes of `n`.
pub open spec fn be_bytes(n: nat) -> Seq<u8> {
    seq![
        ((n / 16777216) % 256) as u8,
        ((n / 65536) % 256) as u8,
        ((n / 256) % 256) as u8,
        (n % 256) as u8,
    ]
}

/// The number that four big-endian bytes denote.
pub open spec fn be_value(b: Seq<u8>) -> nat {
    (b[0] as nat) * 16777216 + (b[1] as nat) * 65536 + (b[2] as nat) * 256 + (b[3] as nat)
}

/// The frame that carries `body`: its length, taken modulo 2^32 as a `u32`
/// cast does, in four big-endian bytes, then the body.
pub open spec fn framed(body: Seq<u8>) -> Seq<u8> {
    be_bytes(body.len() % 4294967296) + body
}

proof fn lemma_be_round_trip(n: nat)
    requires
        n < 4294967296,
    ensures
        be_value(be_bytes(n)) == n,
{
    let b0 = (n / 16777216) % 256;
    let b1 = (n / 65536) % 256;
    let b2 = (n / 256) % 256;
    let b3 = n % 256;
    assert(b0 * 16777216 + b1 * 65536 + b2 * 256 + b3 == n) by (nonlinear_arith)
        requires
            n < 4294967296,
            b0 == (n / 16777216) % 256,
            b1 == (n / 65536) % 256,
            b2 == (n / 256) % 256,
            b3 == n % 256,
    ;
}

/// Frames `body` for sending.
pub fn frame(body: &[u8]) -> (out: Vec<u8>)
    ensures
        out@ == framed(body@),
{
    let n: u64 = (body.len() as u64) % 4294967296;
    let mut out: Vec<u8> = Vec::new();
    out.push(((n / 16777216) % 256) as u8);
    out.push(((n / 65536) % 256) as u8);
    out.push(((n / 256) % 256) as u8);
    out.push((n % 256) as u8);
    let mut i: usize = 0;
    while i < body.len()
        invariant
            i <= body@.len(),
            n == body@.len() % 4294967296,
            out@ == be_bytes(n as nat) + body@.take(i as int),
        decreases body@.len() - i,
    {
        out.push(body[i]);
        proof {
            assert(body@.take(i + 1) =~= body@.take(i as int).push(body@[i as int]));
        }
        i += 1;
    }
    proof {
        assert(body@.take(body@.len() as int) =~= body@);
        assert(out@ =~= framed(body@));
    }
    out
}

/// The body length that a frame header announces, or `None` when it is
/// larger than [`MAX_FRAME_LEN`].
pub fn frame_len(header: &[u8]) -> (r: Option<usize>)
    requires
        header@.len() == 4,
    ensures
        be_value(header@) <= MAX_FRAME_LEN ==> r == Some(be_value(header@) as usize),
        be_value(header@) > MAX_FRAME_LEN ==> r is None,
{
    let n: u64 = (header[0] as u64) * 16777216 + (header[1] as u64) * 65536 + (header[2] as u64)
        * 256 + (header[3] as u64);
    if n > MAX_FRAME_LEN as u64 {
        None
    } else {
        Some(n as usize)
    }
}

/// Where the body of a received request lies in the receive buffer, of which
/// the first `nbytes` bytes were filled: from byte 4 up to the announced
/// length or the end of what arrived, whichever comes first. `None` when
/// fewer than 4 bytes arrived.
pub fn received_body_range(buf: &[u8], nbytes: usize) -> (r: Option<(usize, usize)>)
    requires
        nbytes <= buf@.len(),
    ensures
        nbytes < 4 ==> r is None,
        nbytes >= 4 ==> r == Some(
            (
                4usize,
                (if 4 + be_value(buf@.take(4)) <= nbytes {
                    4 + be_value(buf@.take(4))
                } else {
                    nbytes as nat
                }) as usize,
            ),
        ),
{
    if nbytes < 4 {
        return None;
    }
    let n: u64 = (buf[0] as u64) * 16777216 + (buf[1] as u64) * 65536 + (buf[2] as u64) * 256
        + (buf[3] as u64);
    proof {
        assert(buf@.take(4)[0] == buf@[0]);
        assert(buf@.take(4)[1] == buf@[1]);
        assert(buf@.take(4)[2] == buf@[2]);
        assert(buf@.take(4)[3] == buf@[3]);
    }
    let end: usize = if 4 + n <= nbytes as u64 {
        (4 + n) as usize
    } else {
        nbytes
    };
    Some((4, end))
}

/// Law: a frame's header announces the length of its body, and the bytes
/// after the header are the body; so what a reader takes from a frame of a
/// body of at most [`MAX_FRAME_LEN`] bytes is that body.
pub proof fn lemma_frame_round_trip(body: Seq<u8>)
    requires
        body.len() <= MAX_FRAME_LEN,
    ensures
        framed(body).len() == 4 + body.len(),
        be_value(framed(body).take(4)) == body.len(),
        framed(body).subrange(4, 4 + body.len() as int) == body,
{
    let f = framed(body);
    lemma_be_round_trip(body.len());
    assert(f.take(4) =~= be_bytes(body.len()));
    assert(f.subrange(4, 4 + body.len() as int) =~= body);
}

/// Law: when a whole frame arrives in one read, the body range that the
/// helper takes from the receive buffer is exactly the framed body.
pub proof fn lemma_received_frame_is_body(body: Seq<u8>, buf: Seq<u8>, nbytes: nat)
    requires
        body.len() <= MAX_FRAME_LEN,
        nbytes == 4 + body.len(),
        nbytes <= buf.len(),
        buf.take(nbytes as int) == framed(body),
    ensures
        be_value(buf.take(4)) == body.len(),
        buf.subrange(4, 4 + be_value(buf.take(4)) as int) == body,
{
    lemma_frame_round_trip(body);
    assert(buf.take(4) =~= framed(body).take(4));
    assert(buf.subrange(4, 4 + body.len() as int) =~= framed(body).subrange(4, 4 + body.len() as int));
}

} // verus!
