//! The framing codec of the worker protocol: one frame is a status tag
//! (normal data or keepalive ping), an ordered list of named binary
//! attachments, and an opaque message payload, laid out over a byte
//! stream with little-endian length prefixes.
//!
//! Decoding is exact and encoding is its inverse: whatever frame
//! `decode_frame` returns, the bytes it consumed are that frame's
//! encoding, and `lemma_codec_round_trip` shows every well-formed
//! encoding decodes back in full. Partial reads are tolerated: a prefix
//! of a frame yields `NeedMore`, never an error, so the reader keeps
//! accumulating.

use vstd::prelude::*;
use vstd::bytes::{spec_u32_from_le_bytes, spec_u32_to_le_bytes, u32_to_le_bytes, u32_from_le_bytes};
use vstd::bytes::lemma_auto_spec_u32_to_from_le_bytes;
use vstd::slice::{slice_subrange, slice_to_vec};

verus! {

/// Status tag of an ordinary data frame.
pub const NORMAL_STATUS: u8 = 1;

/// Status tag of a keepalive ping frame.
pub const PING_STATUS: u8 = 2;

/// The one protocol version this codec speaks.
pub const PROTOCOL_VERSION: u8 = 1;

/// A named binary attachment of a frame.
pub struct Attachment {
    pub name: Vec<u8>,
    pub data: Vec<u8>,
}

/// One unit of the worker protocol.
pub struct Frame {
    pub status: u8,
    pub version: u8,
    pub attachments: Vec<Attachment>,
    pub message: Vec<u8>,
}

pub open spec fn attachment_wf(a: Attachment) -> bool {
    &&& a.name@.len() <= 0xFFFF_FFFF
    &&& a.data@.len() <= 0xFFFF_FFFF
}

/// The machine bounds encoding needs: every length fits a `u32`.
pub open spec fn frame_wf(f: Frame) -> bool {
    &&& f.attachments@.len() <= 0xFFFF_FFFF
    &&& f.message@.len() <= 0xFFFF_FFFF
    &&& forall|i: int| 0 <= i < f.attachments@.len() ==> attachment_wf(#[trigger] f.attachments@[i])
}

/// The wire form of one attachment: length-prefixed name, then
/// length-prefixed data.
pub open spec fn spec_attachment_bytes(a: Attachment) -> Seq<u8> {
    spec_u32_to_le_bytes(a.name@.len() as u32) + a.name@ + spec_u32_to_le_bytes(
        a.data@.len() as u32,
    ) + a.data@
}

/// The wire form of an attachment list, in order.
pub open spec fn spec_attachments_bytes(ats: Seq<Attachment>) -> Seq<u8>
    decreases ats.len(),
{
    if ats.len() == 0 {
        Seq::empty()
    } else {
        spec_attachments_bytes(ats.drop_last()) + spec_attachment_bytes(ats.last())
    }
}

/// The wire form of a whole frame: status, version, attachment count,
/// the attachments, then the length-prefixed message payload.
pub open spec fn spec_frame_bytes(f: Frame) -> Seq<u8> {
    seq![f.status, f.version] + spec_u32_to_le_bytes(f.attachments@.len() as u32)
        + spec_attachments_bytes(f.attachments@) + spec_u32_to_le_bytes(f.message@.len() as u32)
        + f.message@
}

/// The keepalive unit: ping status, no attachments, empty payload.
pub fn ping_frame() -> (f: Frame)
    ensures
        f.status == PING_STATUS,
        f.version == PROTOCOL_VERSION,
        f.attachments@.len() == 0,
        f.message@.len() == 0,
        frame_wf(f),
{
    Frame { status: PING_STATUS, version: PROTOCOL_VERSION, attachments: Vec::new(), message: Vec::new() }
}

fn append_bytes(dst: &mut Vec<u8>, src: &[u8])
    ensures
        final(dst)@ == old(dst)@ + src@,
{
    let n = src.len();
    let mut i: usize = 0;
    while i < n
        invariant
            0 <= i <= n,
            n == src@.len(),
            dst@ == old(dst)@ + src@.take(i as int),
        decreases n - i,
    {
        let b = *vstd::slice::slice_index_get(src, i);
        dst.push(b);
        proof {
            assert(dst@ =~= old(dst)@ + src@.take(i as int + 1));
        }
        i = i + 1;
    }
    proof {
        assert(src@.take(n as int) =~= src@);
        assert(dst@ =~= old(dst)@ + src@);
    }
}

fn append_u32(dst: &mut Vec<u8>, x: u32)
    ensures
        final(dst)@ == old(dst)@ + spec_u32_to_le_bytes(x),
{
    let quad = u32_to_le_bytes(x);
    append_bytes(dst, quad.as_slice());
}

/// Serializes a frame to its wire form.
pub fn encode_frame(f: &Frame) -> (r: Vec<u8>)
    requires
        frame_wf(*f),
    ensures
        r@ == spec_frame_bytes(*f),
{
    let mut out: Vec<u8> = Vec::new();
    out.push(f.status);
    out.push(f.version);
    proof {
        assert(out@ =~= seq![f.status, f.version]);
    }
    append_u32(&mut out, f.attachments.len() as u32);
    let ghost header = out@;
    let n = f.attachments.len();
    let mut k: usize = 0;
    while k < n
        invariant
            0 <= k <= n,
            n == f.attachments@.len(),
            frame_wf(*f),
            out@ == header + spec_attachments_bytes(f.attachments@.take(k as int)),
        decreases n - k,
    {
        let a = &f.attachments[k];
        append_u32(&mut out, a.name.len() as u32);
        append_bytes(&mut out, a.name.as_slice());
        append_u32(&mut out, a.data.len() as u32);
        append_bytes(&mut out, a.data.as_slice());
        proof {
            let t = f.attachments@.take(k as int + 1);
            assert(t.drop_last() =~= f.attachments@.take(k as int));
            assert(t.last() == f.attachments@[k as int]);
            assert(out@ =~= header + spec_attachments_bytes(t));
        }
        k = k + 1;
    }
    proof {
        assert(f.attachments@.take(n as int) =~= f.attachments@);
    }
    append_u32(&mut out, f.message.len() as u32);
    append_bytes(&mut out, f.message.as_slice());
    proof {
        assert(out@ =~= spec_frame_bytes(*f));
    }
    out
}

/// The name/data byte pairs of an attachment sequence.
pub open spec fn att_pairs(ats: Seq<Attachment>) -> Seq<(Seq<u8>, Seq<u8>)> {
    ats.map_values(|a: Attachment| (a.name@, a.data@))
}

/// The length read from four little-endian bytes at `i`.
pub open spec fn parse_u32_at(buf: Seq<u8>, i: int) -> int {
    spec_u32_from_le_bytes(buf.subrange(i, i + 4)) as int
}

/// Parses `n` length-prefixed attachments starting at `cur`: the pairs
/// and the position after them, or nothing when the buffer ends first.
pub open spec fn parse_atts(buf: Seq<u8>, cur: int, n: nat) -> Option<
    (Seq<(Seq<u8>, Seq<u8>)>, int),
>
    decreases n,
{
    if n == 0 {
        Some((Seq::empty(), cur))
    } else if buf.len() - cur < 4 {
        None
    } else {
        let nl = parse_u32_at(buf, cur);
        let p1 = cur + 4;
        if buf.len() - p1 < nl {
            None
        } else {
            let name = buf.subrange(p1, p1 + nl);
            let p2 = p1 + nl;
            if buf.len() - p2 < 4 {
                None
            } else {
                let dl = parse_u32_at(buf, p2);
                let p3 = p2 + 4;
                if buf.len() - p3 < dl {
                    None
                } else {
                    let data = buf.subrange(p3, p3 + dl);
                    let p4 = p3 + dl;
                    match parse_atts(buf, p4, (n - 1) as nat) {
                        None => None,
                        Some(p) => Some((seq![(name, data)] + p.0, p.1)),
                    }
                }
            }
        }
    }
}

/// Whether the first bytes cannot begin a frame: an unknown status
/// tag, or a known one followed by a wrong protocol version.
pub open spec fn spec_header_corrupt(buf: Seq<u8>) -> bool {
    ||| (buf.len() >= 1 && !(buf[0] == NORMAL_STATUS || buf[0] == PING_STATUS))
    ||| (buf.len() >= 2 && (buf[0] == NORMAL_STATUS || buf[0] == PING_STATUS) && buf[1]
        != PROTOCOL_VERSION)
}

/// Where the first complete frame of the buffer ends, if one is there:
/// the exact number of bytes `decode_frame` consumes.
pub open spec fn spec_frame_end(buf: Seq<u8>) -> Option<int> {
    if buf.len() < 6 || !(buf[0] == NORMAL_STATUS || buf[0] == PING_STATUS) || buf[1]
        != PROTOCOL_VERSION {
        None
    } else {
        let n = parse_u32_at(buf, 2);
        match parse_atts(buf, 6, n as nat) {
            None => None,
            Some(p) => {
                let cur = p.1;
                if buf.len() - cur < 4 {
                    None
                } else {
                    let ml = parse_u32_at(buf, cur);
                    if buf.len() - cur - 4 < ml {
                        None
                    } else {
                        Some(cur + 4 + ml)
                    }
                }
            },
        }
    }
}

/// What one decode attempt on a byte prefix can yield.
pub enum DecodeOutcome {
    /// The buffer holds no complete frame yet; read further and retry.
    NeedMore,
    /// The buffer cannot begin a frame of this protocol; the stream is
    /// presumed corrupted and the connection torn down.
    Corrupt,
    /// A complete frame, and how many bytes of the buffer it took.
    Decoded(Frame, usize),
}

/// Reads one frame off the front of `buf`.
///
/// The contract is exact: a `Decoded(f, used)` answer means the first
/// `used` bytes of `buf` are exactly `f`'s encoding and `used` is where
/// `spec_frame_end` says the first complete frame ends; `Corrupt`
/// comes exactly on a bad status tag or protocol version; `NeedMore`
/// comes exactly when the header is sound but no complete frame is in
/// the buffer yet, so the reader keeps accumulating.
#[verifier::loop_isolation(false)]
pub fn decode_frame(buf: &[u8]) -> (r: DecodeOutcome)
    ensures
        match r {
            DecodeOutcome::Decoded(f, used) => {
                &&& frame_wf(f)
                &&& used <= buf@.len()
                &&& buf@.subrange(0, used as int) == spec_frame_bytes(f)
                &&& (f.status == NORMAL_STATUS || f.status == PING_STATUS)
                &&& f.version == PROTOCOL_VERSION
                &&& spec_frame_end(buf@) == Some(used as int)
            },
            DecodeOutcome::Corrupt => spec_header_corrupt(buf@),
            DecodeOutcome::NeedMore => !spec_header_corrupt(buf@) && spec_frame_end(buf@)
                is None,
        },
{
    proof {
        lemma_auto_spec_u32_to_from_le_bytes();
    }
    let len = buf.len();
    if len < 1 {
        return DecodeOutcome::NeedMore;
    }
    let status = *vstd::slice::slice_index_get(buf, 0);
    if !(status == NORMAL_STATUS || status == PING_STATUS) {
        return DecodeOutcome::Corrupt;
    }
    if len < 2 {
        return DecodeOutcome::NeedMore;
    }
    let version = *vstd::slice::slice_index_get(buf, 1);
    if version != PROTOCOL_VERSION {
        return DecodeOutcome::Corrupt;
    }
    if len - 2 < 4 {
        return DecodeOutcome::NeedMore;
    }
    let count_bytes = slice_subrange(buf, 2, 6);
    let count = u32_from_le_bytes(count_bytes);
    proof {
        assert(spec_u32_to_le_bytes(count) == buf@.subrange(2, 6));
        assert(parse_u32_at(buf@, 2) == count as int);
    }
    let mut cur: usize = 6;
    let n = count as usize;
    let mut attachments: Vec<Attachment> = Vec::new();
    let mut k: usize = 0;
    proof {
        assert(att_pairs(attachments@) =~~= Seq::<(Seq<u8>, Seq<u8>)>::empty());
        let pa = parse_atts(buf@, 6, count as nat);
        if pa is Some {
            assert(att_pairs(attachments@) + (pa->0).0 =~~= (pa->0).0);
        }
    }
    while k < n
        invariant
            0 <= k <= n,
            6 <= cur <= buf@.len(),
            attachments@.len() == k,
            forall|i: int|
                0 <= i < attachments@.len() ==> attachment_wf(#[trigger] attachments@[i]),
            spec_attachments_bytes(attachments@) == buf@.subrange(6, cur as int),
            match parse_atts(buf@, cur as int, (n - k) as nat) {
                None => parse_atts(buf@, 6, count as nat) is None,
                Some(p) => parse_atts(buf@, 6, count as nat) == Some(
                    (att_pairs(attachments@) + p.0, p.1),
                ),
            },
        decreases n - k,
    {
        let ghost pre_ats = attachments@;
        let ghost att_start = cur as int;
        let ghost m = (n - k) as nat;
        if len - cur < 4 {
            proof {
                assert(parse_atts(buf@, att_start, m) is None);
            }
            return DecodeOutcome::NeedMore;
        }
        let name_len_bytes = slice_subrange(buf, cur, cur + 4);
        let name_len = u32_from_le_bytes(name_len_bytes) as usize;
        let ghost name_len_pos = cur as int;
        proof {
            assert(parse_u32_at(buf@, att_start) == name_len as int);
        }
        cur = cur + 4;
        if len - cur < name_len {
            proof {
                assert(parse_atts(buf@, att_start, m) is None);
            }
            return DecodeOutcome::NeedMore;
        }
        let name = slice_to_vec(slice_subrange(buf, cur, cur + name_len));
        let ghost name_pos = cur as int;
        cur = cur + name_len;
        if len - cur < 4 {
            proof {
                assert(parse_atts(buf@, att_start, m) is None);
            }
            return DecodeOutcome::NeedMore;
        }
        let data_len_bytes = slice_subrange(buf, cur, cur + 4);
        let data_len = u32_from_le_bytes(data_len_bytes) as usize;
        let ghost data_len_pos = cur as int;
        proof {
            assert(parse_u32_at(buf@, data_len_pos) == data_len as int);
        }
        cur = cur + 4;
        if len - cur < data_len {
            proof {
                assert(parse_atts(buf@, att_start, m) is None);
            }
            return DecodeOutcome::NeedMore;
        }
        let data = slice_to_vec(slice_subrange(buf, cur, cur + data_len));
        let ghost data_pos = cur as int;
        cur = cur + data_len;
        let a = Attachment { name, data };
        attachments.push(a);
        proof {
            let a2 = attachments@.last();
            assert(spec_u32_to_le_bytes(a2.name@.len() as u32) == buf@.subrange(
                name_len_pos,
                name_len_pos + 4,
            ));
            assert(a2.name@ == buf@.subrange(name_pos, name_pos + name_len as int));
            assert(spec_u32_to_le_bytes(a2.data@.len() as u32) == buf@.subrange(
                data_len_pos,
                data_len_pos + 4,
            ));
            assert(a2.data@ == buf@.subrange(data_pos, data_pos + data_len as int));
            assert(spec_attachment_bytes(a2) =~= buf@.subrange(att_start, cur as int));
            assert(attachments@.drop_last() =~= pre_ats);
            assert(spec_attachments_bytes(attachments@) =~= buf@.subrange(6, cur as int));
            // one spec parse step covers exactly this attachment
            let pair = (a2.name@, a2.data@);
            let inner = parse_atts(buf@, cur as int, (m - 1) as nat);
            assert(parse_atts(buf@, att_start, m) == match inner {
                None => None::<(Seq<(Seq<u8>, Seq<u8>)>, int)>,
                Some(p) => Some((seq![pair] + p.0, p.1)),
            });
            if inner is Some {
                let p = inner->0;
                assert(att_pairs(attachments@) =~~= att_pairs(pre_ats).push(pair));
                assert(att_pairs(pre_ats) + (seq![pair] + p.0) =~~= att_pairs(attachments@)
                    + p.0);
            }
        }
        k = k + 1;
    }
    proof {
        assert(parse_atts(buf@, cur as int, 0) == Some(
            (Seq::<(Seq<u8>, Seq<u8>)>::empty(), cur as int),
        ));
        assert(att_pairs(attachments@) + Seq::<(Seq<u8>, Seq<u8>)>::empty() =~~= att_pairs(
            attachments@,
        ));
        assert(parse_atts(buf@, 6, count as nat) == Some((att_pairs(attachments@), cur as int)));
    }
    if len - cur < 4 {
        return DecodeOutcome::NeedMore;
    }
    let msg_len_bytes = slice_subrange(buf, cur, cur + 4);
    let msg_len = u32_from_le_bytes(msg_len_bytes) as usize;
    let ghost msg_len_pos = cur as int;
    proof {
        assert(parse_u32_at(buf@, msg_len_pos) == msg_len as int);
    }
    cur = cur + 4;
    if len - cur < msg_len {
        return DecodeOutcome::NeedMore;
    }
    let message = slice_to_vec(slice_subrange(buf, cur, cur + msg_len));
    let ghost msg_pos = cur as int;
    cur = cur + msg_len;
    let f = Frame { status, version, attachments, message };
    proof {
        assert(spec_u32_to_le_bytes(f.message@.len() as u32) == buf@.subrange(
            msg_len_pos,
            msg_len_pos + 4,
        ));
        assert(f.message@ == buf@.subrange(msg_pos, msg_pos + msg_len as int));
        assert(spec_u32_to_le_bytes(f.attachments@.len() as u32) == buf@.subrange(2, 6));
        assert(seq![f.status, f.version] =~= buf@.subrange(0, 2));
        assert(buf@.subrange(0, cur as int) =~= spec_frame_bytes(f));
        assert(spec_frame_end(buf@) == Some(cur as int));
    }
    DecodeOutcome::Decoded(f, cur)
}

proof fn lemma_atts_bytes_first(ats: Seq<Attachment>)
    requires
        ats.len() > 0,
    ensures
        spec_attachments_bytes(ats) == spec_attachment_bytes(ats[0]) + spec_attachments_bytes(
            ats.skip(1),
        ),
    decreases ats.len(),
{
    if ats.len() == 1 {
        assert(ats.drop_last().len() == 0);
        assert(ats.skip(1).len() == 0);
        assert(ats.last() == ats[0]);
        assert(spec_attachments_bytes(ats.drop_last()) == Seq::<u8>::empty());
        assert(spec_attachments_bytes(ats.skip(1)) == Seq::<u8>::empty());
        assert(spec_attachments_bytes(ats) =~= spec_attachment_bytes(ats[0])
            + spec_attachments_bytes(ats.skip(1)));
    } else {
        let front = ats.drop_last();
        lemma_atts_bytes_first(front);
        assert(front[0] == ats[0]);
        assert(ats.skip(1).drop_last() =~= front.skip(1));
        assert(ats.skip(1).last() == ats.last());
        assert(ats.skip(1).len() > 0);
        assert(spec_attachments_bytes(ats.skip(1)) == spec_attachments_bytes(
            ats.skip(1).drop_last(),
        ) + spec_attachment_bytes(ats.skip(1).last()));
        assert(spec_attachments_bytes(ats) =~= spec_attachment_bytes(ats[0])
            + spec_attachments_bytes(ats.skip(1)));
    }
}

proof fn lemma_parse_atts_encoding(buf: Seq<u8>, cur: int, ats: Seq<Attachment>)
    requires
        0 <= cur,
        cur + spec_attachments_bytes(ats).len() <= buf.len(),
        buf.subrange(cur, cur + spec_attachments_bytes(ats).len()) == spec_attachments_bytes(ats),
        forall|i: int| 0 <= i < ats.len() ==> attachment_wf(#[trigger] ats[i]),
    ensures
        parse_atts(buf, cur, ats.len()) == Some(
            (att_pairs(ats), cur + spec_attachments_bytes(ats).len()),
        ),
    decreases ats.len(),
{
    vstd::bytes::lemma_auto_spec_u32_to_from_le_bytes();
    if ats.len() == 0 {
        assert(att_pairs(ats) =~~= Seq::<(Seq<u8>, Seq<u8>)>::empty());
        assert(spec_attachments_bytes(ats).len() == 0);
    } else {
        let a = ats[0];
        let rest = ats.skip(1);
        lemma_atts_bytes_first(ats);
        let sa = spec_attachment_bytes(a);
        let sr = spec_attachments_bytes(rest);
        let nl = a.name@.len() as int;
        let dl = a.data@.len() as int;
        assert(sa.len() == 4 + nl + 4 + dl);
        let block = spec_attachments_bytes(ats);
        assert(block.len() == sa.len() + sr.len());
        assert forall|i: int| 0 <= i < block.len() implies buf[cur + i] == block[i] by {
            assert(block[i] == buf.subrange(cur, cur + block.len() as int)[i]);
        }
        assert forall|i: int| 0 <= i < sa.len() implies block[i] == sa[i] by {
            assert(block[i] == (sa + sr)[i]);
        }
        // the four pieces of the first attachment stand at their offsets
        let u32n = spec_u32_to_le_bytes(a.name@.len() as u32);
        let u32d = spec_u32_to_le_bytes(a.data@.len() as u32);
        let t1 = u32n + a.name@;
        let t2 = t1 + u32d;
        let t3 = t2 + a.data@;
        assert(sa == t3);
        assert forall|i: int| 0 <= i < sa.len() implies sa[i] == (if i < 4 {
            u32n[i]
        } else if i < 4 + nl {
            a.name@[i - 4]
        } else if i < 8 + nl {
            u32d[i - 4 - nl]
        } else {
            a.data@[i - 8 - nl]
        }) by {
            assert(t3[i] == if i < t2.len() {
                t2[i]
            } else {
                a.data@[i - t2.len()]
            });
            if i < t2.len() {
                assert(t2[i] == if i < t1.len() {
                    t1[i]
                } else {
                    u32d[i - t1.len()]
                });
                if i < t1.len() {
                    assert(t1[i] == if i < 4 {
                        u32n[i]
                    } else {
                        a.name@[i - 4]
                    });
                }
            }
        }
        assert forall|i: int| 0 <= i < 4 implies buf.subrange(cur, cur + 4)[i] == u32n[i] by {
            assert(buf[cur + i] == block[i]);
            assert(block[i] == sa[i]);
        }
        assert(buf.subrange(cur, cur + 4) =~= u32n);
        assert(parse_u32_at(buf, cur) == nl);
        assert forall|i: int|
            0 <= i < nl implies buf.subrange(cur + 4, cur + 4 + nl)[i] == a.name@[i] by {
            let j = 4 + i;
            assert(buf[cur + j] == block[j]);
            assert(block[j] == sa[j]);
        }
        assert(buf.subrange(cur + 4, cur + 4 + nl) =~= a.name@);
        assert forall|i: int|
            0 <= i < 4 implies buf.subrange(cur + 4 + nl, cur + 8 + nl)[i] == u32d[i] by {
            let j = 4 + nl + i;
            assert(buf[cur + j] == block[j]);
            assert(block[j] == sa[j]);
        }
        assert(buf.subrange(cur + 4 + nl, cur + 8 + nl) =~= u32d);
        assert(parse_u32_at(buf, cur + 4 + nl) == dl);
        assert forall|i: int|
            0 <= i < dl implies buf.subrange(cur + 8 + nl, cur + 8 + nl + dl)[i] == a.data@[i] by {
            let j = 8 + nl + i;
            assert(buf[cur + j] == block[j]);
            assert(block[j] == sa[j]);
        }
        assert(buf.subrange(cur + 8 + nl, cur + 8 + nl + dl) =~= a.data@);
        let p4 = cur + sa.len() as int;
        assert forall|i: int| 0 <= i < sr.len() implies buf.subrange(
            p4,
            p4 + sr.len() as int,
        )[i] == sr[i] by {
            let j = sa.len() as int + i;
            assert(buf[cur + j] == block[j]);
            assert(block[j] == (sa + sr)[j]);
        }
        assert(buf.subrange(p4, p4 + sr.len() as int) =~= sr);
        assert(forall|i: int| 0 <= i < rest.len() ==> rest[i] == ats[i + 1]);
        lemma_parse_atts_encoding(buf, p4, rest);
        let pair = (a.name@, a.data@);
        assert(parse_atts(buf, cur, ats.len()) == Some(
            (seq![pair] + att_pairs(rest), p4 + sr.len()),
        ));
        assert(seq![pair] + att_pairs(rest) =~~= att_pairs(ats));
    }
}

/// Encoding and decoding are inverse: the wire form of a well-formed
/// frame, however many further stream bytes follow it, decodes as one
/// complete frame that consumes exactly the encoding — together with
/// `decode_frame`'s contract, the consumed bytes re-encode to the very
/// frame handed back.
pub proof fn lemma_codec_round_trip(f: Frame, rest: Seq<u8>)
    requires
        frame_wf(f),
        f.status == NORMAL_STATUS || f.status == PING_STATUS,
        f.version == PROTOCOL_VERSION,
    ensures
        !spec_header_corrupt(spec_frame_bytes(f) + rest),
        spec_frame_end(spec_frame_bytes(f) + rest) == Some(spec_frame_bytes(f).len() as int),
{
    vstd::bytes::lemma_auto_spec_u32_to_from_le_bytes();
    let enc = spec_frame_bytes(f);
    let buf = enc + rest;
    let sab = spec_attachments_bytes(f.attachments@);
    let ml = f.message@.len() as int;
    assert(enc.len() == 10 + sab.len() + ml);
    assert(buf[0] == f.status);
    assert(buf[1] == f.version);
    assert(buf.subrange(2, 6) =~= spec_u32_to_le_bytes(f.attachments@.len() as u32));
    assert(parse_u32_at(buf, 2) == f.attachments@.len() as int);
    assert(buf.subrange(6, 6 + sab.len() as int) =~= sab);
    lemma_parse_atts_encoding(buf, 6, f.attachments@);
    let cur: int = 6 + sab.len() as int;
    assert(buf.subrange(cur, cur + 4) =~= spec_u32_to_le_bytes(f.message@.len() as u32));
    assert(parse_u32_at(buf, cur) == ml);
    assert(buf.len() - cur - 4 >= ml);
    assert(spec_frame_end(buf) == Some(cur + 4 + ml));
}

} // verus!
