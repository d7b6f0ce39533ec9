//! The reference inbound handler: a decoder that assembles frames whose first
//! four bytes carry the payload length, big-endian. Raw read chunks are
//! accumulated; every complete frame in the accumulation is emitted, in order,
//! and the incomplete remainder is kept for the next chunk.

use vstd::prelude::*;
use vstd::arithmetic::div_mod::lemma_fundamental_div_mod;

use crate::bytebuf::be32;
use crate::bytebuf::ByteBuf;
use crate::errors::ErrorCategory;
use crate::errors::RettyErrorKind;
use crate::pipeline::Message;

verus! {

/// `s` starts with a complete frame: a 4-byte length prefix and that many
/// payload bytes after it.
pub open spec fn has_complete_frame(s: Seq<u8>) -> bool {
    s.len() >= 4 && s.len() >= 4 + be32(s)
}

/// The payloads of every complete frame at the front of `s`, in order.
pub open spec fn decoded_frames(s: Seq<u8>) -> Seq<Seq<u8>>
    decreases s.len(),
{
    if has_complete_frame(s) {
        seq![s.subrange(4, 4 + be32(s))] + decoded_frames(s.skip(4 + be32(s)))
    } else {
        Seq::empty()
    }
}

/// What is left of `s` after every complete frame at the front is removed.
pub open spec fn decoded_rest(s: Seq<u8>) -> Seq<u8>
    decreases s.len(),
{
    if has_complete_frame(s) {
        decoded_rest(s.skip(4 + be32(s)))
    } else {
        s
    }
}

/// The four big-endian bytes of `n`.
pub open spec fn len32(n: u32) -> Seq<u8> {
    let m = n as int;
    let b0 = m / 0x100_0000;
    let r0 = m % 0x100_0000;
    let b1 = r0 / 0x1_0000;
    let r1 = r0 % 0x1_0000;
    let b2 = r1 / 0x100;
    let b3 = r1 % 0x100;
    seq![b0 as u8, b1 as u8, b2 as u8, b3 as u8]
}

/// A payload on the wire: its length prefix, then the payload itself.
pub open spec fn encoded_frame(p: Seq<u8>) -> Seq<u8> {
    len32(p.len() as u32) + p
}

/// The byte stream that carries the payloads `ps` in order.
pub open spec fn encode_all(ps: Seq<Seq<u8>>) -> Seq<u8>
    decreases ps.len(),
{
    if ps.len() == 0 {
        Seq::empty()
    } else {
        encoded_frame(ps[0]) + encode_all(ps.skip(1))
    }
}

/// One byte stream out of many chunks.
pub open spec fn concat_chunks(chunks: Seq<Seq<u8>>) -> Seq<u8>
    decreases chunks.len(),
{
    if chunks.len() == 0 {
        Seq::empty()
    } else {
        chunks[0] + concat_chunks(chunks.skip(1))
    }
}

/// Every payload the decoder emits when the chunks arrive one at a time,
/// `pending` being the bytes already accumulated: each step emits the complete
/// frames of the accumulation and keeps the rest, as `channel_read` does.
pub open spec fn feed_all(pending: Seq<u8>, chunks: Seq<Seq<u8>>) -> Seq<Seq<u8>>
    decreases chunks.len(),
{
    if chunks.len() == 0 {
        Seq::empty()
    } else {
        decoded_frames(pending + chunks[0]) + feed_all(
            decoded_rest(pending + chunks[0]),
            chunks.skip(1),
        )
    }
}

/// The remainder never holds a complete frame, so it decodes to nothing.
pub proof fn lemma_rest_no_frame(s: Seq<u8>)
    ensures
        !has_complete_frame(decoded_rest(s)),
        decoded_frames(decoded_rest(s)) == Seq::<Seq<u8>>::empty(),
    decreases s.len(),
{
    if has_complete_frame(s) {
        lemma_rest_no_frame(s.skip(4 + be32(s)));
    }
}

/// The decoder is incremental: decoding `s` and then carrying the remainder
/// into `t` finds exactly the frames of `s + t`.
pub proof fn lemma_decode_append(s: Seq<u8>, t: Seq<u8>)
    ensures
        decoded_frames(s + t) == decoded_frames(s) + decoded_frames(decoded_rest(s) + t),
        decoded_rest(s + t) == decoded_rest(decoded_rest(s) + t),
    decreases s.len(),
{
    if !has_complete_frame(s) {
        assert(decoded_rest(s) + t =~= s + t);
        assert(decoded_frames(s) + decoded_frames(decoded_rest(s) + t) =~= decoded_frames(
            s + t,
        ));
    } else {
        let k = 4 + be32(s);
        assert((s + t)[0] == s[0] && (s + t)[1] == s[1] && (s + t)[2] == s[2] && (s + t)[3]
            == s[3]);
        assert(be32(s + t) == be32(s));
        assert(has_complete_frame(s + t));
        assert((s + t).subrange(4, k) =~= s.subrange(4, k));
        assert((s + t).skip(k) =~= s.skip(k) + t);
        lemma_decode_append(s.skip(k), t);
        assert(decoded_frames(s + t) =~= decoded_frames(s) + decoded_frames(
            decoded_rest(s) + t,
        ));
    }
}

/// The length prefix reads back as the length it was written from.
pub proof fn lemma_be32_len32(n: u32)
    ensures
        be32(len32(n)) == n,
        len32(n).len() == 4,
{
    let m = n as int;
    let b0 = m / 0x100_0000;
    let r0 = m % 0x100_0000;
    let b1 = r0 / 0x1_0000;
    let r1 = r0 % 0x1_0000;
    let b2 = r1 / 0x100;
    let b3 = r1 % 0x100;
    lemma_fundamental_div_mod(m, 0x100_0000);
    lemma_fundamental_div_mod(r0, 0x1_0000);
    lemma_fundamental_div_mod(r1, 0x100);
    assert(0 <= r0 < 0x100_0000);
    assert(0 <= r1 < 0x1_0000);
    assert(0 <= b3 < 0x100);
    assert(0 <= b2 < 0x100);
    assert(0 <= b1 < 0x100);
    assert(0 <= b0 < 0x100) by {
        if b0 >= 0x100 {
            assert(m == 0x100_0000 * b0 + r0);
            assert(0x100_0000 * b0 >= 0x100_0000 * 0x100) by (nonlinear_arith)
                requires
                    b0 >= 0x100,
            ;
        }
        if b0 < 0 {
            assert(m == 0x100_0000 * b0 + r0);
            assert(0x100_0000 * b0 <= 0x100_0000 * -1) by (nonlinear_arith)
                requires
                    b0 <= -1,
            ;
        }
    }
    assert(be32(len32(n)) == b0 * 0x100_0000 + b1 * 0x1_0000 + b2 * 0x100 + b3);
    assert(m == 0x100_0000 * b0 + 0x1_0000 * b1 + 0x100 * b2 + b3);
}

/// Decoding a stream that starts with one whole encoded frame finds that
/// frame first and goes on behind it.
proof fn lemma_decode_one_frame(p: Seq<u8>, rest: Seq<u8>)
    requires
        p.len() < 0x1_0000_0000,
    ensures
        decoded_frames(encoded_frame(p) + rest) == seq![p] + decoded_frames(rest),
        decoded_rest(encoded_frame(p) + rest) == decoded_rest(rest),
{
    let n = p.len() as u32;
    let s = encoded_frame(p) + rest;
    lemma_be32_len32(n);
    assert(s[0] == len32(n)[0] && s[1] == len32(n)[1] && s[2] == len32(n)[2] && s[3]
        == len32(n)[3]);
    assert(be32(s) == be32(len32(n)));
    assert(s.len() == 4 + p.len() + rest.len());
    assert(has_complete_frame(s));
    let k = 4 + be32(s);
    assert(k == 4 + p.len());
    assert(s.subrange(4, k) =~= p);
    assert(s.skip(k) =~= rest);
    assert(decoded_frames(s) =~= seq![p] + decoded_frames(rest));
}

/// Round trip: the stream that encodes `ps` decodes to exactly `ps`, with
/// nothing left over.
pub proof fn lemma_round_trip(ps: Seq<Seq<u8>>)
    requires
        forall|i: int| 0 <= i < ps.len() ==> #[trigger] ps[i].len() < 0x1_0000_0000,
    ensures
        decoded_frames(encode_all(ps)) == ps,
        decoded_rest(encode_all(ps)) == Seq::<u8>::empty(),
    decreases ps.len(),
{
    if ps.len() == 0 {
        assert(encode_all(ps).len() == 0);
        assert(!has_complete_frame(encode_all(ps)));
        assert(decoded_frames(encode_all(ps)) =~= ps);
        assert(decoded_rest(encode_all(ps)) =~= Seq::<u8>::empty());
    } else {
        lemma_decode_one_frame(ps[0], encode_all(ps.skip(1)));
        lemma_round_trip(ps.skip(1));
        assert(encode_all(ps) == encoded_frame(ps[0]) + encode_all(ps.skip(1)));
        assert(seq![ps[0]] + ps.skip(1) =~= ps);
    }
}

/// Feeding the decoder chunk by chunk emits exactly the frames of the whole
/// stream, whatever the split, provided the pending bytes hold no complete
/// frame — which the decoder maintains.
pub proof fn lemma_feed_all(pending: Seq<u8>, chunks: Seq<Seq<u8>>)
    requires
        decoded_frames(pending) == Seq::<Seq<u8>>::empty(),
    ensures
        feed_all(pending, chunks) == decoded_frames(pending + concat_chunks(chunks)),
    decreases chunks.len(),
{
    if chunks.len() == 0 {
        assert(pending + concat_chunks(chunks) =~= pending);
        assert(feed_all(pending, chunks) =~= decoded_frames(pending));
    } else {
        let c0 = chunks[0];
        let rest = chunks.skip(1);
        let step = pending + c0;
        lemma_rest_no_frame(step);
        lemma_feed_all(decoded_rest(step), rest);
        lemma_decode_append(step, concat_chunks(rest));
        assert(step + concat_chunks(rest) =~= pending + concat_chunks(chunks));
        assert(feed_all(pending, chunks) =~= decoded_frames(pending + concat_chunks(chunks)));
    }
}

/// The frame round trip survives any split of the stream into read chunks:
/// if the chunks concatenate to the encoding of the payloads `ps`, a decoder
/// that starts empty and takes the chunks one at a time emits `ps` in order.
pub proof fn lemma_chunked_round_trip(ps: Seq<Seq<u8>>, chunks: Seq<Seq<u8>>)
    requires
        concat_chunks(chunks) == encode_all(ps),
        forall|i: int| 0 <= i < ps.len() ==> #[trigger] ps[i].len() < 0x1_0000_0000,
    ensures
        feed_all(Seq::empty(), chunks) == ps,
{
    let empty = Seq::<u8>::empty();
    assert(!has_complete_frame(empty));
    lemma_feed_all(empty, chunks);
    assert(empty + concat_chunks(chunks) =~= encode_all(ps));
    lemma_round_trip(ps);
}

/// What the decoder hands back for one inbound message: the payloads of the
/// complete frames found, or the error fired when the message is no byte
/// buffer.
pub enum DecodeOutcome {
    Frames(Vec<Vec<u8>>),
    Rejected(RettyErrorKind),
}

/// The views of a batch of emitted payloads.
pub open spec fn frames_view(fs: Seq<Vec<u8>>) -> Seq<Seq<u8>> {
    fs.map_values(|f: Vec<u8>| f@)
}

/// The reference inbound handler: assembles 4-byte-length-prefixed frames out
/// of raw read chunks.
pub struct FirstIntegerLengthFieldDecoder {
    all_buf: Vec<u8>,
}

impl Default for FirstIntegerLengthFieldDecoder {
    fn default() -> (r: FirstIntegerLengthFieldDecoder)
        ensures
            r.pending() == Seq::<u8>::empty(),
            r.decoder_inv(),
    {
        FirstIntegerLengthFieldDecoder::new()
    }
}

impl FirstIntegerLengthFieldDecoder {
    /// The bytes accumulated and not yet emitted as frames.
    pub closed spec fn pending(&self) -> Seq<u8> {
        self.all_buf@
    }

    pub fn new() -> (r: FirstIntegerLengthFieldDecoder)
        ensures
            r.pending() == Seq::<u8>::empty(),
            r.decoder_inv(),
    {
        let r = FirstIntegerLengthFieldDecoder { all_buf: Vec::new() };
        proof {
            assert(r.pending() =~= Seq::<u8>::empty());
            assert(!has_complete_frame(r.pending()));
            assert(decoded_frames(r.pending()) =~= Seq::<Seq<u8>>::empty());
        }
        r
    }

    pub fn id(&self) -> (r: String)
        ensures
            r@ == "FirstIntegerLengthFieldDecoder"@,
    {
        String::from_str("FirstIntegerLengthFieldDecoder")
    }

    /// One inbound read. A byte-buffer message is appended to the
    /// accumulation; every complete frame now present is emitted in order and
    /// only the incomplete remainder is kept. Any other message leaves the
    /// decoder unchanged and is answered with the decoding error.
    pub fn channel_read(&mut self, message: &Message) -> (r: DecodeOutcome)
        requires
            old(self).decoder_inv(),
            message matches Message::Buf(b) ==> b.wf(),
        ensures
            final(self).decoder_inv(),
            match *message {
                Message::Buf(ref b) => {
                    &&& r matches DecodeOutcome::Frames(fs) && frames_view(fs@) == decoded_frames(
                        old(self).pending() + b.readable_seq(),
                    )
                    &&& final(self).pending() == decoded_rest(
                        old(self).pending() + b.readable_seq(),
                    )
                },
                Message::Opaque => {
                    &&& r matches DecodeOutcome::Rejected(e) && e.kind == ErrorCategory::Other
                        && e.message@ == "decoding error"@
                    &&& final(self).pending() == old(self).pending()
                },
            },
    {
        match message {
            Message::Buf(buf) => {
                let chunk = buf.available_bytes();
                let mut i: usize = 0;
                let ghost start = self.all_buf@;
                while i < chunk.len()
                    invariant
                        i <= chunk@.len(),
                        self.all_buf@ == start + chunk@.take(i as int),
                    decreases chunk@.len() - i,
                {
                    let b = chunk[i];
                    proof {
                        assert(start + chunk@.take(i + 1) =~= (start + chunk@.take(
                            i as int,
                        )).push(chunk@[i as int]));
                    }
                    self.all_buf.push(b);
                    i = i + 1;
                }
                proof {
                    assert(start + chunk@.take(chunk@.len() as int) =~= start + chunk@);
                }
                let frames = self.drain_frames();
                DecodeOutcome::Frames(frames)
            },
            Message::Opaque => {
                DecodeOutcome::Rejected(
                    RettyErrorKind::new(ErrorCategory::Other, String::from_str("decoding error")),
                )
            },
        }
    }

    /// The accumulation never retains a complete frame.
    pub open spec fn decoder_inv(&self) -> bool {
        decoded_frames(self.pending()) == Seq::<Seq<u8>>::empty()
    }

    /// Extracts every complete frame at the front of the accumulation.
    fn drain_frames(&mut self) -> (frames: Vec<Vec<u8>>)
        ensures
            frames_view(frames@) == decoded_frames(old(self).pending()),
            final(self).pending() == decoded_rest(old(self).pending()),
            final(self).decoder_inv(),
    {
        let ghost orig = self.all_buf@;
        let mut frames: Vec<Vec<u8>> = Vec::new();
        proof {
            assert(frames_view(frames@) =~= Seq::<Seq<u8>>::empty());
        }
        loop
            invariant
                decoded_frames(orig) == frames_view(frames@) + decoded_frames(self.all_buf@),
                decoded_rest(orig) == decoded_rest(self.all_buf@),
            ensures
                !has_complete_frame(self.all_buf@),
                decoded_frames(orig) == frames_view(frames@),
                decoded_rest(orig) == self.all_buf@,
            decreases self.all_buf@.len(),
        {
            if self.all_buf.len() < 4 {
                proof {
                    assert(decoded_frames(self.all_buf@) =~= Seq::<Seq<u8>>::empty());
                    assert(frames_view(frames@) + decoded_frames(self.all_buf@) =~= frames_view(
                        frames@,
                    ));
                }
                break ;
            }
            let pkt_len = read_u32_be_at(&self.all_buf);
            proof {
                assert(self.all_buf@.subrange(0, 4) =~= self.all_buf@.take(4));
                assert(be32(self.all_buf@.take(4)) == be32(self.all_buf@));
            }
            if self.all_buf.len() - 4 < pkt_len as usize {
                proof {
                    assert(!has_complete_frame(self.all_buf@));
                    assert(decoded_frames(self.all_buf@) =~= Seq::<Seq<u8>>::empty());
                    assert(frames_view(frames@) + decoded_frames(self.all_buf@) =~= frames_view(
                        frames@,
                    ));
                }
                break ;
            }
            let end: usize = 4 + pkt_len as usize;
            let payload = copy_range(&self.all_buf, 4, end);
            let rest = copy_range(&self.all_buf, end, self.all_buf.len());
            proof {
                let s = self.all_buf@;
                assert(has_complete_frame(s));
                assert(payload@ =~= s.subrange(4, 4 + be32(s)));
                assert(rest@ =~= s.skip(4 + be32(s)));
                assert(frames_view(frames@.push(payload)) =~= frames_view(frames@).push(
                    payload@,
                ));
                assert(frames_view(frames@).push(payload@) + decoded_frames(rest@) =~= frames_view(
                    frames@,
                ) + (seq![payload@] + decoded_frames(rest@)));
            }
            frames.push(payload);
            self.all_buf = rest;
        }
        frames
    }
}

/// Reads the big-endian `u32` held by the first four bytes of `v`.
fn read_u32_be_at(v: &Vec<u8>) -> (r: u32)
    requires
        v@.len() >= 4,
    ensures
        r == be32(v@.subrange(0, 4)),
{
    let b0 = v[0];
    let b1 = v[1];
    let b2 = v[2];
    let b3 = v[3];
    let r: u32 = (b0 as u32) * 0x100_0000 + (b1 as u32) * 0x1_0000 + (b2 as u32) * 0x100 + (
    b3 as u32);
    proof {
        let s = v@.subrange(0, 4);
        assert(s[0] == b0 && s[1] == b1 && s[2] == b2 && s[3] == b3);
    }
    r
}

/// A copy of `v[from..to]`.
fn copy_range(v: &Vec<u8>, from: usize, to: usize) -> (r: Vec<u8>)
    requires
        from <= to,
        to <= v@.len(),
    ensures
        r@ == v@.subrange(from as int, to as int),
{
    let mut out: Vec<u8> = Vec::new();
    let mut i: usize = from;
    while i < to
        invariant
            from <= i && i <= to,
            to <= v@.len(),
            out@ == v@.subrange(from as int, i as int),
        decreases to - i,
    {
        proof {
            assert(v@.subrange(from as int, i + 1) =~= v@.subrange(from as int, i as int).push(
                v@[i as int],
            ));
        }
        out.push(v[i]);
        i = i + 1;
    }
    out
}

} // verus!
