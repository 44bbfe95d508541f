//! Frames on a byte stream: building outbound frames and recovering packets
//! from an inbound stream, with byte-at-a-time resynchronisation.
use vstd::prelude::*;
use crate::header::{
    decode_spec, encode_spec, header_of, header_spec, lemma_decode_encode, lemma_decode_prefix,
    sync_marker, CompressionType, EncryptionType, Header, IntoErrors, HEADER_SIZE,
};
use crate::transform::{
    compress, compress_spec, decompress, decompress_spec, decrypt, decrypt_spec, encrypt,
    encrypt_spec,
};

verus! {

/// Errors that end a peer's stream.
#[derive(Debug, Clone, Copy, PartialEq, Eq, Structural)]
pub enum FrameError {
    /// The header could not be decoded.
    Decode(IntoErrors),
    /// The announced payload exceeds the buffer capacity.
    TooLarge(u16),
    /// A payload transform failed: the payload does not decode.
    TransformFailed,
    /// A transformed payload does not fit in a frame.
    PayloadTooLarge,
}

/// Largest payload a frame can carry.
pub const MAX_PAYLOAD: usize = 65535;

/// The frame that carries packet `p` with transforms `c` and `e`.
pub open spec fn outbound_spec(p: Seq<u8>, c: CompressionType, e: EncryptionType) -> Result<
    Seq<u8>,
    FrameError,
> {
    match compress_spec(p, c) {
        None => Err(FrameError::TransformFailed),
        Some(q) => match encrypt_spec(q, e) {
            None => Err(FrameError::TransformFailed),
            Some(w) => if w.len() > MAX_PAYLOAD {
                Err(FrameError::PayloadTooLarge)
            } else {
                Ok(encode_spec(header_spec(w.len() as u16, c, e)) + w)
            },
        },
    }
}

/// The view of a frame result.
pub open spec fn res_bytes(r: Result<Vec<u8>, FrameError>) -> Result<Seq<u8>, FrameError> {
    match r {
        Ok(v) => Ok(v@),
        Err(e) => Err(e),
    }
}

/// Builds the frame that carries packet `p`: compression, then encryption,
/// then a header announcing the transformed length.
pub fn encode_frame(p: Vec<u8>, c: CompressionType, e: EncryptionType) -> (r: Result<
    Vec<u8>,
    FrameError,
>)
    ensures
        res_bytes(r) == outbound_spec(p@, c, e),
        r matches Ok(f) ==> forall|cap: nat|
            cap + HEADER_SIZE >= f@.len() ==> #[trigger] drain_spec(f@, cap) == (
                seq![p@],
                Seq::<u8>::empty(),
                None::<FrameError>,
            ),
{
    let ghost pv = p@;
    let q = match compress(p, c) {
        Some(q) => q,
        None => return Err(FrameError::TransformFailed),
    };
    let mut w = match encrypt(q, e) {
        Some(w) => w,
        None => return Err(FrameError::TransformFailed),
    };
    if w.len() > MAX_PAYLOAD {
        return Err(FrameError::PayloadTooLarge);
    }
    let ghost wv = w@;
    let h = Header::new(w.len() as u16, c, e);
    let mut out = h.encode();
    out.append(&mut w);
    proof {
        assert forall|cap: nat| cap + HEADER_SIZE >= out@.len() implies #[trigger] drain_spec(
            out@,
            cap,
        ) == (seq![pv], Seq::<u8>::empty(), None::<FrameError>) by {
            lemma_frame_decodes(c, e, wv, pv, Seq::<u8>::empty(), cap);
            assert(out@ =~= out@ + Seq::<u8>::empty());
            assert(decode_spec(Seq::<u8>::empty()) == Err::<Header, IntoErrors>(
                IntoErrors::BufferTooSmall,
            ));
            assert(seq![pv] + Seq::<Seq<u8>>::empty() =~= seq![pv]);
        }
    }
    Ok(out)
}

/// What one decoding step at the head of a buffer finds.
pub enum Outcome {
    /// More bytes are needed.
    NeedMore,
    /// The head is not a marker: drop one byte.
    Skip,
    /// A packet, and the number of bytes its frame took.
    Packet(Seq<u8>, nat),
    /// The stream cannot go on.
    Fatal(FrameError),
}

/// The payload of the frame whose header opens `buf`.
pub open spec fn payload_of(buf: Seq<u8>) -> Seq<u8> {
    buf.subrange(HEADER_SIZE as int, HEADER_SIZE + header_of(buf).packet_length)
}

/// One decoding step at the head of `buf`, with payloads bounded by `cap`.
pub open spec fn step_spec(buf: Seq<u8>, cap: nat) -> Outcome {
    match decode_spec(buf) {
        Err(IntoErrors::BufferTooSmall) => Outcome::NeedMore,
        Err(IntoErrors::BadSyncMarker) => Outcome::Skip,
        Err(e) => Outcome::Fatal(FrameError::Decode(e)),
        Ok(h) => if h.packet_length > cap {
            Outcome::Fatal(FrameError::TooLarge(h.packet_length))
        } else if buf.len() < HEADER_SIZE + h.packet_length {
            Outcome::NeedMore
        } else {
            match decrypt_spec(payload_of(buf), h.encryption) {
                None => Outcome::Fatal(FrameError::TransformFailed),
                Some(q) => match decompress_spec(q, h.compression) {
                    None => Outcome::Fatal(FrameError::TransformFailed),
                    Some(r) => Outcome::Packet(r, (HEADER_SIZE + h.packet_length) as nat),
                },
            }
        },
    }
}

/// Repeats decoding steps on `buf` until more bytes are needed or the
/// stream fails: the packets found, the bytes left, and the failure if any.
pub open spec fn drain_spec(buf: Seq<u8>, cap: nat) -> (Seq<Seq<u8>>, Seq<u8>, Option<FrameError>)
    decreases buf.len(),
{
    match step_spec(buf, cap) {
        Outcome::NeedMore => (seq![], buf, None),
        Outcome::Fatal(e) => (seq![], buf, Some(e)),
        Outcome::Skip => if buf.len() > 0 {
            drain_spec(buf.drop_first(), cap)
        } else {
            (seq![], buf, None)
        },
        Outcome::Packet(p, n) => if 0 < n <= buf.len() {
            let rest = drain_spec(buf.skip(n as int), cap);
            (seq![p] + rest.0, rest.1, rest.2)
        } else {
            (seq![], buf, None)
        },
    }
}

/// Result of one step of the decoder.
#[derive(Debug)]
pub enum Step {
    /// More bytes are needed.
    NeedMore,
    /// One byte was dropped to resynchronise.
    Skipped,
    /// A packet was recovered.
    Packet(Vec<u8>),
    /// The stream cannot go on.
    Fatal(FrameError),
}

/// The bytes `a..b` of `v`.
fn copy_range(v: &Vec<u8>, a: usize, b: usize) -> (r: Vec<u8>)
    requires
        a <= b <= v@.len(),
    ensures
        r@ == v@.subrange(a as int, b as int),
{
    let mut r: Vec<u8> = Vec::with_capacity(b - a);
    let mut i: usize = a;
    while i < b
        invariant
            a <= i <= b <= v@.len(),
            r@ == v@.subrange(a as int, i as int),
        decreases b - i,
    {
        r.push(v[i]);
        i = i + 1;
        assert(r@ =~= v@.subrange(a as int, i as int));
    }
    r
}

/// How many more bytes the decoder takes before it can decide on `buf`:
/// first a whole header, then the payload that header announces.
pub open spec fn wanted(buf: Seq<u8>, cap: nat) -> nat {
    if buf.len() < HEADER_SIZE {
        (HEADER_SIZE - buf.len()) as nat
    } else {
        match decode_spec(buf) {
            Ok(h) => if h.packet_length <= cap && buf.len() < HEADER_SIZE + h.packet_length {
                (HEADER_SIZE + h.packet_length - buf.len()) as nat
            } else {
                0
            },
            Err(_) => 0,
        }
    }
}

/// Inbound half of a peer's stream: a window for the next header and a
/// payload buffer bounded by the configured capacity.
pub struct FrameDecoder {
    head: Vec<u8>,
    body: Vec<u8>,
    capacity: usize,
}

impl FrameDecoder {
    /// The bytes received and not yet consumed.
    pub closed spec fn buffered(&self) -> Seq<u8> {
        self.head@ + self.body@
    }

    /// The payload bytes held.
    pub closed spec fn payload_held(&self) -> nat {
        self.body@.len()
    }

    /// The largest payload accepted.
    pub closed spec fn cap(&self) -> nat {
        self.capacity as nat
    }

    /// The header window holds at most a header; payload bytes are held
    /// only after a header announcing at least that many within capacity.
    pub closed spec fn wf(&self) -> bool {
        &&& self.capacity + HEADER_SIZE <= usize::MAX
        &&& self.head@.len() <= HEADER_SIZE
        &&& self.body@.len() <= self.capacity
        &&& self.body@.len() > 0 ==> {
            &&& self.head@.len() == HEADER_SIZE
            &&& decode_spec(self.head@) is Ok
            &&& decode_spec(self.head@).unwrap().packet_length <= self.capacity
            &&& self.body@.len() <= decode_spec(self.head@).unwrap().packet_length
        }
    }

    /// A well-formed decoder holds at most `cap` payload bytes, and at most
    /// one frame in all.
    pub proof fn lemma_bounded(&self)
        requires
            self.wf(),
        ensures
            self.payload_held() <= self.cap(),
            self.buffered().len() <= HEADER_SIZE + self.cap(),
    {
    }

    /// An empty decoder for payloads of at most `capacity` bytes.
    pub fn new(capacity: usize) -> (r: FrameDecoder)
        requires
            capacity + HEADER_SIZE <= usize::MAX,
        ensures
            r.wf(),
            r.buffered() == Seq::<u8>::empty(),
            r.cap() == capacity,
    {
        let r = FrameDecoder { head: Vec::new(), body: Vec::new(), capacity };
        assert(r.buffered() =~= Seq::<u8>::empty());
        r
    }

    /// How many more bytes the decoder takes now.
    pub fn room(&self) -> (r: usize)
        requires
            self.wf(),
        ensures
            r == wanted(self.buffered(), self.cap()),
    {
        let hl = self.head.len();
        if hl < HEADER_SIZE {
            return HEADER_SIZE - hl;
        }
        proof {
            lemma_decode_prefix(self.head@, self.body@);
        }
        match Header::from_slice(self.head.as_slice()) {
            Ok(h) => {
                let plen = h.packet_length as usize;
                if plen <= self.capacity && self.body.len() < plen {
                    plen - self.body.len()
                } else {
                    0
                }
            },
            Err(_) => 0,
        }
    }

    /// Appends as many bytes of `data` as the decoder takes now; returns how many.
    pub fn push(&mut self, data: &[u8]) -> (n: usize)
        requires
            old(self).wf(),
        ensures
            final(self).wf(),
            final(self).cap() == old(self).cap(),
            n == vstd::math::min(data@.len() as int, wanted(old(self).buffered(), old(self).cap()) as int),
            final(self).buffered() == old(self).buffered() + data@.take(n as int),
    {
        let want = self.room();
        let n: usize = if data.len() < want { data.len() } else { want };
        let ghost start = self.buffered();
        if self.head.len() < HEADER_SIZE {
            let mut i: usize = 0;
            while i < n
                invariant
                    n <= data@.len(),
                    i <= n,
                    self.head@.len() + n - i <= HEADER_SIZE,
                    self.body@.len() == 0,
                    self.capacity == old(self).capacity,
                    self.capacity + HEADER_SIZE <= usize::MAX,
                    self.buffered() == start + data@.take(i as int),
                    self.head@ == start + data@.take(i as int),
                decreases n - i,
            {
                self.head.push(data[i]);
                i = i + 1;
                assert(self.head@ =~= start + data@.take(i as int));
                assert(self.buffered() =~= self.head@);
            }
            assert(self.buffered() =~= start + data@.take(n as int));
        } else {
            proof {
                lemma_decode_prefix(self.head@, self.body@);
            }
            let ghost head = self.head@;
            let mut i: usize = 0;
            while i < n
                invariant
                    n <= data@.len(),
                    i <= n,
                    self.head@ == head,
                    head.len() == HEADER_SIZE,
                    n > 0 ==> decode_spec(head) is Ok && decode_spec(head).unwrap().packet_length
                        <= self.capacity && self.body@.len() + n - i
                        <= decode_spec(head).unwrap().packet_length,
                    self.capacity == old(self).capacity,
                    self.capacity + HEADER_SIZE <= usize::MAX,
                    self.buffered() == start + data@.take(i as int),
                decreases n - i,
            {
                let ghost before = self.buffered();
                self.body.push(data[i]);
                assert(self.buffered() =~= before.push(data@[i as int]));
                i = i + 1;
                assert(data@.take(i as int) =~= data@.take(i - 1).push(data@[i - 1]));
                assert(self.buffered() =~= start + data@.take(i as int));
            }
        }
        n
    }

    /// One decoding step at the head of the buffered bytes.
    pub fn step(&mut self) -> (r: Step)
        requires
            old(self).wf(),
        ensures
            final(self).wf(),
            final(self).cap() == old(self).cap(),
            match (r, step_spec(old(self).buffered(), old(self).cap())) {
                (Step::NeedMore, Outcome::NeedMore) => final(self).buffered() == old(
                    self,
                ).buffered(),
                (Step::Skipped, Outcome::Skip) => final(self).buffered() == old(
                    self,
                ).buffered().drop_first(),
                (Step::Packet(p), Outcome::Packet(q, n)) => p@ == q && final(self).buffered()
                    == old(self).buffered().skip(n as int),
                (Step::Fatal(e), Outcome::Fatal(f)) => e == f && final(self).buffered() == old(
                    self,
                ).buffered(),
                _ => false,
            },
            r is NeedMore ==> wanted(old(self).buffered(), old(self).cap()) > 0,
    {
        let hl = self.head.len();
        if hl < HEADER_SIZE {
            assert(self.buffered() =~= self.head@);
            return Step::NeedMore;
        }
        proof {
            lemma_decode_prefix(self.head@, self.body@);
        }
        match Header::from_slice(self.head.as_slice()) {
            Err(IntoErrors::BufferTooSmall) => Step::NeedMore,
            Err(IntoErrors::BadSyncMarker) => {
                assert(self.buffered() =~= self.head@);
                let rest = copy_range(&self.head, 1, hl);
                assert(rest@ =~= self.head@.drop_first());
                self.head = rest;
                assert(self.buffered() =~= rest@);
                Step::Skipped
            },
            Err(e) => Step::Fatal(FrameError::Decode(e)),
            Ok(h) => {
                let plen = h.packet_length as usize;
                if plen > self.capacity {
                    return Step::Fatal(FrameError::TooLarge(h.packet_length));
                }
                if self.body.len() < plen {
                    return Step::NeedMore;
                }
                assert(payload_of(self.buffered()) =~= self.body@);
                let payload = copy_range(&self.body, 0, plen);
                assert(payload@ =~= self.body@);
                let q = match decrypt(payload, h.encryption) {
                    Some(q) => q,
                    None => return Step::Fatal(FrameError::TransformFailed),
                };
                let p = match decompress(q, h.compression) {
                    Some(p) => p,
                    None => return Step::Fatal(FrameError::TransformFailed),
                };
                self.head = Vec::new();
                self.body = Vec::new();
                assert(self.buffered() =~= old(self).buffered().skip((HEADER_SIZE + plen) as int));
                Step::Packet(p)
            },
        }
    }
}

/// The packets held by a vector of byte vectors.
pub open spec fn packets_view(v: Vec<Vec<u8>>) -> Seq<Seq<u8>> {
    v@.map_values(|x: Vec<u8>| x@)
}

impl FrameDecoder {
    /// Decodes every frame that the buffer holds, resynchronising past
    /// bytes that do not open a frame, until more bytes are needed or the
    /// stream fails.
    pub fn drain(&mut self) -> (r: (Vec<Vec<u8>>, Option<FrameError>))
        requires
            old(self).wf(),
        ensures
            final(self).wf(),
            final(self).cap() == old(self).cap(),
            packets_view(r.0) == drain_spec(old(self).buffered(), old(self).cap()).0,
            final(self).buffered() == drain_spec(old(self).buffered(), old(self).cap()).1,
            r.1 == drain_spec(old(self).buffered(), old(self).cap()).2,
    {
        let ghost d = drain_spec(self.buffered(), self.capacity as nat);
        let mut out: Vec<Vec<u8>> = Vec::new();
        loop
            invariant
                self.wf(),
                self.capacity == old(self).capacity,
                d == drain_spec(old(self).buffered(), old(self).cap()),
                packets_view(out) + drain_spec(self.buffered(), self.capacity as nat).0 == d.0,
                drain_spec(self.buffered(), self.capacity as nat).1 == d.1,
                drain_spec(self.buffered(), self.capacity as nat).2 == d.2,
            decreases self.buffered().len(),
        {
                        let s = self.step();
            match s {
                Step::NeedMore => {
                    assert(packets_view(out) + seq![] =~= packets_view(out));
                    return (out, None);
                },
                Step::Fatal(e) => {
                    assert(packets_view(out) + seq![] =~= packets_view(out));
                    return (out, Some(e));
                },
                Step::Skipped => {},
                Step::Packet(p) => {
                    let ghost rest = drain_spec(self.buffered(), self.capacity as nat);
                    let ghost old_out = packets_view(out);
                    out.push(p);
                    assert(packets_view(out) =~= old_out.push(p@));
                    assert(packets_view(out) + rest.0 =~= old_out + (seq![p@] + rest.0));
                },
            }
        }
    }
}

/// A frame on the wire: its transform tags and its transformed payload.
pub type WireFrame = (CompressionType, EncryptionType, Seq<u8>);

/// The bytes of frame `f`.
pub open spec fn frame_spec(f: WireFrame) -> Seq<u8> {
    encode_spec(header_spec(f.2.len() as u16, f.0, f.1)) + f.2
}

/// The frames `fs`, one after the other.
pub open spec fn frames_spec(fs: Seq<WireFrame>) -> Seq<u8>
    decreases fs.len(),
{
    if fs.len() == 0 {
        seq![]
    } else {
        frame_spec(fs[0]) + frames_spec(fs.drop_first())
    }
}

/// Whether frame `f` fits the buffer and its payload reverses to `p`.
pub open spec fn frame_carries(f: WireFrame, p: Seq<u8>, cap: nat) -> bool {
    &&& f.2.len() <= cap
    &&& f.2.len() <= MAX_PAYLOAD
    &&& decrypt_spec(f.2, f.1) is Some
    &&& decompress_spec(decrypt_spec(f.2, f.1).unwrap(), f.0) == Some(p)
}

/// Whether the frames `fs` carry the packets `ps`, one each.
pub open spec fn frames_carry(fs: Seq<WireFrame>, ps: Seq<Seq<u8>>, cap: nat) -> bool {
    &&& fs.len() == ps.len()
    &&& forall|i: int| 0 <= i < fs.len() ==> frame_carries(#[trigger] fs[i], ps[i], cap)
}

/// Whether the four bytes of `s` at `i` are the synchronisation marker.
pub open spec fn marker_at(s: Seq<u8>, i: int) -> bool {
    s.subrange(i, i + 4) == sync_marker()
}

/// Whether no four consecutive bytes of `s` are the synchronisation marker.
pub open spec fn marker_free(s: Seq<u8>) -> bool {
    forall|i: int| 0 <= i && i + 4 <= s.len() ==> !#[trigger] marker_at(s, i)
}

/// A frame whose payload `w` reverses to `p` yields `p`, then whatever
/// follows it yields.
pub proof fn lemma_frame_decodes(
    c: CompressionType,
    e: EncryptionType,
    w: Seq<u8>,
    p: Seq<u8>,
    rest: Seq<u8>,
    cap: nat,
)
    requires
        w.len() <= cap,
        w.len() <= MAX_PAYLOAD,
        decrypt_spec(w, e) is Some,
        decompress_spec(decrypt_spec(w, e).unwrap(), c) == Some(p),
    ensures
        drain_spec(encode_spec(header_spec(w.len() as u16, c, e)) + w + rest, cap) == (
            seq![p] + drain_spec(rest, cap).0,
            drain_spec(rest, cap).1,
            drain_spec(rest, cap).2,
        ),
{
    let h = header_spec(w.len() as u16, c, e);
    let x = encode_spec(h);
    let s = x + w + rest;
    assert(s =~= x + (w + rest));
    assert(h.marker@ =~= sync_marker());
    assert(h.reserved@ =~= seq![0u8, 0u8, 0u8, 0u8, 0u8, 0u8]);
    lemma_decode_encode(h);
    lemma_decode_prefix(x, w + rest);
    assert(decode_spec(s) == Ok::<Header, IntoErrors>(header_of(s)));
    assert(header_of(s) == h);
    assert(h.packet_length == w.len());
    assert(payload_of(s) =~= w);
    assert(s.skip(HEADER_SIZE + w.len()) =~= rest);
}

proof fn lemma_frames(fs: Seq<WireFrame>, ps: Seq<Seq<u8>>, cap: nat)
    requires
        frames_carry(fs, ps, cap),
    ensures
        drain_spec(frames_spec(fs), cap) == (ps, Seq::<u8>::empty(), None::<FrameError>),
    decreases fs.len(),
{
    if fs.len() == 0 {
        assert(decode_spec(Seq::<u8>::empty()) == Err::<Header, IntoErrors>(IntoErrors::BufferTooSmall));
        assert(frames_spec(fs) =~= Seq::<u8>::empty());
        assert(ps =~= Seq::<Seq<u8>>::empty());
    } else {
        let ft = fs.drop_first();
        let pt = ps.drop_first();
        assert forall|i: int| 0 <= i < ft.len() implies frame_carries(#[trigger] ft[i], pt[i], cap) by {
            assert(ft[i] == fs[i + 1]);
            assert(frame_carries(fs[i + 1], ps[i + 1], cap));
        }
        lemma_frames(ft, pt, cap);
        let f = fs[0];
        assert(frame_carries(fs[0], ps[0], cap));
        lemma_frame_decodes(f.0, f.1, f.2, ps[0], frames_spec(ft), cap);
        assert(seq![ps[0]] + pt =~= ps);
    }
}

proof fn lemma_skip_junk(junk: Seq<u8>, tail: Seq<u8>, cap: nat)
    requires
        marker_free(junk),
        tail.len() >= HEADER_SIZE,
        tail[0] == 0xacu8,
    ensures
        drain_spec(junk + tail, cap) == drain_spec(tail, cap),
    decreases junk.len(),
{
    if junk.len() == 0 {
        assert(junk + tail =~= tail);
    } else {
        let s = junk + tail;
        let m = s.subrange(0, 4);
        if junk.len() >= 4 {
            assert(!marker_at(junk, 0));
            assert(m =~= junk.subrange(0, 4));
        } else {
            let k = junk.len() as int;
            assert(m[k] == tail[0]);
            assert(sync_marker()[1] == 0xabu8 && sync_marker()[2] == 0xc0u8 && sync_marker()[3]
                == 0xdeu8);
        }
        assert(m != sync_marker());
        assert(decode_spec(s) == Err::<Header, IntoErrors>(IntoErrors::BadSyncMarker));
        let j = junk.drop_first();
        assert forall|i: int| 0 <= i && i + 4 <= j.len() implies !#[trigger] marker_at(j, i) by {
            assert(!marker_at(junk, i + 1));
            assert(j.subrange(i, i + 4) =~= junk.subrange(i + 1, i + 5));
        }
        assert(s.drop_first() =~= j + tail);
        lemma_skip_junk(j, tail, cap);
    }
}

/// A header announcing more than `cap` bytes ends the stream as soon as
/// the header itself is buffered, whatever follows it, and nothing of it is
/// consumed.
pub proof fn lemma_oversized_is_fatal(h: Header, rest: Seq<u8>, cap: nat)
    requires
        h.valid(),
        h.packet_length > cap,
    ensures
        drain_spec(encode_spec(h) + rest, cap) == (
            Seq::<Seq<u8>>::empty(),
            encode_spec(h) + rest,
            Some(FrameError::TooLarge(h.packet_length)),
        ),
{
    lemma_decode_encode(h);
    lemma_decode_prefix(encode_spec(h), rest);
}

/// A stream of frames preceded by junk that holds no synchronisation marker
/// yields exactly the frames' packets, in order, with nothing left over: the
/// decoder drops the junk one byte at a time and then reads as if it had
/// never been there.
pub proof fn lemma_resync(junk: Seq<u8>, fs: Seq<WireFrame>, ps: Seq<Seq<u8>>, cap: nat)
    requires
        marker_free(junk),
        fs.len() >= 1,
        frames_carry(fs, ps, cap),
    ensures
        drain_spec(junk + frames_spec(fs), cap) == drain_spec(frames_spec(fs), cap),
        drain_spec(junk + frames_spec(fs), cap) == (ps, Seq::<u8>::empty(), None::<FrameError>),
{
    let f = frames_spec(fs);
    assert(f == frame_spec(fs[0]) + frames_spec(fs.drop_first()));
    assert(f[0] == 0xacu8);
    lemma_skip_junk(junk, f, cap);
    lemma_frames(fs, ps, cap);
}

/// Once the decoder holds all it takes (`wanted` is zero), its next step on
/// what it holds is the step on the whole stream, whatever follows: so the
/// decoder fed a stream in pieces decides as `drain_spec` on the whole.
pub proof fn lemma_window_decides(b: Seq<u8>, rest: Seq<u8>, cap: nat)
    requires
        wanted(b, cap) == 0,
    ensures
        step_spec(b + rest, cap) == step_spec(b, cap),
        step_spec(b, cap) is Skip ==> (b + rest).drop_first() == b.drop_first() + rest,
        step_spec(b, cap) matches Outcome::Packet(_, n) ==> n <= b.len() && (b + rest).skip(
            n as int,
        ) == b.skip(n as int) + rest,
{
    lemma_decode_prefix(b, rest);
    let s = b + rest;
    if step_spec(b, cap) is Skip {
        assert(s.drop_first() =~= b.drop_first() + rest);
    }
    if let Ok(h) = decode_spec(b) {
        if h.packet_length <= cap {
            assert(header_of(s) == header_of(b)) by {
                assert(header_of(s).marker =~= header_of(b).marker);
            }
            assert(payload_of(s) =~= payload_of(b));
            let n = HEADER_SIZE + h.packet_length;
            assert(s.skip(n) =~= b.skip(n) + rest);
        }
    }
}

} // verus!
