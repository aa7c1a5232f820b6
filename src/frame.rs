use vstd::prelude::*;

verus! {

/// The number of bytes of a frame's length prefix.
pub const PREFIX_LEN: usize = 8;

pub open spec fn pow256(k: nat) -> nat
    decreases k,
{
    if k == 0 {
        1
    } else {
        256 * pow256((k - 1) as nat)
    }
}

/// `v` written in `k` bytes, least significant first.
pub open spec fn le_bytes(v: nat, k: nat) -> Seq<u8>
    decreases k,
{
    if k == 0 {
        Seq::empty()
    } else {
        seq![(v % 256) as u8] + le_bytes(v / 256, (k - 1) as nat)
    }
}

/// The number that bytes hold, least significant first.
pub open spec fn le_value(b: Seq<u8>) -> nat
    decreases b.len(),
{
    if b.len() == 0 {
        0
    } else {
        b[0] as nat + 256 * le_value(b.drop_first())
    }
}

/// A message on the wire: its length, then its bytes.
pub open spec fn frame(payload: Seq<u8>) -> Seq<u8> {
    le_bytes(payload.len(), PREFIX_LEN as nat) + payload
}

/// The marker that ends a stream: a frame of length zero.
pub open spec fn end_marker() -> Seq<u8> {
    le_bytes(0, PREFIX_LEN as nat)
}

/// Messages one after the other.
pub open spec fn frames(msgs: Seq<Seq<u8>>) -> Seq<u8>
    decreases msgs.len(),
{
    if msgs.len() == 0 {
        Seq::empty()
    } else {
        frames(msgs.drop_last()) + frame(msgs.last())
    }
}

/// What the bytes at the head of a stream hold.
pub enum Decoded {
    /// Not yet a whole frame.
    Incomplete,
    /// The end of the stream.
    End,
    /// A message, and the number of bytes that its frame takes.
    Message(Vec<u8>, usize),
}

/// The frame at the head of `b`: `None` where it is not whole yet; a
/// payload of length zero is the end marker.
pub open spec fn head_frame(b: Seq<u8>) -> Option<Seq<u8>> {
    if b.len() < PREFIX_LEN {
        None
    } else {
        let n = le_value(b.subrange(0, PREFIX_LEN as int));
        if b.len() < PREFIX_LEN + n {
            None
        } else {
            Some(b.subrange(PREFIX_LEN as int, PREFIX_LEN + n))
        }
    }
}

/// How a stream of bytes reads: its messages in order, and whether the end
/// marker follows them. Bytes after the end marker are not read.
pub open spec fn read_stream(b: Seq<u8>) -> (Seq<Seq<u8>>, bool)
    decreases b.len(),
{
    match head_frame(b) {
        None => (Seq::empty(), false),
        Some(p) => if p.len() == 0 {
            (Seq::empty(), true)
        } else {
            let rest = read_stream(b.subrange(PREFIX_LEN + p.len(), b.len() as int));
            (seq![p] + rest.0, rest.1)
        },
    }
}

proof fn lemma_le_round_trip(v: nat, k: nat)
    requires
        v < pow256(k),
    ensures
        le_bytes(v, k).len() == k,
        le_value(le_bytes(v, k)) == v,
    decreases k,
{
    if k > 0 {
        let q = v / 256;
        assert(q < pow256((k - 1) as nat)) by (nonlinear_arith)
            requires
                v < 256 * pow256((k - 1) as nat),
                q == v / 256,
        ;
        lemma_le_round_trip(q, (k - 1) as nat);
        let b = le_bytes(v, k);
        assert(b.drop_first() =~= le_bytes(q, (k - 1) as nat));
        assert(v == v % 256 + 256 * q) by (nonlinear_arith)
            requires
                q == v / 256,
        ;
    }
}

proof fn lemma_le_value_bound(b: Seq<u8>)
    ensures
        le_value(b) < pow256(b.len()),
    decreases b.len(),
{
    if b.len() > 0 {
        lemma_le_value_bound(b.drop_first());
        let x = le_value(b.drop_first());
        let p = pow256((b.len() - 1) as nat);
        assert(b[0] as nat + 256 * x < 256 * p) by (nonlinear_arith)
            requires
                x < p,
                b[0] < 256,
        ;
    }
}

proof fn lemma_pow256_8()
    ensures
        pow256(8) == 0x1_0000_0000_0000_0000,
{
    reveal_with_fuel(pow256, 9);
}

/// The frame of a message reads as that message, whatever follows it.
pub proof fn lemma_frame_round_trip(payload: Seq<u8>, rest: Seq<u8>)
    requires
        payload.len() <= u64::MAX,
    ensures
        frame(payload).len() == PREFIX_LEN + payload.len(),
        head_frame(frame(payload) + rest) == Some(payload),
{
    lemma_pow256_8();
    lemma_le_round_trip(payload.len(), 8);
    let b = frame(payload) + rest;
    assert(b.subrange(0, 8) =~= le_bytes(payload.len(), 8));
    assert(b.subrange(8, 8 + payload.len() as int) =~= payload);
}

/// The end marker reads as the end, whatever follows it.
pub proof fn lemma_end_marker_reads_as_end(rest: Seq<u8>)
    ensures
        head_frame(end_marker() + rest) == Some(Seq::<u8>::empty()),
{
    lemma_pow256_8();
    lemma_le_round_trip(0, 8);
    let b = end_marker() + rest;
    assert(b.subrange(0, 8) =~= end_marker());
    assert(b.subrange(8, 8) =~= Seq::<u8>::empty());
}

/// Messages sent read back first, in their order, each once, whatever
/// bytes follow them: more messages, part of a frame, or nothing yet.
pub proof fn lemma_sent_messages_read_first(msgs: Seq<Seq<u8>>, rest: Seq<u8>)
    requires
        forall|i: int| 0 <= i < msgs.len() ==> 0 < (#[trigger] msgs[i]).len() <= u64::MAX,
    ensures
        read_stream(frames(msgs) + rest) == (msgs + read_stream(rest).0, read_stream(rest).1),
    decreases msgs.len(),
{
    if msgs.len() == 0 {
        assert(frames(msgs) + rest =~= rest);
        assert(msgs + read_stream(rest).0 =~= read_stream(rest).0);
    } else {
        let p = msgs[0];
        let tail = msgs.drop_first();
        lemma_frames_split(msgs);
        assert forall|i: int| 0 <= i < tail.len() implies 0 < (#[trigger] tail[i]).len()
            <= u64::MAX by {
            assert(tail[i] == msgs[i + 1]);
        }
        let b = frames(msgs) + rest;
        assert(b =~= frame(p) + (frames(tail) + rest));
        lemma_frame_round_trip(p, frames(tail) + rest);
        assert(b.subrange(PREFIX_LEN + p.len(), b.len() as int) =~= frames(tail) + rest);
        lemma_sent_messages_read_first(tail, rest);
        assert(msgs =~= seq![p] + tail);
        assert(msgs + read_stream(rest).0 =~= seq![p] + (tail + read_stream(rest).0));
    }
}

/// Splits off the first frame of a non-empty run of frames.
proof fn lemma_frames_split(msgs: Seq<Seq<u8>>)
    requires
        msgs.len() > 0,
    ensures
        frames(msgs) =~= frame(msgs[0]) + frames(msgs.drop_first()),
    decreases msgs.len(),
{
    if msgs.len() > 1 {
        let init = msgs.drop_last();
        lemma_frames_split(init);
        assert(init.drop_first() =~= msgs.drop_first().drop_last());
        assert(msgs.drop_first().last() == msgs.last());
        assert(frames(msgs.drop_first()) == frames(msgs.drop_first().drop_last()) + frame(
            msgs.drop_first().last(),
        ));
    } else {
        assert(msgs.drop_last() =~= Seq::<Seq<u8>>::empty());
        assert(msgs.drop_first() =~= Seq::<Seq<u8>>::empty());
    }
}

/// Messages sent and then the end marker read back as those messages, in
/// their order, and then the end.
pub proof fn lemma_stream_round_trip(msgs: Seq<Seq<u8>>)
    requires
        forall|i: int| 0 <= i < msgs.len() ==> 0 < (#[trigger] msgs[i]).len() <= u64::MAX,
    ensures
        read_stream(frames(msgs) + end_marker()) == (msgs, true),
{
    lemma_sent_messages_read_first(msgs, end_marker());
    lemma_end_marker_reads_as_end(Seq::empty());
    assert(end_marker() + Seq::<u8>::empty() =~= end_marker());
    assert(msgs + Seq::<Seq<u8>>::empty() =~= msgs);
}

/// The messages that carry a byte stream: one for each byte.
pub open spec fn byte_messages(bytes: Seq<u8>) -> Seq<Seq<u8>> {
    Seq::new(bytes.len(), |i: int| seq![bytes[i]])
}

/// Bytes written one message each, and then the end marker, read back as
/// the same bytes and then the end.
pub proof fn lemma_byte_stream_round_trip(bytes: Seq<u8>)
    ensures
        read_stream(frames(byte_messages(bytes)) + end_marker()) == (byte_messages(bytes), true),
        read_stream(frames(byte_messages(bytes)) + end_marker()).1,
        read_stream(frames(byte_messages(bytes)) + end_marker()).0.len() == bytes.len(),
        forall|i: int|
            0 <= i < bytes.len() ==> #[trigger] read_stream(
                frames(byte_messages(bytes)) + end_marker(),
            ).0[i] == seq![bytes[i]],
{
    let msgs = byte_messages(bytes);
    assert forall|i: int| 0 <= i < msgs.len() implies 0 < (#[trigger] msgs[i]).len()
        <= u64::MAX by {
        assert(msgs[i] == seq![bytes[i]]);
    }
    lemma_stream_round_trip(msgs);
}

/// Where the messages of a written byte stream start with those of the
/// bytes read, the bytes read are the first ones written, and the messages
/// left carry the rest.
pub proof fn lemma_read_bytes_are_written_prefix(
    written: Seq<u8>,
    read: Seq<u8>,
    rest: Seq<Seq<u8>>,
)
    requires
        byte_messages(written) == byte_messages(read) + rest,
    ensures
        read.len() <= written.len(),
        read == written.subrange(0, read.len() as int),
        rest == byte_messages(written.subrange(read.len() as int, written.len() as int)),
{
    let w = byte_messages(written);
    let r = byte_messages(read);
    assert(w.len() == r.len() + rest.len());
    assert forall|i: int| 0 <= i < read.len() implies read[i] == written[i] by {
        assert(w[i] == r[i]);
        assert(w[i][0] == written[i]);
        assert(r[i][0] == read[i]);
    }
    assert(read =~= written.subrange(0, read.len() as int));
    let tail = written.subrange(read.len() as int, written.len() as int);
    assert forall|i: int| 0 <= i < rest.len() implies rest[i] == byte_messages(tail)[i] by {
        assert(w[read.len() + i] == rest[i]);
    }
    assert(rest =~= byte_messages(tail));
}

/// A stream cut short after some messages reads as those messages and no
/// end: the reader sees a failure, not a clean close.
pub proof fn lemma_cut_stream_reads_prefix(msgs: Seq<Seq<u8>>, k: int)
    requires
        forall|i: int| 0 <= i < msgs.len() ==> 0 < (#[trigger] msgs[i]).len() <= u64::MAX,
        0 <= k <= msgs.len(),
    ensures
        read_stream(frames(msgs.subrange(0, k))) == (msgs.subrange(0, k), false),
{
    let pre = msgs.subrange(0, k);
    assert forall|i: int| 0 <= i < pre.len() implies 0 < (#[trigger] pre[i]).len()
        <= u64::MAX by {
        assert(pre[i] == msgs[i]);
    }
    lemma_sent_messages_read_first(pre, Seq::empty());
    assert(frames(pre) + Seq::<u8>::empty() =~= frames(pre));
    assert(pre + Seq::<Seq<u8>>::empty() =~= pre);
}

proof fn lemma_pow256_monotonic(a: nat, b: nat)
    requires
        a <= b,
    ensures
        pow256(a) <= pow256(b),
    decreases b,
{
    if a < b {
        lemma_pow256_monotonic(a, (b - 1) as nat);
    }
}

/// Appends `v` in `PREFIX_LEN` bytes, least significant first.
fn write_len(out: &mut Vec<u8>, v: u64)
    ensures
        final(out)@ == old(out)@ + le_bytes(v as nat, PREFIX_LEN as nat),
{
    let mut x = v;
    let mut i: usize = 0;
    while i < PREFIX_LEN
        invariant
            i <= PREFIX_LEN,
            out@ + le_bytes(x as nat, (PREFIX_LEN - i) as nat) == old(out)@ + le_bytes(
                v as nat,
                PREFIX_LEN as nat,
            ),
        decreases PREFIX_LEN - i,
    {
        let ghost before = out@;
        let ghost k = (PREFIX_LEN - i) as nat;
        let ghost x0 = x as nat;
        assert(le_bytes(x0, k) == seq![(x0 % 256) as u8] + le_bytes(x0 / 256, (k - 1) as nat));
        out.push((x % 256) as u8);
        x = x / 256;
        assert(out@ + le_bytes(x as nat, (k - 1) as nat) =~= before + le_bytes(x0, k));
        i = i + 1;
    }
    assert(le_bytes(x as nat, 0) =~= Seq::<u8>::empty());
    assert(out@ + Seq::<u8>::empty() =~= out@);
}

/// Reads the length prefix at the head of `buf`.
fn read_len(buf: &[u8]) -> (v: u64)
    requires
        buf@.len() >= PREFIX_LEN,
    ensures
        v as nat == le_value(buf@.subrange(0, PREFIX_LEN as int)),
{
    let mut v: u64 = 0;
    let mut i: usize = PREFIX_LEN;
    proof {
        lemma_pow256_8();
    }
    assert(buf@.subrange(PREFIX_LEN as int, PREFIX_LEN as int).len() == 0);
    while i > 0
        invariant
            i <= PREFIX_LEN <= buf@.len(),
            pow256(8) == 0x1_0000_0000_0000_0000,
            v as nat == le_value(buf@.subrange(i as int, PREFIX_LEN as int)),
        decreases i,
    {
        let ghost tail = buf@.subrange(i as int, PREFIX_LEN as int);
        let ghost next = buf@.subrange(i - 1, PREFIX_LEN as int);
        assert(next.drop_first() =~= tail);
        assert(next[0] == buf@[i - 1]);
        proof {
            lemma_le_value_bound(next);
            lemma_pow256_monotonic(next.len(), 8);
        }
        let b = buf[i - 1];
        v = v * 256 + b as u64;
        i = i - 1;
    }
    v
}

/// The frame that carries `payload`, which must not be empty: a frame of
/// length zero is the end marker.
pub fn encode_frame(payload: &[u8]) -> (r: Vec<u8>)
    requires
        payload@.len() > 0,
    ensures
        r@ == frame(payload@),
{
    let mut out: Vec<u8> = Vec::new();
    write_len(&mut out, payload.len() as u64);
    let mut i: usize = 0;
    while i < payload.len()
        invariant
            i <= payload@.len(),
            out@ == le_bytes(payload@.len(), PREFIX_LEN as nat) + payload@.subrange(0, i as int),
        decreases payload@.len() - i,
    {
        out.push(payload[i]);
        i = i + 1;
        assert(out@ =~= le_bytes(payload@.len(), PREFIX_LEN as nat) + payload@.subrange(
            0,
            i as int,
        ));
    }
    assert(payload@.subrange(0, payload@.len() as int) =~= payload@);
    out
}

/// The marker that ends a stream.
pub fn encode_end() -> (r: Vec<u8>)
    ensures
        r@ == end_marker(),
{
    let mut out: Vec<u8> = Vec::new();
    write_len(&mut out, 0);
    assert(out@ =~= end_marker());
    out
}

/// Reads the frame at the head of `buf`.
pub fn decode_frame(buf: &[u8]) -> (r: Decoded)
    ensures
        match head_frame(buf@) {
            None => r is Incomplete,
            Some(p) => if p.len() == 0 {
                r is End
            } else {
                match r {
                    Decoded::Message(m, used) => m@ == p && used == PREFIX_LEN + p.len(),
                    _ => false,
                }
            },
        },
{
    if buf.len() < PREFIX_LEN {
        return Decoded::Incomplete;
    }
    let n = read_len(buf);
    if ((buf.len() - PREFIX_LEN) as u64) < n {
        return Decoded::Incomplete;
    }
    let end = PREFIX_LEN + n as usize;
    if n == 0 {
        assert(buf@.subrange(PREFIX_LEN as int, PREFIX_LEN as int).len() == 0);
        return Decoded::End;
    }
    let mut m: Vec<u8> = Vec::new();
    let mut i: usize = PREFIX_LEN;
    while i < end
        invariant
            PREFIX_LEN <= i <= end <= buf@.len(),
            m@ == buf@.subrange(PREFIX_LEN as int, i as int),
        decreases end - i,
    {
        m.push(buf[i]);
        i = i + 1;
        assert(m@ =~= buf@.subrange(PREFIX_LEN as int, i as int));
    }
    Decoded::Message(m, end)
}

/// Why a receive failed.
#[derive(Clone, Copy, Debug, PartialEq, Eq, Structural)]
pub enum ChannelError {
    /// The remote closed its sending half, and every message has been read.
    Exited,
    /// The connection failed, or a message could not be read.
    Error,
}

/// What a receiver does with the bytes that have arrived: take the next
/// message and the number of bytes that it used, or fail, or (`None`) wait
/// for more bytes. `closed` says that the connection has ended, so that no
/// more bytes will come: the end marker then reads as `Exited`, and a
/// stream that stops without it as `Error`.
pub fn next_message(buf: &[u8], closed: bool) -> (r: Option<Result<(Vec<u8>, usize), ChannelError>>)
    ensures
        match head_frame(buf@) {
            None => if closed {
                r == Some(Err::<(Vec<u8>, usize), ChannelError>(ChannelError::Error))
            } else {
                r is None
            },
            Some(p) => if p.len() == 0 {
                r == Some(Err::<(Vec<u8>, usize), ChannelError>(ChannelError::Exited))
            } else {
                match r {
                    Some(Ok((m, used))) => m@ == p && used == PREFIX_LEN + p.len(),
                    _ => false,
                }
            },
        },
{
    match decode_frame(buf) {
        Decoded::Incomplete => if closed {
            Some(Err(ChannelError::Error))
        } else {
            None
        },
        Decoded::End => Some(Err(ChannelError::Exited)),
        Decoded::Message(m, used) => Some(Ok((m, used))),
    }
}

/// The bytes that have arrived from one peer and have not been read yet.
pub struct Inbox {
    buf: Vec<u8>,
    closed: bool,
}

impl Inbox {
    /// The bytes not read yet.
    pub closed spec fn pending(&self) -> Seq<u8> {
        self.buf@
    }

    /// Whether the connection has ended.
    pub closed spec fn is_closed(&self) -> bool {
        self.closed
    }

    pub fn new() -> (r: Inbox)
        ensures
            r.pending() == Seq::<u8>::empty(),
            !r.is_closed(),
    {
        Inbox { buf: Vec::new(), closed: false }
    }

    /// Takes in bytes that arrived.
    pub fn feed(&mut self, bytes: &[u8])
        ensures
            final(self).pending() == old(self).pending() + bytes@,
            final(self).is_closed() == old(self).is_closed(),
    {
        let mut i: usize = 0;
        let ghost start = self.buf@;
        while i < bytes.len()
            invariant
                i <= bytes@.len(),
                self.buf@ == start + bytes@.subrange(0, i as int),
                self.closed == old(self).closed,
                start == old(self).buf@,
            decreases bytes@.len() - i,
        {
            self.buf.push(bytes[i]);
            i = i + 1;
            assert(self.buf@ =~= start + bytes@.subrange(0, i as int));
        }
        assert(bytes@.subrange(0, bytes@.len() as int) =~= bytes@);
    }

    /// Notes that the connection has ended: no more bytes will come.
    pub fn close(&mut self)
        ensures
            final(self).pending() == old(self).pending(),
            final(self).is_closed(),
    {
        self.closed = true;
    }

    /// Reads the next message, or fails, or (`None`) has to wait for more
    /// bytes. Messages come out in the order of the stream, each once;
    /// after the end marker every read gives `Exited`, and where the
    /// connection ended without it, `Error`.
    pub fn recv(&mut self) -> (r: Option<Result<Vec<u8>, ChannelError>>)
        ensures
            final(self).is_closed() == old(self).is_closed(),
            match head_frame(old(self).pending()) {
                None => final(self).pending() == old(self).pending() && if old(self).is_closed() {
                    r == Some(Err::<Vec<u8>, ChannelError>(ChannelError::Error))
                } else {
                    r is None
                },
                Some(p) => if p.len() == 0 {
                    r == Some(Err::<Vec<u8>, ChannelError>(ChannelError::Exited))
                        && final(self).pending() == old(self).pending()
                } else {
                    (match r {
                        Some(Ok(m)) => m@ == p,
                        _ => false,
                    }) && final(self).pending() == old(self).pending().subrange(
                        PREFIX_LEN + p.len(),
                        old(self).pending().len() as int,
                    )
                },
            },
            match r {
                Some(Ok(m)) => read_stream(old(self).pending()) == (
                    seq![m@] + read_stream(final(self).pending()).0,
                    read_stream(final(self).pending()).1,
                ),
                _ => true,
            },
    {
        match next_message(self.buf.as_slice(), self.closed) {
            None => None,
            Some(Err(e)) => Some(Err(e)),
            Some(Ok((m, used))) => {
                self.drop_head(used);
                Some(Ok(m))
            },
        }
    }

    /// Whether a receive would not wait: a whole frame has arrived, or the
    /// connection has ended.
    pub fn ready(&self) -> (r: bool)
        ensures
            r == (head_frame(self.pending()) is Some || self.is_closed()),
    {
        if self.closed {
            return true;
        }
        match decode_frame(self.buf.as_slice()) {
            Decoded::Incomplete => false,
            _ => true,
        }
    }

    /// Drops the first `used` bytes.
    fn drop_head(&mut self, used: usize)
        requires
            used <= old(self).pending().len(),
        ensures
            final(self).pending() == old(self).pending().subrange(
                used as int,
                old(self).pending().len() as int,
            ),
            final(self).is_closed() == old(self).is_closed(),
    {
        let mut rest: Vec<u8> = Vec::new();
        let mut i: usize = used;
        while i < self.buf.len()
            invariant
                used <= i <= self.buf@.len(),
                rest@ == self.buf@.subrange(used as int, i as int),
            decreases self.buf@.len() - i,
        {
            rest.push(self.buf[i]);
            i = i + 1;
            assert(rest@ =~= self.buf@.subrange(used as int, i as int));
        }
        self.buf = rest;
    }

    /// Reads a byte stream: the bytes of the one-byte messages at the head
    /// of the inbox, at most `max` of them. `None` where no whole frame has
    /// arrived yet; an error where the stream ends (`Exited` at the end
    /// marker, `Error` where the connection ended without it) or where the
    /// head message is not one byte long. After the first byte, reading
    /// stops at the first frame that is not a whole one-byte message.
    pub fn read_bytes(&mut self, max: usize) -> (r: Option<Result<Vec<u8>, ChannelError>>)
        requires
            max > 0,
        ensures
            final(self).is_closed() == old(self).is_closed(),
            match head_frame(old(self).pending()) {
                None => final(self).pending() == old(self).pending() && if old(self).is_closed() {
                    r == Some(Err::<Vec<u8>, ChannelError>(ChannelError::Error))
                } else {
                    r is None
                },
                Some(p) => if p.len() == 0 {
                    r == Some(Err::<Vec<u8>, ChannelError>(ChannelError::Exited))
                        && final(self).pending() == old(self).pending()
                } else if p.len() != 1 {
                    r == Some(Err::<Vec<u8>, ChannelError>(ChannelError::Error))
                        && final(self).pending() == old(self).pending()
                } else {
                    r matches Some(Ok(b)) && b@[0] == p[0]
                },
            },
            match r {
                Some(Ok(b)) => 1 <= b@.len() <= max && read_stream(old(self).pending()) == (
                    byte_messages(b@) + read_stream(final(self).pending()).0,
                    read_stream(final(self).pending()).1,
                ) && (b@.len() < max ==> !(head_frame(final(self).pending()) matches Some(p)
                    && p.len() == 1)),
                _ => true,
            },
    {
        let first = match decode_frame(self.buf.as_slice()) {
            Decoded::Incomplete => {
                return if self.closed {
                    Some(Err(ChannelError::Error))
                } else {
                    None
                };
            },
            Decoded::End => {
                return Some(Err(ChannelError::Exited));
            },
            Decoded::Message(m, used) => {
                if m.len() != 1 {
                    return Some(Err(ChannelError::Error));
                }
                let ghost before = self.buf@;
                self.drop_head(used);
                proof {
                    assert(m@ =~= seq![m@[0]]);
                    assert(byte_messages(seq![m@[0]]) =~= seq![seq![m@[0]]]);
                    assert(seq![m@] + read_stream(self.buf@).0 =~= read_stream(before).0);
                }
                m[0]
            },
        };
        let mut out: Vec<u8> = Vec::new();
        out.push(first);
        let ghost start = old(self).buf@;
        while out.len() < max
            invariant
                1 <= out@.len() <= max,
                self.closed == old(self).closed,
                out@[0] == first,
                read_stream(start) == (
                    byte_messages(out@) + read_stream(self.buf@).0,
                    read_stream(self.buf@).1,
                ),
            ensures
                1 <= out@.len() <= max,
                self.closed == old(self).closed,
                out@[0] == first,
                read_stream(start) == (
                    byte_messages(out@) + read_stream(self.buf@).0,
                    read_stream(self.buf@).1,
                ),
                out@.len() < max ==> !(head_frame(self.buf@) matches Some(p) && p.len() == 1),
            decreases max - out@.len(),
        {
            match decode_frame(self.buf.as_slice()) {
                Decoded::Message(m, used) => {
                    if m.len() != 1 {
                        break;
                    }
                    let ghost before = self.buf@;
                    let ghost prev = out@;
                    self.drop_head(used);
                    out.push(m[0]);
                    proof {
                        assert(m@ =~= seq![m@[0]]);
                        assert(byte_messages(out@) =~= byte_messages(prev) + seq![m@]);
                        assert(read_stream(before).0 == seq![m@] + read_stream(self.buf@).0);
                        assert(byte_messages(prev) + read_stream(before).0 =~= byte_messages(out@)
                            + read_stream(self.buf@).0);
                    }
                },
                _ => {
                    break;
                },
            }
        }
        Some(Ok(out))
    }
}

/// The frames that carry a byte stream: one one-byte message for each byte.
pub fn encode_bytes(bytes: &[u8]) -> (r: Vec<u8>)
    ensures
        r@ == frames(byte_messages(bytes@)),
{
    let mut out: Vec<u8> = Vec::new();
    let mut i: usize = 0;
    assert(byte_messages(bytes@.subrange(0, 0)) =~= Seq::<Seq<u8>>::empty());
    while i < bytes.len()
        invariant
            i <= bytes@.len(),
            out@ == frames(byte_messages(bytes@.subrange(0, i as int))),
        decreases bytes@.len() - i,
    {
        let ghost prev = byte_messages(bytes@.subrange(0, i as int));
        let ghost next = byte_messages(bytes@.subrange(0, i + 1));
        let b = bytes[i];
        write_len(&mut out, 1);
        out.push(b);
        proof {
            assert(next.drop_last() =~= prev);
            assert(next.last() =~= seq![b]);
            assert(out@ =~= frames(prev) + frame(seq![b]));
        }
        i = i + 1;
    }
    assert(bytes@.subrange(0, bytes@.len() as int) =~= bytes@);
    out
}

} // verus!
