//! Station-network framing: UTF-16LE frames between `<BOR>` and `<EOR>`.
use vstd::prelude::*;
use crate::error::Error;
use crate::network::message::{
    body_spec, message_result, parse_spec, push_lit, Message, MessageView,
};
use crate::text::{ends_with, find_sub, lemma_find_sub, string_of};
use crate::wire::char_from_u32;

verus! {

/// The UTF-16 code units of one character.
pub open spec fn utf16_of(c: char) -> Seq<u16> {
    let u = c as u32;
    if u < 0x10000 {
        seq![u as u16]
    } else {
        let w = u - 0x10000;
        seq![(0xD800 + w / 0x400) as u16, (0xDC00 + w % 0x400) as u16]
    }
}

/// The UTF-16 encoding of a text.
pub open spec fn encode_utf16(s: Seq<char>) -> Seq<u16>
    decreases s.len(),
{
    if s.len() == 0 {
        seq![]
    } else {
        encode_utf16(s.drop_last()) + utf16_of(s.last())
    }
}

/// Code units as little-endian bytes.
pub open spec fn le_bytes(us: Seq<u16>) -> Seq<u8>
    decreases us.len(),
{
    if us.len() == 0 {
        seq![]
    } else {
        le_bytes(us.drop_last()) + seq![(us.last() % 256) as u8, (us.last() / 256) as u8]
    }
}

/// Little-endian byte pairs as code units (a trailing odd byte is ignored).
pub open spec fn units_of(bytes: Seq<u8>) -> Seq<u16>
    decreases bytes.len(),
{
    if bytes.len() < 2 {
        seq![]
    } else {
        seq![(bytes[0] + 256 * bytes[1]) as u16] + units_of(bytes.skip(2))
    }
}

/// The characters that UTF-16 code units encode, or none when a surrogate is unpaired.
pub open spec fn decode_utf16(us: Seq<u16>) -> Option<Seq<char>>
    decreases us.len(),
{
    if us.len() == 0 {
        Some(seq![])
    } else {
        let u = us[0];
        if u < 0xD800 || u > 0xDFFF {
            match decode_utf16(us.skip(1)) {
                Some(t) => Some(seq![(u as u32) as char] + t),
                None => None,
            }
        } else if u <= 0xDBFF && us.len() >= 2 && 0xDC00 <= us[1] && us[1] <= 0xDFFF {
            let c = (0x10000 + (u - 0xD800) * 0x400 + (us[1] - 0xDC00)) as char;
            match decode_utf16(us.skip(2)) {
                Some(t) => Some(seq![c] + t),
                None => None,
            }
        } else {
            None
        }
    }
}

/// A frame's text: the body between the markers, then the ETX EOT BEL trailer.
pub open spec fn frame_text(body: Seq<char>) -> Seq<char> {
    "<BOR>"@ + body + "<EOR>\u{3}\u{4}\u{7}"@
}

/// What encoding a message gives: its framed body as UTF-16LE.
pub open spec fn encode_spec(m: MessageView) -> Result<Seq<u8>, Error> {
    match body_spec(m) {
        Ok(b) => Ok(le_bytes(encode_utf16(frame_text(b)))),
        Err(e) => Err(e),
    }
}

/// `<BOR>` as UTF-16LE.
pub open spec fn bor_mark() -> Seq<u8> {
    seq![60u8, 0, 66, 0, 79, 0, 82, 0, 62, 0]
}

/// `<EOR>` as UTF-16LE.
pub open spec fn eor_mark() -> Seq<u8> {
    seq![60u8, 0, 69, 0, 79, 0, 82, 0, 62, 0]
}

/// The first frame end in `tail`: an `<EOR>` (consumed) or a new `<BOR>` (kept),
/// whichever comes first.
pub open spec fn frame_end(tail: Seq<u8>) -> Option<(int, int)> {
    match (find_sub(tail, eor_mark()), find_sub(tail, bor_mark())) {
        (Some(i), Some(j)) => if j < i {
            Some((j, 0))
        } else {
            Some((i, 10))
        },
        (Some(i), None) => Some((i, 10)),
        (None, Some(j)) => Some((j, 0)),
        (None, None) => None,
    }
}

/// The message in a frame's payload.
pub open spec fn payload_spec(payload: Seq<u8>) -> Result<MessageView, Error> {
    if payload.len() % 2 != 0 {
        Err(Error::OddUtf16Length)
    } else {
        match decode_utf16(units_of(payload)) {
            None => Err(Error::InvalidUtf16),
            Some(text) => parse_spec(text),
        }
    }
}

/// Extract at most one message from the buffer: bytes before the first `<BOR>`
/// are dropped, and a complete frame is decoded and removed.
pub open spec fn extract_spec(buf: Seq<u8>) -> Result<(Seq<MessageView>, Seq<u8>), Error> {
    match find_sub(buf, bor_mark()) {
        None => Ok((seq![], buf)),
        Some(start) => {
            let b1 = buf.skip(start);
            let tail = b1.skip(10);
            match frame_end(tail) {
                None => Ok((seq![], b1)),
                Some((end, skip)) => match payload_spec(tail.take(end)) {
                    Err(x) => Err(x),
                    Ok(m) => Ok((seq![m], b1.skip(10 + end + skip))),
                },
            }
        },
    }
}

/// One received byte: it is buffered, the limit enforced, and a frame extracted
/// when the buffer now ends with a marker.
#[verifier::opaque]
pub open spec fn step_spec(buf: Seq<u8>, limit: nat, byte: u8) -> Result<
    (Seq<MessageView>, Seq<u8>),
    Error,
> {
    let b1 = buf.push(byte);
    if b1.len() > limit {
        Err(Error::FrameTooLarge)
    } else if !ends_with(b1, eor_mark()) && !ends_with(b1, bor_mark()) {
        Ok((seq![], b1))
    } else {
        extract_spec(b1)
    }
}

/// Messages `ms` prepended to a feeding outcome.
pub open spec fn prefixed(ms: Seq<MessageView>, fr: (Result<Seq<MessageView>, Error>, Seq<u8>)) -> (
    Result<Seq<MessageView>, Error>,
    Seq<u8>,
) {
    (
        match fr.0 {
            Ok(rest) => Ok(ms + rest),
            Err(e) => Err(e),
        },
        fr.1,
    )
}

/// Feeding bytes in order: the messages completed and the buffer left. An
/// error discards the buffer.
pub open spec fn feed_spec(buf: Seq<u8>, limit: nat, bytes: Seq<u8>) -> (
    Result<Seq<MessageView>, Error>,
    Seq<u8>,
)
    decreases bytes.len(),
{
    if bytes.len() == 0 {
        (Ok(seq![]), buf)
    } else {
        match step_spec(buf, limit, bytes[0]) {
            Err(e) => (Err(e), seq![]),
            Ok((ms, b2)) => prefixed(ms, feed_spec(b2, limit, bytes.drop_first())),
        }
    }
}

/// Prepending twice is prepending the joined messages.
pub proof fn lemma_prefixed_assoc(
    a: Seq<MessageView>,
    b: Seq<MessageView>,
    fr: (Result<Seq<MessageView>, Error>, Seq<u8>),
)
    ensures
        prefixed(a, prefixed(b, fr)) == prefixed(a + b, fr),
{
    if let Ok(rest) = fr.0 {
        assert(a + (b + rest) =~= (a + b) + rest);
    }
}

/// The view of a list of messages.
pub open spec fn messages_view(ms: Seq<Message>) -> Seq<MessageView> {
    ms.map_values(|m: Message| m@)
}

/// Feeding two chunks one after the other gives what feeding them joined gives.
pub proof fn lemma_feed_split(buf: Seq<u8>, limit: nat, a: Seq<u8>, b: Seq<u8>)
    ensures
        feed_spec(buf, limit, a).0 is Ok ==> feed_spec(buf, limit, a + b) == prefixed(
            feed_spec(buf, limit, a).0->Ok_0,
            feed_spec(feed_spec(buf, limit, a).1, limit, b),
        ),
    decreases a.len(),
{
    if a.len() == 0 {
        assert(a + b =~= b);
        assert(Seq::<MessageView>::empty() + feed_spec(buf, limit, b).0->Ok_0 =~= feed_spec(
            buf,
            limit,
            b,
        ).0->Ok_0);
    } else {
        assert((a + b)[0] == a[0]);
        assert((a + b).drop_first() =~= a.drop_first() + b);
        match step_spec(buf, limit, a[0]) {
            Err(_) => {},
            Ok((ms, b2)) => {
                lemma_feed_split(b2, limit, a.drop_first(), b);
                let fa = feed_spec(b2, limit, a.drop_first());
                if fa.0 is Ok {
                    lemma_prefixed_assoc(ms, fa.0->Ok_0, feed_spec(fa.1, limit, b));
                }
            },
        }
    }
}

/// Whether `p` is a prefix of `h[at..to]`.
fn bytes_match_at(h: &[u8], p: &[u8], at: usize, to: usize) -> (b: bool)
    requires
        at <= to <= h@.len(),
    ensures
        b == (p@.len() <= to - at && h@.subrange(at as int, to as int).take(p@.len() as int) == p@),
{
    if p.len() > to - at {
        return false;
    }
    let mut k: usize = 0;
    while k < p.len()
        invariant
            k <= p@.len(),
            at + p@.len() <= to <= h@.len(),
            forall|j: int| 0 <= j < k ==> h@[at + j] == p@[j],
        decreases p@.len() - k,
    {
        if h[at + k] != p[k] {
            assert(h@.subrange(at as int, to as int).take(p@.len() as int)[k as int] != p@[k as int]);
            return false;
        }
        k += 1;
    }
    assert(h@.subrange(at as int, to as int).take(p@.len() as int) =~= p@);
    true
}

/// First occurrence of `n` in `h[from..to]`, as an index into `h`.
fn find_bytes(h: &[u8], n: &[u8], from: usize, to: usize) -> (r: Option<usize>)
    requires
        from <= to <= h@.len(),
    ensures
        match r {
            Some(i) => crate::text::shift(find_sub(h@.subrange(from as int, to as int), n@), from as int)
                == Some(i as int) && from <= i && i + n@.len() <= to,
            None => find_sub(h@.subrange(from as int, to as int), n@) is None,
        },
{
    let mut i = from;
    loop
        invariant
            from <= i <= to <= h@.len(),
            find_sub(h@.subrange(from as int, to as int), n@) == crate::text::shift(
                find_sub(h@.subrange(i as int, to as int), n@),
                i - from,
            ),
        decreases to - i,
    {
        if n.len() > to - i {
            return None;
        }
        if n.len() == 0 {
            assert(h@.subrange(i as int, to as int).take(0) =~= n@);
        }
        if bytes_match_at(h, n, i, to) {
            return Some(i);
        }
        assert(h@.subrange(i as int, to as int).drop_first() =~= h@.subrange(i + 1, to as int));
        i += 1;
    }
}

/// Whether `h` ends with `p`.
fn ends_with_bytes(h: &[u8], p: &[u8]) -> (b: bool)
    ensures
        b == ends_with(h@, p@),
{
    let hl = h.len();
    if p.len() > hl {
        return false;
    }
    let off = hl - p.len();
    let mut k: usize = 0;
    while k < p.len()
        invariant
            hl == h@.len(),
            k <= p@.len(),
            off + p@.len() == h@.len(),
            forall|j: int| 0 <= j < k ==> h@[off + j] == p@[j],
        decreases p@.len() - k,
    {
        if h[off + k] != p[k] {
            assert(h@.skip(off as int)[k as int] != p@[k as int]);
            return false;
        }
        k += 1;
    }
    assert(h@.skip(off as int) =~= p@);
    true
}

/// Appends the UTF-16LE bytes of `c`.
fn push_utf16(out: &mut Vec<u8>, c: char)
    ensures
        final(out)@ == old(out)@ + le_bytes(utf16_of(c)),
{
    proof {
        vstd::utf8::char_is_scalar(c);
    }
    let u = c as u32;
    let ghost start = out@;
    if u < 0x10000 {
        let unit = u as u16;
        out.push((unit % 256) as u8);
        out.push((unit / 256) as u8);
        assert(utf16_of(c).drop_last() =~= Seq::<u16>::empty());
        assert(le_bytes(utf16_of(c)) == le_bytes(Seq::<u16>::empty()) + seq![
            (unit % 256) as u8,
            (unit / 256) as u8,
        ]);
    } else {
        let w = u - 0x10000;
        let hi = (0xD800 + w / 0x400) as u16;
        let lo = (0xDC00 + w % 0x400) as u16;
        out.push((hi % 256) as u8);
        out.push((hi / 256) as u8);
        out.push((lo % 256) as u8);
        out.push((lo / 256) as u8);
        assert(utf16_of(c).drop_last() =~= seq![hi]);
        assert(utf16_of(c).drop_last().drop_last() =~= Seq::<u16>::empty());
        assert(le_bytes(seq![hi]) == le_bytes(Seq::<u16>::empty()) + seq![
            (hi % 256) as u8,
            (hi / 256) as u8,
        ]);
        assert(le_bytes(utf16_of(c)) == le_bytes(seq![hi]) + seq![
            (lo % 256) as u8,
            (lo / 256) as u8,
        ]);
    }
    assert(out@ =~= start + le_bytes(utf16_of(c)));
}

/// `le_bytes` of a concatenation.
pub proof fn lemma_le_bytes_concat(a: Seq<u16>, b: Seq<u16>)
    ensures
        le_bytes(a + b) == le_bytes(a) + le_bytes(b),
    decreases b.len(),
{
    if b.len() == 0 {
        assert(a + b =~= a);
        assert(le_bytes(a) + le_bytes(b) =~= le_bytes(a));
    } else {
        assert((a + b).drop_last() =~= a + b.drop_last());
        lemma_le_bytes_concat(a, b.drop_last());
        assert(le_bytes(a + b) =~= le_bytes(a) + le_bytes(b));
    }
}

/// Frame a message: its body between `<BOR>` and `<EOR>`, then ETX EOT BEL,
/// all as UTF-16LE.
pub fn encode(message: &Message) -> (r: Result<Vec<u8>, Error>)
    ensures
        match r {
            Ok(bytes) => encode_spec(message@) == Ok::<Seq<u8>, Error>(bytes@),
            Err(e) => encode_spec(message@) == Err::<Seq<u8>, Error>(e),
        },
{
    let body = message.body_chars()?;
    let mut text: Vec<char> = Vec::new();
    push_lit(&mut text, "<BOR>");
    crate::text::vec_extend(&mut text, &body, 0, body.len());
    push_lit(&mut text, "<EOR>\u{3}\u{4}\u{7}");
    assert(body@.subrange(0, body@.len() as int) =~= body@);
    assert(text@ =~= frame_text(body@));
    let mut out: Vec<u8> = Vec::new();
    let mut i: usize = 0;
    while i < text.len()
        invariant
            i <= text@.len(),
            out@ == le_bytes(encode_utf16(text@.take(i as int))),
        decreases text@.len() - i,
    {
        let ghost before = out@;
        push_utf16(&mut out, text[i]);
        proof {
            assert(text@.take(i + 1).drop_last() =~= text@.take(i as int));
            lemma_le_bytes_concat(encode_utf16(text@.take(i as int)), utf16_of(text@[i as int]));
        }
        i += 1;
    }
    assert(text@.take(text@.len() as int) =~= text@);
    Ok(out)
}

/// The characters of the UTF-16LE bytes `b[from..to]` (an even count).
fn decode_utf16_exec(b: &[u8], from: usize, to: usize) -> (r: Option<Vec<char>>)
    requires
        from <= to <= b@.len(),
        (to - from) % 2 == 0,
    ensures
        match r {
            Some(v) => decode_utf16(units_of(b@.subrange(from as int, to as int))) == Some(v@),
            None => decode_utf16(units_of(b@.subrange(from as int, to as int))) is None,
        },
    decreases to - from,
{
    if from == to {
        assert(units_of(b@.subrange(from as int, to as int)) =~= Seq::<u16>::empty());
        return Some(Vec::new());
    }
    let ghost s = b@.subrange(from as int, to as int);
    let ghost us = units_of(s);
    assert(s.skip(2) =~= b@.subrange(from + 2, to as int));
    let u: u32 = b[from] as u32 + 256 * (b[from + 1] as u32);
    assert(us[0] == u as u16);
    assert(us.skip(1) =~= units_of(b@.subrange(from + 2, to as int)));
    if u < 0xD800 || u > 0xDFFF {
        let c = match char_from_u32(u) {
            Some(c) => c,
            None => {
                return None;
            },
        };
        match decode_utf16_exec(b, from + 2, to) {
            Some(rest) => {
                let mut v: Vec<char> = Vec::new();
                v.push(c);
                crate::text::vec_extend(&mut v, &rest, 0, rest.len());
                assert(rest@.subrange(0, rest@.len() as int) =~= rest@);
                Some(v)
            },
            None => None,
        }
    } else if u <= 0xDBFF && to - from >= 4 {
        let ghost s2 = b@.subrange(from + 2, to as int);
        assert(s2.skip(2) =~= b@.subrange(from + 4, to as int));
        let u2: u32 = b[from + 2] as u32 + 256 * (b[from + 3] as u32);
        assert(us[1] == u2 as u16);
        if 0xDC00 <= u2 && u2 <= 0xDFFF {
            assert(us.skip(2) =~= units_of(b@.subrange(from + 4, to as int)));
            let n = 0x10000 + (u - 0xD800) * 0x400 + (u2 - 0xDC00);
            let c = match char_from_u32(n) {
                Some(c) => c,
                None => {
                    return None;
                },
            };
            match decode_utf16_exec(b, from + 4, to) {
                Some(rest) => {
                    let mut v: Vec<char> = Vec::new();
                    v.push(c);
                    crate::text::vec_extend(&mut v, &rest, 0, rest.len());
                    assert(rest@.subrange(0, rest@.len() as int) =~= rest@);
                    Some(v)
                },
                None => None,
            }
        } else {
            None
        }
    } else {
        None
    }
}

/// Byte-oriented framing that tolerates any TCP split and both observed trailer
/// forms. An error clears the buffer; callers should disconnect on malformed input.
pub struct Decoder {
    buffer: Vec<u8>,
    limit: usize,
}

impl Decoder {
    /// Never more bytes buffered than the limit.
    #[verifier::type_invariant]
    spec fn within_limit(&self) -> bool {
        self.buffer@.len() <= self.limit
    }

    /// The bytes waiting for the rest of their frame.
    pub closed spec fn buffered(&self) -> Seq<u8> {
        self.buffer@
    }

    /// The largest number of bytes that may be buffered.
    pub closed spec fn limit(&self) -> nat {
        self.limit as nat
    }

    /// A decoder with an empty buffer and the given frame limit.
    pub fn new(max_frame_bytes: usize) -> (d: Self)
        ensures
            d.buffered() == Seq::<u8>::empty(),
            d.limit() == max_frame_bytes,
    {
        Decoder { buffer: Vec::new(), limit: max_frame_bytes }
    }

    /// The number of bytes waiting for the rest of their frame.
    pub fn pending_bytes(&self) -> (n: usize)
        ensures
            n == self.buffered().len(),
    {
        self.buffer.len()
    }

    /// Keep only the buffered bytes from `cut` on.
    fn keep_from(&mut self, cut: usize)
        requires
            cut <= old(self).buffer@.len(),
        ensures
            final(self).buffer@ == old(self).buffer@.skip(cut as int),
            final(self).limit == old(self).limit,
    {
        proof {
            use_type_invariant(&*self);
        }
        let len = self.buffer.len();
        let mut rest: Vec<u8> = Vec::new();
        let mut k = cut;
        while k < len
            invariant
                cut <= k <= len == self.buffer@.len(),
                rest@ == self.buffer@.subrange(cut as int, k as int),
            decreases len - k,
        {
            rest.push(self.buffer[k]);
            assert(rest@ =~= self.buffer@.subrange(cut as int, k + 1));
            k += 1;
        }
        assert(rest@ =~= self.buffer@.skip(cut as int));
        self.buffer = rest;
    }

    /// The first frame end after `t0`, as an index into the buffer.
    fn frame_end_exec(buf: &[u8], t0: usize) -> (r: Option<(usize, usize)>)
        requires
            t0 <= buf@.len(),
        ensures
            match frame_end(buf@.skip(t0 as int)) {
                Some((e, skip)) => r matches Some((i, k)) && i == t0 + e && k == skip && i <= buf@.len(),
                None => r is None,
            },
    {
        let bor = [60u8, 0, 66, 0, 79, 0, 82, 0, 62, 0];
        let eor = [60u8, 0, 69, 0, 79, 0, 82, 0, 62, 0];
        assert(bor@ == bor_mark());
        assert(eor@ == eor_mark());
        let len = buf.len();
        assert(buf@.subrange(t0 as int, len as int) =~= buf@.skip(t0 as int));
        let end = find_bytes(buf, &eor, t0, len);
        let next = find_bytes(buf, &bor, t0, len);
        match (end, next) {
            (Some(i), Some(j)) => if j < i {
                Some((j, 0))
            } else {
                Some((i, 10))
            },
            (Some(i), None) => Some((i, 10)),
            (None, Some(j)) => Some((j, 0)),
            (None, None) => None,
        }
    }

    /// The message in the payload `buf[from..to]`.
    fn decode_payload(buf: &[u8], from: usize, to: usize) -> (r: Result<Message, Error>)
        requires
            from <= to <= buf@.len(),
        ensures
            message_result(r) == payload_spec(buf@.subrange(from as int, to as int)),
    {
        if (to - from) % 2 != 0 {
            return Err(Error::OddUtf16Length);
        }
        let chars = match decode_utf16_exec(buf, from, to) {
            None => {
                return Err(Error::InvalidUtf16);
            },
            Some(c) => c,
        };
        let text = string_of(&chars, 0, chars.len());
        assert(chars@.subrange(0, chars@.len() as int) =~= chars@);
        Message::parse(text.as_str())
    }

    fn extract(&mut self) -> (r: Result<Option<Message>, Error>)
        ensures
            match extract_spec(old(self).buffer@) {
                Ok((ms, nb)) => r is Ok && final(self).buffer@ == nb && ms == match r->Ok_0 {
                    Some(m) => seq![m@],
                    None => Seq::<MessageView>::empty(),
                },
                Err(e) => r == Err::<Option<Message>, Error>(e),
            },
            final(self).limit == old(self).limit,
            final(self).buffer@.len() <= old(self).buffer@.len(),
    {
        proof {
            use_type_invariant(&*self);
        }
        let bor = [60u8, 0, 66, 0, 79, 0, 82, 0, 62, 0];
        assert(bor@ == bor_mark());
        let len = self.buffer.len();
        let ghost buf = self.buffer@;
        assert(buf.subrange(0, len as int) =~= buf);
        let start = match find_bytes(&self.buffer, &bor, 0, len) {
            None => {
                return Ok(None);
            },
            Some(s) => s,
        };
        proof {
            lemma_find_sub(buf, bor_mark());
        }
        let t0 = start + 10;
        assert(buf.skip(start as int).skip(10) =~= buf.skip(t0 as int));
        match Self::frame_end_exec(&self.buffer, t0) {
            None => {
                self.keep_from(start);
                Ok(None)
            },
            Some((e, skip)) => {
                proof {
                    let tail = buf.skip(t0 as int);
                    lemma_frame_end_bound(tail);
                    assert(tail.take(e - t0) =~= buf.subrange(t0 as int, e as int));
                    assert(buf.skip(start as int).skip(10 + (e - t0) + skip) =~= buf.skip(
                        (e + skip) as int,
                    ));
                    lemma_frame_end_bound(tail);
                }
                let m = Self::decode_payload(&self.buffer, t0, e)?;
                self.keep_from(e + skip);
                Ok(Some(m))
            },
        }
    }

    /// Buffer one byte; extract a frame when the buffer then ends with a marker.
    fn step(&mut self, byte: u8) -> (r: Result<Option<Message>, Error>)
        ensures
            final(self).limit == old(self).limit,
            final(self).buffer@.len() <= final(self).limit,
            match step_spec(old(self).buffer@, old(self).limit as nat, byte) {
                Ok((ms, nb)) => r is Ok && final(self).buffer@ == nb && ms == match r->Ok_0 {
                    Some(m) => seq![m@],
                    None => Seq::<MessageView>::empty(),
                },
                Err(e) => r == Err::<Option<Message>, Error>(e) && final(self).buffer@ == Seq::<
                    u8,
                >::empty(),
            },
    {
        let eor = [60u8, 0, 69, 0, 79, 0, 82, 0, 62, 0];
        let bor = [60u8, 0, 66, 0, 79, 0, 82, 0, 62, 0];
        assert(bor@ == bor_mark());
        assert(eor@ == eor_mark());
        proof {
            reveal(step_spec);
            use_type_invariant(&*self);
        }
        let mut buf: Vec<u8> = Vec::new();
        std::mem::swap(&mut buf, &mut self.buffer);
        if buf.len() >= self.limit {
            return Err(Error::FrameTooLarge);
        }
        buf.push(byte);
        self.buffer = buf;
        if ends_with_bytes(&self.buffer, &eor) || ends_with_bytes(&self.buffer, &bor) {
            match self.extract() {
                Err(e) => {
                    self.buffer = Vec::new();
                    Err(e)
                },
                Ok(m) => Ok(m),
            }
        } else {
            Ok(None)
        }
    }

    /// Feed received bytes; every completed message is returned in wire order.
    pub fn feed(&mut self, bytes: &[u8]) -> (r: Result<Vec<Message>, Error>)
        ensures
            final(self).limit() == old(self).limit(),
            final(self).buffered().len() <= final(self).limit(),
            final(self).buffered() == feed_spec(old(self).buffered(), old(self).limit(), bytes@).1,
            match feed_spec(old(self).buffered(), old(self).limit(), bytes@).0 {
                Ok(ms) => r is Ok && messages_view(r->Ok_0@) == ms,
                Err(e) => r == Err::<Vec<Message>, Error>(e),
            },
    {
        proof {
            use_type_invariant(&*self);
        }
        let ghost buf0 = self.buffer@;
        let mut messages: Vec<Message> = Vec::new();
        let mut i: usize = 0;
        assert(bytes@.skip(0) =~= bytes@);
        assert(messages_view(messages@) =~= Seq::<MessageView>::empty());
        while i < bytes.len()
            invariant
                i <= bytes@.len(),
                self.limit == old(self).limit,
                buf0 == old(self).buffer@,
                self.buffer@.len() <= self.limit,
                feed_spec(buf0, self.limit as nat, bytes@) == prefixed(
                    messages_view(messages@),
                    feed_spec(self.buffer@, self.limit as nat, bytes@.skip(i as int)),
                ),
            decreases bytes@.len() - i,
        {
            let ghost msgs_before = messages@;
            let ghost before = self.buffer@;
            let ghost rest = bytes@.skip(i as int);
            assert(rest[0] == bytes@[i as int]);
            assert(rest.drop_first() =~= bytes@.skip(i + 1));
            match self.step(bytes[i]) {
                Err(e) => {
                    proof {
                        use_type_invariant(&*self);
                    }
                    assert(step_spec(before, self.limit as nat, rest[0]) == Err::<
                        (Seq<MessageView>, Seq<u8>),
                        Error,
                    >(e));
                    assert(feed_spec(before, self.limit as nat, rest) == (
                        Err::<Seq<MessageView>, Error>(e),
                        Seq::<u8>::empty(),
                    ));
                    return Err(e);
                },
                Ok(Some(m)) => {
                    messages.push(m);
                    proof {
                        lemma_prefixed_assoc(
                            messages_view(msgs_before),
                            seq![m@],
                            feed_spec(self.buffer@, self.limit as nat, bytes@.skip(i + 1)),
                        );
                        assert(messages_view(msgs_before) + seq![m@] =~= messages_view(messages@));
                    }
                },
                Ok(None) => {
                    proof {
                        lemma_prefixed_assoc(
                            messages_view(msgs_before),
                            Seq::<MessageView>::empty(),
                            feed_spec(self.buffer@, self.limit as nat, bytes@.skip(i + 1)),
                        );
                        assert(messages_view(msgs_before) + Seq::<MessageView>::empty()
                            =~= messages_view(messages@));
                    }
                },
            }
            i += 1;
        }
        proof {
            assert(messages_view(messages@) + Seq::<MessageView>::empty() =~= messages_view(
                messages@,
            ));
            use_type_invariant(&*self);
        }
        Ok(messages)
    }
}

/// A chosen frame end lies within the tail.
proof fn lemma_frame_end_bound(tail: Seq<u8>)
    ensures
        frame_end(tail) matches Some((e, skip)) ==> 0 <= e && e + skip <= tail.len() && (skip == 0
            || skip == 10),
{
    lemma_find_sub(tail, eor_mark());
    lemma_find_sub(tail, bor_mark());
}

} // verus!
