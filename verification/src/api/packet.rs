//! API responses and events: `CMD` framing of the received byte stream and the
//! reading of a record's ID and paired tags.
use vstd::prelude::*;
use vstd::string::StrSliceExecFns;
use vstd::utf8::{decode_utf8, valid_utf8};
use crate::api::catalog::{version_spec, Version};
use crate::error::Error;
use crate::network::message::eq_lit;
use crate::number::{parse_bounded, parse_bounded_exec};
use crate::text::{
    chars_of, contains_sub, eq_ignore_case, eq_ignore_case_range, find_in, find_sub,
    is_ascii_alnum, is_ascii_alpha_exec, is_ascii_digit_exec, lemma_find_sub, starts_with,
    string_of, trim, trim_bounds, upper, upper_vec,
};

verus! {

/// The received payload is retained, including nested/repeated records and unknown events.
#[derive(Clone, Debug, PartialEq, Eq)]
pub struct Packet {
    id: String,
    body: String,
}

/// A packet: its upper-cased ID and its trimmed body.
pub ghost struct PacketView {
    pub id: Seq<char>,
    pub body: Seq<char>,
}

impl View for Packet {
    type V = PacketView;

    closed spec fn view(&self) -> PacketView {
        PacketView { id: self.id@, body: self.body@ }
    }
}

/// The logger's answer to `PROGRAM`.
#[derive(Clone, Debug, PartialEq, Eq)]
pub struct ProgramInfo {
    pub name: String,
    pub program_version: String,
    pub api_version: Version,
}

/// A character of a response ID or tag name.
pub open spec fn id_char(c: char) -> bool {
    is_ascii_alnum(c) || c == '_'
}

/// Every character is an ID character.
pub open spec fn all_id_chars(s: Seq<char>) -> bool {
    forall|i: int| 0 <= i < s.len() ==> id_char(#[trigger] s[i])
}

/// What reading a record body (between `<CMD>` and `</CMD>`) gives.
pub open spec fn packet_spec(body: Seq<char>) -> Result<PacketView, Error> {
    let b = trim(body);
    if !starts_with(b, seq!['<']) {
        Err(Error::MissingResponseId)
    } else {
        let rest = b.skip(1);
        match find_sub(rest, seq!['>']) {
            None => Err(Error::UnterminatedResponseId),
            Some(i) => {
                let id = rest.take(i);
                if id.len() == 0 || !all_id_chars(id) || eq_ignore_case(id, "CMD"@) {
                    Err(Error::InvalidResponseId)
                } else if contains_sub(upper(b), "<CMD>"@) || contains_sub(upper(b), "</CMD>"@) {
                    Err(Error::NestedApiFrame)
                } else {
                    Ok(PacketView { id: upper(id), body: b })
                }
            },
        }
    }
}

/// The values of the paired tags `<NAME>value</NAME>` of `body` from `offset` on,
/// matched case-insensitively in `u` (the upper-cased body).
pub open spec fn values_from(
    u: Seq<char>,
    body: Seq<char>,
    open_tag: Seq<char>,
    close_tag: Seq<char>,
    offset: int,
) -> Seq<Seq<char>>
    decreases u.len() - offset,
{
    if offset < 0 || offset > u.len() || open_tag.len() == 0 {
        seq![]
    } else {
        match find_sub(u.skip(offset), open_tag) {
            None => seq![],
            Some(i) => {
                let begin = offset + i + open_tag.len();
                proof {
                    lemma_find_sub(u.skip(offset), open_tag);
                }
                match find_sub(u.skip(begin), close_tag) {
                    None => seq![],
                    Some(j) => {
                        proof {
                            lemma_find_sub(u.skip(begin), close_tag);
                        }
                        seq![body.subrange(begin, begin + j)] + values_from(
                            u,
                            body,
                            open_tag,
                            close_tag,
                            begin + j + close_tag.len(),
                        )
                    },
                }
            },
        }
    }
}

/// The values of every paired tag `name` (ASCII case-insensitive), unchanged and in order.
pub open spec fn values_spec(body: Seq<char>, name: Seq<char>) -> Seq<Seq<char>> {
    if name.len() == 0 || !all_id_chars(name) {
        seq![]
    } else {
        values_from(
            upper(body),
            body,
            seq!['<'] + upper(name) + seq!['>'],
            seq!['<', '/'] + upper(name) + seq!['>'],
            0,
        )
    }
}

/// The value of the first paired tag `name`.
pub open spec fn value_spec(body: Seq<char>, name: Seq<char>) -> Option<Seq<char>> {
    let vs = values_spec(body, name);
    if vs.len() > 0 {
        Some(vs[0])
    } else {
        None
    }
}

/// A program description, with texts as character sequences.
pub ghost struct ProgramInfoView {
    pub name: Seq<char>,
    pub program_version: Seq<char>,
    pub api_version: Version,
}

/// What reading a `PROGRAMRESPONSE` gives (`None` for any other packet).
pub open spec fn program_info_spec(p: PacketView) -> Result<Option<ProgramInfoView>, Error> {
    if p.id != "PROGRAMRESPONSE"@ {
        Ok(None)
    } else {
        match (
            value_spec(p.body, "PGM"@),
            value_spec(p.body, "VER"@),
            value_spec(p.body, "APIVER"@),
        ) {
            (Some(n), Some(v), Some(a)) => match version_spec(a) {
                Some(api) => Ok(
                    Some(ProgramInfoView { name: n, program_version: v, api_version: api }),
                ),
                None => Err(Error::InvalidVersion),
            },
            _ => Err(Error::IncompleteProgramResponse),
        }
    }
}

/// What reading an `ENTERRESPONSE` gives (`None` for any other packet).
pub open spec fn entered_records_spec(p: PacketView) -> Result<Option<u32>, Error> {
    if p.id != "ENTERRESPONSE"@ {
        Ok(None)
    } else {
        match value_spec(p.body, "VALUE"@) {
            None => Err(Error::MissingEnterCount),
            Some(v) => match parse_bounded(v, 10, u32::MAX as nat) {
                Some(n) => Ok(Some(n as u32)),
                None => Err(Error::InvalidEnterCount),
            },
        }
    }
}

/// The view of a result holding a packet.
pub open spec fn packet_result(r: Result<Packet, Error>) -> Result<PacketView, Error> {
    match r {
        Ok(p) => Ok(p@),
        Err(e) => Err(e),
    }
}

/// Whether every character of `v[from..to]` is an ID character.
fn all_id_chars_range(v: &[char], from: usize, to: usize) -> (b: bool)
    requires
        from <= to <= v@.len(),
    ensures
        b == all_id_chars(v@.subrange(from as int, to as int)),
{
    let ghost s = v@.subrange(from as int, to as int);
    let mut i = from;
    while i < to
        invariant
            from <= i <= to <= v@.len(),
            s == v@.subrange(from as int, to as int),
            forall|j: int| 0 <= j < i - from ==> id_char(#[trigger] s[j]),
        decreases to - i,
    {
        let c = v[i];
        if !(is_ascii_alpha_exec(c) || is_ascii_digit_exec(c) || c == '_') {
            assert(!id_char(s[i - from]));
            return false;
        }
        i += 1;
    }
    true
}

impl Packet {
    /// Read a record body: `<ID>` first, no nested `CMD` frame.
    pub fn parse(body: &str) -> (r: Result<Packet, Error>)
        ensures
            packet_result(r) == packet_spec(body@),
    {
        let v = chars_of(body);
        assert(v@.subrange(0, v@.len() as int) =~= v@);
        let (a, e) = trim_bounds(&v, 0, v.len());
        let ghost b = v@.subrange(a as int, e as int);
        if a == e || v[a] != '<' {
            assert(!starts_with(b, seq!['<'])) by {
                if a < e {
                    assert(b.take(1)[0] == v@[a as int]);
                }
            }
            return Err(Error::MissingResponseId);
        }
        assert(b.take(1) =~= seq!['<']);
        let ghost rest = b.skip(1);
        assert(rest =~= v@.subrange(a + 1, e as int));
        let gt = ['>'];
        assert(gt@ == seq!['>']);
        let i = match find_in(&v, &gt, a + 1, e) {
            None => {
                return Err(Error::UnterminatedResponseId);
            },
            Some(i) => i,
        };
        proof {
            lemma_find_sub(rest, seq!['>']);
        }
        assert(rest.take(i - (a + 1)) =~= v@.subrange(a + 1, i as int));
        let cmd = ['C', 'M', 'D'];
        proof {
            reveal_strlit("CMD");
        }
        assert(cmd@ =~= "CMD"@);
        if i == a + 1 || !all_id_chars_range(&v, a + 1, i) || eq_ignore_case_range(
            &v,
            a + 1,
            i,
            &cmd,
        ) {
            return Err(Error::InvalidResponseId);
        }
        let mut trimmed: Vec<char> = Vec::new();
        crate::text::vec_extend(&mut trimmed, &v, a, e);
        assert(trimmed@ =~= b);
        let u = upper_vec(&trimmed);
        let open = chars_of("<CMD>");
        let close = chars_of("</CMD>");
        assert(u@.subrange(0, u@.len() as int) =~= u@);
        if find_in(&u, &open, 0, u.len()).is_some() || find_in(&u, &close, 0, u.len()).is_some() {
            return Err(Error::NestedApiFrame);
        }
        let mut raw: Vec<char> = Vec::new();
        crate::text::vec_extend(&mut raw, &v, a + 1, i);
        assert(raw@ =~= v@.subrange(a + 1, i as int));
        let idv = upper_vec(&raw);
        assert(idv@.subrange(0, idv@.len() as int) =~= idv@);
        let id = string_of(&idv, 0, idv.len());
        let body = string_of(&v, a, e);
        Ok(Packet { id, body })
    }

    /// The upper-cased record ID, such as `PROGRAMRESPONSE`.
    pub fn id(&self) -> (r: &str)
        ensures
            r@ == self@.id,
    {
        self.id.as_str()
    }

    /// The trimmed record body, byte for byte.
    pub fn body(&self) -> (r: &str)
        ensures
            r@ == self@.body,
    {
        self.body.as_str()
    }

    /// Paired tags are case-insensitive; values remain unchanged. This also
    /// supports non-XML tag names such as 20MIN and nested record bodies.
    pub fn values(&self, name: &str) -> (r: Vec<&str>)
        ensures
            r@.map_values(|s: &str| s@) == values_spec(self@.body, name@),
    {
        let nv = chars_of(name);
        assert(nv@.subrange(0, nv@.len() as int) =~= nv@);
        if nv.len() == 0 || !all_id_chars_range(&nv, 0, nv.len()) {
            let r: Vec<&str> = Vec::new();
            assert(r@.map_values(|s: &str| s@) =~= Seq::<Seq<char>>::empty());
            return r;
        }
        let un = upper_vec(&nv);
        let mut open: Vec<char> = Vec::new();
        open.push('<');
        crate::text::vec_extend(&mut open, &un, 0, un.len());
        open.push('>');
        let mut close: Vec<char> = Vec::new();
        close.push('<');
        close.push('/');
        crate::text::vec_extend(&mut close, &un, 0, un.len());
        close.push('>');
        assert(un@.subrange(0, un@.len() as int) =~= un@);
        assert(open@ =~= seq!['<'] + upper(name@) + seq!['>']);
        assert(close@ =~= seq!['<', '/'] + upper(name@) + seq!['>']);
        let bv = chars_of(self.body.as_str());
        let u = upper_vec(&bv);
        let ghost ub = upper(self@.body);
        let mut out: Vec<&str> = Vec::new();
        let mut offset: usize = 0;
        while offset <= u.len()
            invariant
                offset <= u@.len() + 1,
                u@ == ub,
                ub.len() == bv@.len(),
                bv@ == self@.body,
                open@.len() > 0,
                offset <= u@.len() ==> values_spec(self@.body, name@) == out@.map_values(
                    |s: &str| s@,
                ) + values_from(ub, self@.body, open@, close@, offset as int),
                offset > u@.len() ==> values_spec(self@.body, name@) == out@.map_values(
                    |s: &str| s@,
                ),
            decreases u@.len() + 1 - offset,
        {
            let ghost before = out@;
            assert(u@.subrange(offset as int, u@.len() as int) =~= ub.skip(offset as int));
            match find_in(&u, &open, offset, u.len()) {
                None => {
                    assert(before.map_values(|s: &str| s@) + Seq::<Seq<char>>::empty()
                        =~= before.map_values(|s: &str| s@));
                    return out;
                },
                Some(i) => {
                    proof {
                        lemma_find_sub(ub.skip(offset as int), open@);
                    }
                    let begin = i + open.len();
                    assert(u@.subrange(begin as int, u@.len() as int) =~= ub.skip(begin as int));
                    match find_in(&u, &close, begin, u.len()) {
                        None => {
                            assert(before.map_values(|s: &str| s@) + Seq::<Seq<char>>::empty()
                                =~= before.map_values(|s: &str| s@));
                            return out;
                        },
                        Some(j) => {
                            proof {
                                lemma_find_sub(ub.skip(begin as int), close@);
                            }
                            let piece = self.body.as_str().substring_char(begin, j);
                            out.push(piece);
                            let next = j + close.len();
                            assert(out@.map_values(|s: &str| s@) =~= before.map_values(|s: &str| s@)
                                + seq![self@.body.subrange(begin as int, j as int)]);
                            proof {
                                if next <= u@.len() {
                                    assert(before.map_values(|s: &str| s@) + (seq![
                                        self@.body.subrange(begin as int, j as int),
                                    ] + values_from(ub, self@.body, open@, close@, next as int))
                                        =~= out@.map_values(|s: &str| s@) + values_from(
                                        ub,
                                        self@.body,
                                        open@,
                                        close@,
                                        next as int,
                                    ));
                                }
                            }
                            offset = next;
                        },
                    }
                },
            }
        }
        out
    }

    /// The value of the first paired tag `name`.
    pub fn value(&self, name: &str) -> (r: Option<&str>)
        ensures
            match r {
                Some(v) => value_spec(self@.body, name@) == Some(v@),
                None => value_spec(self@.body, name@) is None,
            },
    {
        let vs = self.values(name);
        if vs.len() > 0 {
            assert(vs@.map_values(|s: &str| s@)[0] == vs@[0]@);
            Some(vs[0])
        } else {
            None
        }
    }

    /// The program description carried by a `PROGRAMRESPONSE`.
    pub fn program_info(&self) -> (r: Result<Option<ProgramInfo>, Error>)
        ensures
            match program_info_spec(self@) {
                Ok(None) => r == Ok::<Option<ProgramInfo>, Error>(None),
                Ok(Some(info)) => r matches Ok(Some(p)) && p.name@ == info.name && p.program_version@
                    == info.program_version && p.api_version == info.api_version,
                Err(e) => r == Err::<Option<ProgramInfo>, Error>(e),
            },
    {
        let idv = chars_of(self.id.as_str());
        assert(idv@.subrange(0, idv@.len() as int) =~= idv@);
        if !eq_lit(&idv, 0, idv.len(), "PROGRAMRESPONSE") {
            return Ok(None);
        }
        let name = match self.value("PGM") {
            Some(n) => n,
            None => {
                return Err(Error::IncompleteProgramResponse);
            },
        };
        let ver = match self.value("VER") {
            Some(n) => n,
            None => {
                return Err(Error::IncompleteProgramResponse);
            },
        };
        let api = match self.value("APIVER") {
            Some(n) => n,
            None => {
                return Err(Error::IncompleteProgramResponse);
            },
        };
        let api_version = Version::parse(api)?;
        Ok(
            Some(
                ProgramInfo {
                    name: name.to_owned(),
                    program_version: ver.to_owned(),
                    api_version,
                },
            ),
        )
    }

    /// Only `ENTERRESPONSE` supplies this count; `ENTEREVENT` is not an acknowledgment.
    pub fn entered_records(&self) -> (r: Result<Option<u32>, Error>)
        ensures
            r == entered_records_spec(self@),
    {
        let idv = chars_of(self.id.as_str());
        assert(idv@.subrange(0, idv@.len() as int) =~= idv@);
        if !eq_lit(&idv, 0, idv.len(), "ENTERRESPONSE") {
            return Ok(None);
        }
        let v = match self.value("VALUE") {
            Some(v) => v,
            None => {
                return Err(Error::MissingEnterCount);
            },
        };
        let vv = chars_of(v);
        assert(vv@.subrange(0, vv@.len() as int) =~= vv@);
        match parse_bounded_exec(&vv, 0, vv.len(), 10, 0xFFFF_FFFF) {
            Some(n) => Ok(Some(n as u32)),
            None => Err(Error::InvalidEnterCount),
        }
    }
}

/// ASCII upper-casing of one byte.
pub open spec fn upper_byte(b: u8) -> u8 {
    if 97 <= b && b <= 122 {
        (b - 32) as u8
    } else {
        b
    }
}

/// Equal byte strings up to ASCII case.
pub open spec fn bytes_eq_ci(a: Seq<u8>, b: Seq<u8>) -> bool {
    a.len() == b.len() && forall|i: int| 0 <= i < a.len() ==> upper_byte(#[trigger] a[i]) == upper_byte(
        b[i],
    )
}

/// `<CMD>`.
pub open spec fn cmd_open() -> Seq<u8> {
    seq![60u8, 67, 77, 68, 62]
}

/// `</CMD>`.
pub open spec fn cmd_close() -> Seq<u8> {
    seq![60u8, 47, 67, 77, 68, 62]
}

/// The packet in a frame's body bytes: they must be UTF-8.
pub open spec fn frame_packet(b: Seq<u8>) -> Result<PacketView, Error> {
    if !valid_utf8(b) {
        Err(Error::InvalidUtf8)
    } else {
        packet_spec(decode_utf8(b))
    }
}

/// The smaller of two numbers.
pub open spec fn min_nat(a: nat, b: nat) -> nat {
    if a < b {
        a
    } else {
        b
    }
}

/// One received byte. CR and LF between records are skipped; the buffer must
/// always begin like `<CMD>` (in any case) and stay within the limit; a record
/// is complete when the buffer ends with `</CMD>`.
#[verifier::opaque]
pub open spec fn api_step(buf: Seq<u8>, limit: nat, byte: u8) -> Result<
    (Seq<PacketView>, Seq<u8>),
    Error,
> {
    if buf.len() == 0 && (byte == 13 || byte == 10) {
        Ok((seq![], buf))
    } else {
        let b1 = buf.push(byte);
        let k = min_nat(b1.len(), 5) as int;
        if b1.len() > limit {
            Err(Error::FrameTooLarge)
        } else if !bytes_eq_ci(b1.take(k), cmd_open().take(k)) {
            Err(Error::UnexpectedBytes)
        } else if b1.len() >= 6 && bytes_eq_ci(b1.skip(b1.len() - 6), cmd_close()) {
            match frame_packet(b1.subrange(5, b1.len() - 6)) {
                Err(e) => Err(e),
                Ok(p) => Ok((seq![p], seq![])),
            }
        } else {
            Ok((seq![], b1))
        }
    }
}

/// Packets `ps` prepended to a feeding outcome.
pub open spec fn api_prefixed(ps: Seq<PacketView>, fr: (Result<Seq<PacketView>, Error>, Seq<u8>)) -> (
    Result<Seq<PacketView>, Error>,
    Seq<u8>,
) {
    (
        match fr.0 {
            Ok(rest) => Ok(ps + rest),
            Err(e) => Err(e),
        },
        fr.1,
    )
}

/// Feeding bytes in order: the records completed and the buffer left. An
/// error discards the buffer.
pub open spec fn api_feed_spec(buf: Seq<u8>, limit: nat, bytes: Seq<u8>) -> (
    Result<Seq<PacketView>, Error>,
    Seq<u8>,
)
    decreases bytes.len(),
{
    if bytes.len() == 0 {
        (Ok(seq![]), buf)
    } else {
        match api_step(buf, limit, bytes[0]) {
            Err(e) => (Err(e), seq![]),
            Ok((ps, b2)) => api_prefixed(ps, api_feed_spec(b2, limit, bytes.drop_first())),
        }
    }
}

/// Prepending twice is prepending the joined packets.
pub proof fn lemma_api_prefixed_assoc(
    a: Seq<PacketView>,
    b: Seq<PacketView>,
    fr: (Result<Seq<PacketView>, Error>, Seq<u8>),
)
    ensures
        api_prefixed(a, api_prefixed(b, fr)) == api_prefixed(a + b, fr),
{
    if let Ok(rest) = fr.0 {
        assert(a + (b + rest) =~= (a + b) + rest);
    }
}

/// TCP reads may split anywhere or coalesce many records: feeding two chunks
/// one after the other gives what feeding them joined gives.
pub proof fn lemma_api_feed_split(buf: Seq<u8>, limit: nat, a: Seq<u8>, b: Seq<u8>)
    ensures
        api_feed_spec(buf, limit, a).0 is Ok ==> api_feed_spec(buf, limit, a + b) == api_prefixed(
            api_feed_spec(buf, limit, a).0->Ok_0,
            api_feed_spec(api_feed_spec(buf, limit, a).1, limit, b),
        ),
    decreases a.len(),
{
    if a.len() == 0 {
        assert(a + b =~= b);
        assert(Seq::<PacketView>::empty() + api_feed_spec(buf, limit, b).0->Ok_0 =~= api_feed_spec(
            buf,
            limit,
            b,
        ).0->Ok_0);
    } else {
        assert((a + b)[0] == a[0]);
        assert((a + b).drop_first() =~= a.drop_first() + b);
        match api_step(buf, limit, a[0]) {
            Err(_) => {},
            Ok((ps, b2)) => {
                lemma_api_feed_split(b2, limit, a.drop_first(), b);
                let fa = api_feed_spec(b2, limit, a.drop_first());
                if fa.0 is Ok {
                    lemma_api_prefixed_assoc(ps, fa.0->Ok_0, api_feed_spec(fa.1, limit, b));
                }
            },
        }
    }
}

/// A buffer that begins like `<CMD>` and ends with `</CMD>` holds both whole.
proof fn lemma_frame_len(b: Seq<u8>)
    requires
        b.len() >= 6,
        bytes_eq_ci(b.take(min_nat(b.len(), 5) as int), cmd_open().take(min_nat(b.len(), 5) as int)),
        bytes_eq_ci(b.skip(b.len() - 6), cmd_close()),
    ensures
        b.len() >= 11,
{
    if b.len() < 11 {
        let s = b.len() - 6;
        let p = b.take(5);
        let q = b.skip(s);
        assert(upper_byte(q[0]) == upper_byte(cmd_close()[0]));
        assert(upper_byte(q[1]) == upper_byte(cmd_close()[1]));
        assert(q[0] == b[s]);
        assert(q[1] == b[s + 1]);
        assert(upper_byte(p[s]) == upper_byte(cmd_open()[s]));
        assert(p[s] == b[s]);
        if s + 1 < 5 {
            assert(upper_byte(p[s + 1]) == upper_byte(cmd_open()[s + 1]));
            assert(p[s + 1] == b[s + 1]);
        }
    }
}

/// `std::str::from_utf8`: the text that UTF-8 bytes encode, if they are valid UTF-8.
#[verifier::external_body]
fn utf8_text(bytes: &[u8]) -> (r: Option<&str>)
    ensures
        r is Some <==> valid_utf8(bytes@),
        r matches Some(s) ==> s@ == decode_utf8(bytes@),
{
    std::str::from_utf8(bytes).ok()
}

fn upper_byte_exec(b: u8) -> (r: u8)
    ensures
        r == upper_byte(b),
{
    if 97 <= b && b <= 122 {
        b - 32
    } else {
        b
    }
}

/// Whether `h[from..from + p.len()]` equals `p` up to ASCII case.
fn bytes_eq_ci_at(h: &[u8], from: usize, p: &[u8], n: usize) -> (b: bool)
    requires
        from + n <= h@.len(),
        n <= p@.len(),
    ensures
        b == bytes_eq_ci(h@.subrange(from as int, from + n), p@.take(n as int)),
{
    let hl = h.len();
    let mut k: usize = 0;
    while k < n
        invariant
            hl == h@.len(),
            k <= n <= p@.len(),
            from + n <= h@.len(),
            forall|j: int| 0 <= j < k ==> upper_byte(h@[from + j]) == upper_byte(p@[j]),
        decreases n - k,
    {
        if upper_byte_exec(h[from + k]) != upper_byte_exec(p[k]) {
            assert(h@.subrange(from as int, from + n)[k as int] == h@[from + k]);
            assert(p@.take(n as int)[k as int] == p@[k as int]);
            return false;
        }
        k += 1;
    }
    assert forall|j: int| 0 <= j < n implies upper_byte(
        #[trigger] h@.subrange(from as int, from + n)[j],
    ) == upper_byte(p@.take(n as int)[j]) by {
        assert(h@.subrange(from as int, from + n)[j] == h@[from + j]);
    }
    true
}

/// Incremental CMD framing. TCP reads may split anywhere or coalesce many records.
/// UTF-8 responses are accepted without lossy conversion; outgoing commands are ASCII.
pub struct Decoder {
    buffer: Vec<u8>,
    limit: usize,
}

/// The views of a list of packets.
pub open spec fn packets_view(ps: Seq<Packet>) -> Seq<PacketView> {
    ps.map_values(|p: Packet| p@)
}

impl Decoder {
    /// Never more bytes buffered than the limit.
    #[verifier::type_invariant]
    spec fn within_limit(&self) -> bool {
        self.buffer@.len() <= self.limit
    }

    /// The bytes of the record in progress.
    pub closed spec fn buffered(&self) -> Seq<u8> {
        self.buffer@
    }

    /// The largest number of bytes that a record may take.
    pub closed spec fn limit(&self) -> nat {
        self.limit as nat
    }

    /// A decoder with an empty buffer and the given record limit.
    pub fn new(max_frame_bytes: usize) -> (d: Self)
        ensures
            d.buffered() == Seq::<u8>::empty(),
            d.limit() == max_frame_bytes,
    {
        Decoder { buffer: Vec::new(), limit: max_frame_bytes }
    }

    /// The number of bytes of the record in progress.
    pub fn pending_bytes(&self) -> (n: usize)
        ensures
            n == self.buffered().len(),
    {
        self.buffer.len()
    }

    fn step(&mut self, byte: u8) -> (r: Result<Option<Packet>, Error>)
        ensures
            final(self).limit == old(self).limit,
            match api_step(old(self).buffer@, old(self).limit as nat, byte) {
                Ok((ps, nb)) => r is Ok && final(self).buffer@ == nb && ps == match r->Ok_0 {
                    Some(p) => seq![p@],
                    None => Seq::<PacketView>::empty(),
                },
                Err(e) => r == Err::<Option<Packet>, Error>(e) && final(self).buffer@ == Seq::<
                    u8,
                >::empty(),
            },
    {
        proof {
            reveal(api_step);
            use_type_invariant(&*self);
        }
        if self.buffer.len() == 0 && (byte == 13 || byte == 10) {
            return Ok(None);
        }
        let mut buf: Vec<u8> = Vec::new();
        std::mem::swap(&mut buf, &mut self.buffer);
        if buf.len() >= self.limit {
            return Err(Error::FrameTooLarge);
        }
        buf.push(byte);
        let n = buf.len();
        let k = if n < 5 {
            n
        } else {
            5
        };
        let open = [60u8, 67, 77, 68, 62];
        let close = [60u8, 47, 67, 77, 68, 62];
        assert(open@ == cmd_open());
        assert(close@ == cmd_close());
        assert(buf@.subrange(0, k as int) =~= buf@.take(k as int));
        if !bytes_eq_ci_at(&buf, 0, &open, k) {
            return Err(Error::UnexpectedBytes);
        }
        if n >= 6 {
            assert(buf@.subrange(n - 6, n as int) =~= buf@.skip(n - 6));
            assert(close@.take(6) =~= close@);
        }
        if n >= 6 && bytes_eq_ci_at(&buf, n - 6, &close, 6) {
            proof {
                lemma_frame_len(buf@);
            }
            let payload = &buf.as_slice()[5..n - 6];
            let text = match utf8_text(payload) {
                None => {
                    return Err(Error::InvalidUtf8);
                },
                Some(t) => t,
            };
            let p = Packet::parse(text)?;
            Ok(Some(p))
        } else {
            self.buffer = buf;
            Ok(None)
        }
    }

    /// Feed received bytes; every complete record is returned in wire order.
    /// An error discards the partial record.
    pub fn feed(&mut self, bytes: &[u8]) -> (r: Result<Vec<Packet>, Error>)
        ensures
            final(self).limit() == old(self).limit(),
            final(self).buffered().len() <= final(self).limit(),
            final(self).buffered() == api_feed_spec(old(self).buffered(), old(self).limit(), bytes@).1,
            match api_feed_spec(old(self).buffered(), old(self).limit(), bytes@).0 {
                Ok(ps) => r is Ok && packets_view(r->Ok_0@) == ps,
                Err(e) => r == Err::<Vec<Packet>, Error>(e),
            },
    {
        proof {
            use_type_invariant(&*self);
        }
        let ghost buf0 = self.buffer@;
        let mut packets: Vec<Packet> = Vec::new();
        let mut i: usize = 0;
        assert(bytes@.skip(0) =~= bytes@);
        assert(packets_view(packets@) =~= Seq::<PacketView>::empty());
        while i < bytes.len()
            invariant
                i <= bytes@.len(),
                self.limit == old(self).limit,
                buf0 == old(self).buffer@,
                api_feed_spec(buf0, self.limit as nat, bytes@) == api_prefixed(
                    packets_view(packets@),
                    api_feed_spec(self.buffer@, self.limit as nat, bytes@.skip(i as int)),
                ),
            decreases bytes@.len() - i,
        {
            let ghost before_ps = packets@;
            let ghost before = self.buffer@;
            let ghost rest = bytes@.skip(i as int);
            assert(rest[0] == bytes@[i as int]);
            assert(rest.drop_first() =~= bytes@.skip(i + 1));
            match self.step(bytes[i]) {
                Err(e) => {
                    proof {
                        use_type_invariant(&*self);
                    }
                    assert(api_feed_spec(before, self.limit as nat, rest) == (
                        Err::<Seq<PacketView>, Error>(e),
                        Seq::<u8>::empty(),
                    ));
                    return Err(e);
                },
                Ok(Some(p)) => {
                    packets.push(p);
                    proof {
                        lemma_api_prefixed_assoc(
                            packets_view(before_ps),
                            seq![p@],
                            api_feed_spec(self.buffer@, self.limit as nat, bytes@.skip(i + 1)),
                        );
                        assert(packets_view(before_ps) + seq![p@] =~= packets_view(packets@));
                    }
                },
                Ok(None) => {
                    proof {
                        lemma_api_prefixed_assoc(
                            packets_view(before_ps),
                            Seq::<PacketView>::empty(),
                            api_feed_spec(self.buffer@, self.limit as nat, bytes@.skip(i + 1)),
                        );
                        assert(packets_view(before_ps) + Seq::<PacketView>::empty() =~= packets_view(
                            packets@,
                        ));
                    }
                },
            }
            i += 1;
        }
        proof {
            assert(packets_view(packets@) + Seq::<PacketView>::empty() =~= packets_view(packets@));
            use_type_invariant(&*self);
        }
        Ok(packets)
    }
}

/// Reading a `PROGRAMRESPONSE` takes each part from its own tag: the name
/// from the first `PGM` tag, the program version from the first `VER` tag and
/// the API version from the first `APIVER` tag, as `Packet::value` reads
/// them. Any other packet gives nothing; a response with all three tags and
/// a readable API version always gives its description.
pub proof fn lemma_program_info_tags(p: PacketView)
    ensures
        p.id != "PROGRAMRESPONSE"@ ==> program_info_spec(p) == Ok::<Option<ProgramInfoView>, Error>(None),
        program_info_spec(p) matches Ok(Some(info)) ==> {
            &&& p.id == "PROGRAMRESPONSE"@
            &&& value_spec(p.body, "PGM"@) == Some(info.name)
            &&& value_spec(p.body, "VER"@) == Some(info.program_version)
            &&& value_spec(p.body, "APIVER"@) matches Some(a) && version_spec(a) == Some(info.api_version)
        },
        (p.id == "PROGRAMRESPONSE"@ && value_spec(p.body, "PGM"@) is Some && value_spec(p.body, "VER"@)
            is Some && value_spec(p.body, "APIVER"@) is Some && version_spec(
            value_spec(p.body, "APIVER"@)->0,
        ) is Some) ==> program_info_spec(p) is Ok && program_info_spec(p)->Ok_0 is Some,
{
}

/// Reading an `ENTERRESPONSE` gives the decimal number in its first `VALUE`
/// tag, as `Packet::value` reads it; any other packet gives nothing.
pub proof fn lemma_entered_records_tag(p: PacketView)
    ensures
        p.id != "ENTERRESPONSE"@ ==> entered_records_spec(p) == Ok::<Option<u32>, Error>(None),
        entered_records_spec(p) matches Ok(Some(n)) ==> {
            &&& p.id == "ENTERRESPONSE"@
            &&& value_spec(p.body, "VALUE"@) matches Some(v) && parse_bounded(v, 10, u32::MAX as nat)
                == Some(n as nat)
        },
{
}

} // verus!
