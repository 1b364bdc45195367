//! WSJT-family modes: names, slot lengths, adapter capabilities, and the
//! packing of standard three-field messages into 77-bit payloads. Waveform
//! synthesis and decoding run outside, on floating-point audio.
use vstd::prelude::*;
use super::ModemId;
use std::time::Duration;
use crate::network::message::strings_view;
use crate::number::{decimal, parse_bounded, parse_bounded_exec};
use crate::text::{chars_of, ends_with, eq_ignore_case, eq_ignore_case_range, is_whitespace, is_whitespace_exec, push_char};

verus! {

/// Sample rate of WSJT-family audio, in Hz.
pub const SAMPLE_RATE_HZ: u32 = 12_000;

/// FST4 submodes, named by their slot length.
#[derive(Debug, Clone, Copy, PartialEq, Eq, Structural)]
pub enum Fst4Submode {
    S15,
    S30,
    S60,
    S120,
    S300,
}

/// Q65 submodes: tone spacing letter and slot length.
#[derive(Debug, Clone, Copy, PartialEq, Eq, Structural)]
pub enum Q65Submode {
    A15,
    A30,
    A60,
    B60,
    C60,
    D60,
    E60,
    D120,
    E120,
    A300,
}

/// Slot length of a Q65 submode, in seconds.
pub open spec fn q65_seconds(m: Q65Submode) -> nat {
    match m {
        Q65Submode::A15 => 15,
        Q65Submode::A30 => 30,
        Q65Submode::A60 | Q65Submode::B60 | Q65Submode::C60 | Q65Submode::D60
        | Q65Submode::E60 => 60,
        Q65Submode::D120 | Q65Submode::E120 => 120,
        Q65Submode::A300 => 300,
    }
}

/// Adapter name of a Q65 submode.
pub open spec fn q65_name(m: Q65Submode) -> Seq<char> {
    match m {
        Q65Submode::A15 => "q65-a15"@,
        Q65Submode::A30 => "q65-a30"@,
        Q65Submode::A60 => "q65-a60"@,
        Q65Submode::B60 => "q65-b60"@,
        Q65Submode::C60 => "q65-c60"@,
        Q65Submode::D60 => "q65-d60"@,
        Q65Submode::E60 => "q65-e60"@,
        Q65Submode::D120 => "q65-d120"@,
        Q65Submode::E120 => "q65-e120"@,
        Q65Submode::A300 => "q65-a300"@,
    }
}

impl Q65Submode {
    /// Slot length in seconds.
    pub fn seconds(self) -> (r: u64)
        ensures
            r == q65_seconds(self),
    {
        match self {
            Self::A15 => 15,
            Self::A30 => 30,
            Self::A60 | Self::B60 | Self::C60 | Self::D60 | Self::E60 => 60,
            Self::D120 | Self::E120 => 120,
            Self::A300 => 300,
        }
    }

    /// Adapter name, such as `q65-a60`.
    pub fn name(self) -> (r: &'static str)
        ensures
            r@ == q65_name(self),
    {
        match self {
            Self::A15 => "q65-a15",
            Self::A30 => "q65-a30",
            Self::A60 => "q65-a60",
            Self::B60 => "q65-b60",
            Self::C60 => "q65-c60",
            Self::D60 => "q65-d60",
            Self::E60 => "q65-e60",
            Self::D120 => "q65-d120",
            Self::E120 => "q65-e120",
            Self::A300 => "q65-a300",
        }
    }
}

/// Slot length of an FST4 submode, in seconds.
pub open spec fn fst4_seconds(m: Fst4Submode) -> nat {
    match m {
        Fst4Submode::S15 => 15,
        Fst4Submode::S30 => 30,
        Fst4Submode::S60 => 60,
        Fst4Submode::S120 => 120,
        Fst4Submode::S300 => 300,
    }
}

/// Adapter name of an FST4 submode.
pub open spec fn fst4_name(m: Fst4Submode) -> Seq<char> {
    match m {
        Fst4Submode::S15 => "fst4-15"@,
        Fst4Submode::S30 => "fst4-30"@,
        Fst4Submode::S60 => "fst4-60"@,
        Fst4Submode::S120 => "fst4-120"@,
        Fst4Submode::S300 => "fst4-300"@,
    }
}

impl Fst4Submode {
    /// Slot length in seconds.
    pub fn seconds(self) -> (r: u64)
        ensures
            r == fst4_seconds(self),
    {
        match self {
            Self::S15 => 15,
            Self::S30 => 30,
            Self::S60 => 60,
            Self::S120 => 120,
            Self::S300 => 300,
        }
    }

    /// Adapter name, such as `fst4-60`.
    pub fn name(self) -> (r: &'static str)
        ensures
            r@ == fst4_name(self),
    {
        match self {
            Self::S15 => "fst4-15",
            Self::S30 => "fst4-30",
            Self::S60 => "fst4-60",
            Self::S120 => "fst4-120",
            Self::S300 => "fst4-300",
        }
    }
}

/// A WSJT-family mode that this adapter decodes.
#[derive(Debug, Clone, Copy, PartialEq, Eq, Structural)]
pub enum WsjtMode {
    Ft8,
    Ft4,
    Fst4(Fst4Submode),
    Wspr,
    Jt9,
    Jt65,
    Q65(Q65Submode),
    Msk144,
}

/// Adapter name of a mode.
pub open spec fn mode_name(m: WsjtMode) -> Seq<char> {
    match m {
        WsjtMode::Ft8 => "ft8"@,
        WsjtMode::Ft4 => "ft4"@,
        WsjtMode::Fst4(s) => fst4_name(s),
        WsjtMode::Wspr => "wspr"@,
        WsjtMode::Jt9 => "jt9"@,
        WsjtMode::Jt65 => "jt65"@,
        WsjtMode::Q65(s) => q65_name(s),
        WsjtMode::Msk144 => "msk144"@,
    }
}

/// Registry name of a mode in the modem library.
pub open spec fn upstream_name(m: WsjtMode) -> Seq<char> {
    match m {
        WsjtMode::Ft8 => "FT8"@,
        WsjtMode::Ft4 => "FT4"@,
        WsjtMode::Fst4(Fst4Submode::S15) => "FST4-15"@,
        WsjtMode::Fst4(Fst4Submode::S30) => "FST4-30"@,
        WsjtMode::Fst4(Fst4Submode::S60) => "FST4-60A"@,
        WsjtMode::Fst4(Fst4Submode::S120) => "FST4-120"@,
        WsjtMode::Fst4(Fst4Submode::S300) => "FST4-300"@,
        WsjtMode::Wspr => "WSPR"@,
        WsjtMode::Jt9 => "JT9"@,
        WsjtMode::Jt65 => "JT65"@,
        WsjtMode::Q65(Q65Submode::A15) => "Q65-15A"@,
        WsjtMode::Q65(Q65Submode::A30) => "Q65-30A"@,
        WsjtMode::Q65(Q65Submode::A60) => "Q65-60A"@,
        WsjtMode::Q65(Q65Submode::B60) => "Q65-60B"@,
        WsjtMode::Q65(Q65Submode::C60) => "Q65-60C"@,
        WsjtMode::Q65(Q65Submode::D60) => "Q65-60D"@,
        WsjtMode::Q65(Q65Submode::E60) => "Q65-60E"@,
        WsjtMode::Q65(Q65Submode::D120) => "Q65-120D"@,
        WsjtMode::Q65(Q65Submode::E120) => "Q65-120E"@,
        WsjtMode::Q65(Q65Submode::A300) => "Q65-300A"@,
        WsjtMode::Msk144 => "MSK144"@,
    }
}

/// Slot length of a mode, in milliseconds.
pub open spec fn slot_millis(m: WsjtMode) -> nat {
    match m {
        WsjtMode::Ft8 => 15_000,
        WsjtMode::Ft4 => 7_500,
        WsjtMode::Fst4(s) => fst4_seconds(s) * 1000,
        WsjtMode::Wspr => 120_000,
        WsjtMode::Jt9 | WsjtMode::Jt65 => 60_000,
        WsjtMode::Q65(s) => q65_seconds(s) * 1000,
        WsjtMode::Msk144 => 15_000,
    }
}

/// The `Duration` that `Duration::from_millis` makes of `ms` milliseconds.
pub uninterp spec fn duration_from_millis(ms: nat) -> Duration;

/// `std::time::Duration::from_millis`: the duration of `ms` milliseconds.
/// The contract names the result and claims nothing else of it.
#[verifier::external_body]
fn millis(ms: u64) -> (d: Duration)
    ensures
        d == duration_from_millis(ms as nat),
{
    Duration::from_millis(ms)
}

impl WsjtMode {
    /// Adapter name, such as `ft8` or `q65-a60`.
    pub fn name(self) -> (r: &'static str)
        ensures
            r@ == mode_name(self),
    {
        match self {
            Self::Ft8 => "ft8",
            Self::Ft4 => "ft4",
            Self::Fst4(submode) => submode.name(),
            Self::Wspr => "wspr",
            Self::Jt9 => "jt9",
            Self::Jt65 => "jt65",
            Self::Q65(submode) => submode.name(),
            Self::Msk144 => "msk144",
        }
    }

    /// Exact registry name of this mode in the modem library.
    pub fn upstream_name(self) -> (r: &'static str)
        ensures
            r@ == upstream_name(self),
    {
        match self {
            Self::Ft8 => "FT8",
            Self::Ft4 => "FT4",
            Self::Fst4(Fst4Submode::S15) => "FST4-15",
            Self::Fst4(Fst4Submode::S30) => "FST4-30",
            Self::Fst4(Fst4Submode::S60) => "FST4-60A",
            Self::Fst4(Fst4Submode::S120) => "FST4-120",
            Self::Fst4(Fst4Submode::S300) => "FST4-300",
            Self::Wspr => "WSPR",
            Self::Jt9 => "JT9",
            Self::Jt65 => "JT65",
            Self::Q65(Q65Submode::A15) => "Q65-15A",
            Self::Q65(Q65Submode::A30) => "Q65-30A",
            Self::Q65(Q65Submode::A60) => "Q65-60A",
            Self::Q65(Q65Submode::B60) => "Q65-60B",
            Self::Q65(Q65Submode::C60) => "Q65-60C",
            Self::Q65(Q65Submode::D60) => "Q65-60D",
            Self::Q65(Q65Submode::E60) => "Q65-60E",
            Self::Q65(Q65Submode::D120) => "Q65-120D",
            Self::Q65(Q65Submode::E120) => "Q65-120E",
            Self::Q65(Q65Submode::A300) => "Q65-300A",
            Self::Msk144 => "MSK144",
        }
    }

    /// The modem identity, named as the adapter names the mode.
    pub fn modem_id(self) -> (r: ModemId)
        ensures
            r.0@ == mode_name(self),
    {
        ModemId(self.name())
    }

    /// The length of one transmit/receive slot.
    pub fn slot(self) -> (d: Duration)
        ensures
            d == duration_from_millis(slot_millis(self)),
    {
        match self {
            Self::Ft8 => millis(15_000),
            Self::Ft4 => millis(7_500),
            Self::Fst4(submode) => millis(submode.seconds() * 1000),
            Self::Wspr => millis(120_000),
            Self::Jt9 | Self::Jt65 => millis(60_000),
            Self::Q65(submode) => millis(submode.seconds() * 1000),
            Self::Msk144 => millis(15_000),
        }
    }
}

/// Meaning of the `sync_min` value in a protocol's search defaults.
#[derive(Debug, Clone, Copy, PartialEq, Eq, Structural)]
pub enum WsjtSyncScale {
    CostasAbsolute,
    BaselineNormalised,
}

/// Decode and synthesis capabilities available through this adapter.
#[derive(Debug, Clone, Copy, PartialEq, Eq, Structural)]
pub struct WsjtCapabilities {
    pub decode: bool,
    pub synthesize: bool,
    pub deep_decode: bool,
    pub local_equalization: bool,
    pub decode_budget: bool,
    pub frequency_hint: bool,
    pub ft8_slot_acquisition: bool,
}

/// Whether a mode goes through the frame decoder (FT8, FT4, FST4).
pub open spec fn frame_decode(m: WsjtMode) -> bool {
    m is Ft8 || m is Ft4 || m is Fst4
}

/// What the adapter offers for a mode: every mode decodes; all but MSK144
/// synthesize; FT8 and FT4 decode deeply; the frame-decoded modes take an
/// equalizer and a time budget; only FT4 takes a frequency hint; only FT8
/// acquires slot phase.
pub open spec fn capabilities_spec(m: WsjtMode) -> WsjtCapabilities {
    WsjtCapabilities {
        decode: true,
        synthesize: !(m is Msk144),
        deep_decode: m is Ft8 || m is Ft4,
        local_equalization: frame_decode(m),
        decode_budget: frame_decode(m),
        frequency_hint: m is Ft4,
        ft8_slot_acquisition: m is Ft8,
    }
}

/// The capabilities that this adapter offers for `mode`.
pub fn capabilities(mode: WsjtMode) -> (c: WsjtCapabilities)
    ensures
        c == capabilities_spec(mode),
{
    let frame = matches!(mode, WsjtMode::Ft8 | WsjtMode::Ft4 | WsjtMode::Fst4(_));
    WsjtCapabilities {
        decode: true,
        synthesize: !matches!(mode, WsjtMode::Msk144),
        deep_decode: matches!(mode, WsjtMode::Ft8 | WsjtMode::Ft4),
        local_equalization: frame,
        decode_budget: frame,
        frequency_hint: matches!(mode, WsjtMode::Ft4),
        ft8_slot_acquisition: matches!(mode, WsjtMode::Ft8),
    }
}

/// Every mode of the adapter, in registry order.
pub open spec fn modes_spec() -> Seq<WsjtMode> {
    seq![
        WsjtMode::Ft8,
        WsjtMode::Ft4,
        WsjtMode::Fst4(Fst4Submode::S15),
        WsjtMode::Fst4(Fst4Submode::S30),
        WsjtMode::Fst4(Fst4Submode::S60),
        WsjtMode::Fst4(Fst4Submode::S120),
        WsjtMode::Fst4(Fst4Submode::S300),
        WsjtMode::Wspr,
        WsjtMode::Jt9,
        WsjtMode::Jt65,
        WsjtMode::Q65(Q65Submode::A15),
        WsjtMode::Q65(Q65Submode::A30),
        WsjtMode::Q65(Q65Submode::A60),
        WsjtMode::Q65(Q65Submode::B60),
        WsjtMode::Q65(Q65Submode::C60),
        WsjtMode::Q65(Q65Submode::D60),
        WsjtMode::Q65(Q65Submode::E60),
        WsjtMode::Q65(Q65Submode::D120),
        WsjtMode::Q65(Q65Submode::E120),
        WsjtMode::Q65(Q65Submode::A300),
        WsjtMode::Msk144,
    ]
}

/// Every mode of the adapter: FT8, FT4, the five FST4 submodes, WSPR, JT9,
/// JT65, the ten Q65 submodes and MSK144.
pub fn modes() -> (r: Vec<WsjtMode>)
    ensures
        r@ == modes_spec(),
{
    let r = vec![
        WsjtMode::Ft8,
        WsjtMode::Ft4,
        WsjtMode::Fst4(Fst4Submode::S15),
        WsjtMode::Fst4(Fst4Submode::S30),
        WsjtMode::Fst4(Fst4Submode::S60),
        WsjtMode::Fst4(Fst4Submode::S120),
        WsjtMode::Fst4(Fst4Submode::S300),
        WsjtMode::Wspr,
        WsjtMode::Jt9,
        WsjtMode::Jt65,
        WsjtMode::Q65(Q65Submode::A15),
        WsjtMode::Q65(Q65Submode::A30),
        WsjtMode::Q65(Q65Submode::A60),
        WsjtMode::Q65(Q65Submode::B60),
        WsjtMode::Q65(Q65Submode::C60),
        WsjtMode::Q65(Q65Submode::D60),
        WsjtMode::Q65(Q65Submode::E60),
        WsjtMode::Q65(Q65Submode::D120),
        WsjtMode::Q65(Q65Submode::E120),
        WsjtMode::Q65(Q65Submode::A300),
        WsjtMode::Msk144,
    ];
    assert(r@ =~= modes_spec());
    r
}

/// The words of `s` after a partial word `cur`: maximal runs of characters
/// that are not white space, in order.
pub open spec fn words_after(s: Seq<char>, cur: Seq<char>) -> Seq<Seq<char>>
    decreases s.len(),
{
    let done: Seq<Seq<char>> = if cur.len() > 0 { seq![cur] } else { seq![] };
    if s.len() == 0 {
        done
    } else if is_whitespace(s[0]) {
        done + words_after(s.drop_first(), seq![])
    } else {
        words_after(s.drop_first(), cur.push(s[0]))
    }
}

/// The white-space separated words of `s`, as `str::split_whitespace` yields them.
pub open spec fn words(s: Seq<char>) -> Seq<Seq<char>> {
    words_after(s, seq![])
}

/// The words of `s`, as `str::split_whitespace` yields them.
pub fn split_words(s: &str) -> (r: Vec<String>)
    ensures
        strings_view(r@) == words(s@),
{
    let v = chars_of(s);
    let mut out: Vec<String> = Vec::new();
    let mut cur = String::new();
    let mut cur_len: usize = 0;
    let mut i: usize = 0;
    assert(v@.skip(0) =~= v@);
    while i < v.len()
        invariant
            i <= v@.len(),
            v@ == s@,
            cur_len == cur@.len(),
            cur_len <= i,
            strings_view(out@) + words_after(v@.skip(i as int), cur@) == words(s@),
        decreases v@.len() - i,
    {
        let ghost rest = v@.skip(i as int);
        let ghost before = out@;
        let ghost c = cur@;
        assert(rest.drop_first() =~= v@.skip(i + 1));
        if is_whitespace_exec(v[i]) {
            if cur_len > 0 {
                let w = cur;
                cur = String::new();
                cur_len = 0;
                out.push(w);
                assert(strings_view(out@) =~= strings_view(before) + seq![c]);
            }
            assert(cur@ =~= Seq::<char>::empty());
        } else {
            push_char(&mut cur, v[i]);
            cur_len += 1;
        }
        i += 1;
    }
    assert(v@.skip(i as int) =~= Seq::<char>::empty());
    let ghost before = out@;
    let ghost c = cur@;
    if cur_len > 0 {
        out.push(cur);
        assert(strings_view(out@) =~= strings_view(before) + seq![c]);
    }
    out
}

/// The destination, source and third field of a standard message: exactly
/// three words.
pub open spec fn standard_fields(s: Seq<char>) -> Option<(Seq<char>, Seq<char>, Seq<char>)> {
    let w = words(s);
    if w.len() == 3 {
        Some((w[0], w[1], w[2]))
    } else {
        None
    }
}

/// Splits a composed standard message into its three words; `None` unless
/// it has exactly three.
pub fn standard_message(compose: &str) -> (r: Option<(String, String, String)>)
    ensures
        match r {
            Some((a, b, c)) => standard_fields(compose@) == Some((a@, b@, c@)),
            None => standard_fields(compose@) is None,
        },
{
    let mut w = split_words(compose);
    if w.len() != 3 {
        return None;
    }
    let ghost all = strings_view(w@);
    let third = w.pop().unwrap();
    let second = w.pop().unwrap();
    let first = w.pop().unwrap();
    assert(all[0] == first@ && all[1] == second@ && all[2] == third@);
    Some((first, second, third))
}

/// The 77-bit payload that the modem library's `pack77` makes of two calls
/// and a report, or `None` where it refuses them.
pub uninterp spec fn wsjt77_pack(call1: Seq<char>, call2: Seq<char>, report: Seq<char>) -> Option<Seq<u8>>;

/// `mfsk_core::msg::wsjt77::pack77`: packs a standard Type 1 message. The
/// result is a function of the three texts alone, named `wsjt77_pack`; each of
/// its 77 entries is one bit (0 or 1), as the packer writes them. Which texts
/// it accepts (callsigns, grids, reports) is not stated.
#[verifier::external_body]
fn pack77_bits(call1: &str, call2: &str, report: &str) -> (r: Option<[u8; 77]>)
    ensures
        match r {
            Some(bits) => wsjt77_pack(call1@, call2@, report@) == Some(bits@) && forall|i: int|
                0 <= i < 77 ==> #[trigger] bits@[i] <= 1,
            None => wsjt77_pack(call1@, call2@, report@) is None,
        },
{
    mfsk_core::msg::wsjt77::pack77(call1, call2, report)
}

/// The payload of a composed standard message: its three words packed, with a
/// destination of `CQ` in any letter case written as `CQ`.
pub open spec fn pack_standard_spec(compose: Seq<char>) -> Option<Seq<u8>> {
    match standard_fields(compose) {
        None => None,
        Some((d, s, t)) => wsjt77_pack(if eq_ignore_case(d, "CQ"@) { "CQ"@ } else { d }, s, t),
    }
}

/// Packs a composed standard message (`DEST SOURCE REPORT`) into its 77 bits;
/// `None` when it does not have three words or the packer refuses them.
pub fn pack_standard(compose: &str) -> (r: Option<[u8; 77]>)
    ensures
        match r {
            Some(bits) => pack_standard_spec(compose@) == Some(bits@),
            None => pack_standard_spec(compose@) is None,
        },
{
    let (destination, source, third) = match standard_message(compose) {
        Some(t) => t,
        None => return None,
    };
    let d = chars_of(destination.as_str());
    let cq = chars_of("CQ");
    if eq_ignore_case_range(&d, 0, d.len(), &cq) {
        assert(d@.subrange(0, d@.len() as int) =~= d@);
        pack77_bits("CQ", source.as_str(), third.as_str())
    } else {
        assert(d@.subrange(0, d@.len() as int) =~= d@);
        pack77_bits(destination.as_str(), source.as_str(), third.as_str())
    }
}


/// The FT8 tone sequence that the modem library makes of a 77-bit payload.
pub uninterp spec fn ft8_tones_of(bits: Seq<u8>) -> Seq<u8>;

/// The FT4 tone sequence that the modem library makes of a 77-bit payload.
pub uninterp spec fn ft4_tones_of(bits: Seq<u8>) -> Seq<u8>;

/// The FST4 tone sequence that the modem library makes of a 77-bit payload.
pub uninterp spec fn fst4_tones_of(bits: Seq<u8>) -> Seq<u8>;

/// `mfsk_core::ft8::wave_gen::message_to_tones`: CRC, LDPC encoding and
/// Gray-coded tone mapping of a payload. The result is a function of the
/// payload alone, named `ft8_tones_of`.
#[verifier::external_body]
fn ft8_message_tones(bits: &[u8; 77]) -> (r: Vec<u8>)
    ensures
        r@ == ft8_tones_of(bits@),
{
    mfsk_core::ft8::wave_gen::message_to_tones(bits).to_vec()
}

/// `mfsk_core::ft4::encode::message_to_tones`: scrambling, CRC, LDPC
/// encoding and tone mapping of a payload. The result is a function of the
/// payload alone, named `ft4_tones_of`.
#[verifier::external_body]
fn ft4_message_tones(bits: &[u8; 77]) -> (r: Vec<u8>)
    ensures
        r@ == ft4_tones_of(bits@),
{
    mfsk_core::ft4::encode::message_to_tones(bits)
}

/// `mfsk_core::fst4::encode::message_to_tones`: scrambling, CRC, LDPC
/// encoding and tone mapping of a payload, shared by every FST4 submode.
/// The result is a function of the payload alone, named `fst4_tones_of`.
#[verifier::external_body]
fn fst4_message_tones(bits: &[u8; 77]) -> (r: Vec<u8>)
    ensures
        r@ == fst4_tones_of(bits@),
{
    mfsk_core::fst4::encode::message_to_tones(bits)
}

/// The tone families of the frame-synthesized modes.
#[derive(Debug, Clone, Copy, PartialEq, Eq, Structural)]
pub enum ToneFamily {
    Ft8,
    Ft4,
    Fst4,
}

/// The tones of a payload in a family.
pub open spec fn family_tones(family: ToneFamily, bits: Seq<u8>) -> Seq<u8> {
    match family {
        ToneFamily::Ft8 => ft8_tones_of(bits),
        ToneFamily::Ft4 => ft4_tones_of(bits),
        ToneFamily::Fst4 => fst4_tones_of(bits),
    }
}

/// The tone sequence of a composed standard message in a tone family;
/// `None` exactly when the message does not pack.
pub fn standard_tones(compose: &str, family: ToneFamily) -> (r: Option<Vec<u8>>)
    ensures
        match pack_standard_spec(compose@) {
            Some(bits) => r matches Some(t) && t@ == family_tones(family, bits),
            None => r is None,
        },
{
    let bits = match pack_standard(compose) {
        Some(b) => b,
        None => return None,
    };
    match family {
        ToneFamily::Ft8 => Some(ft8_message_tones(&bits)),
        ToneFamily::Ft4 => Some(ft4_message_tones(&bits)),
        ToneFamily::Fst4 => Some(fst4_message_tones(&bits)),
    }
}


/// A decimal `i32` as `str::parse` reads it: an optional sign, then digits.
pub open spec fn parse_i32(s: Seq<char>) -> Option<int> {
    if s.len() > 0 && s[0] == '-' {
        if s.len() > 1 && s[1] == '+' {
            None
        } else {
            match parse_bounded(s.skip(1), 10, 0x8000_0000) {
                Some(n) => Some(-n),
                None => None,
            }
        }
    } else {
        match parse_bounded(s, 10, 0x7fff_ffff) {
            Some(n) => Some(n as int),
            None => None,
        }
    }
}

/// The fields of a WSPR Type 1 message: a callsign, a grid, and a power in
/// dBm; `None` unless there are exactly three words and the third is an `i32`.
pub open spec fn wspr_fields(compose: Seq<char>) -> Option<(Seq<char>, Seq<char>, int)> {
    let w = words(compose);
    if w.len() != 3 {
        None
    } else {
        match parse_i32(w[2]) {
            Some(p) => Some((w[0], w[1], p)),
            None => None,
        }
    }
}

/// Splits a composed WSPR message into callsign, grid and power.
pub fn wspr_message(compose: &str) -> (r: Option<(String, String, i32)>)
    ensures
        match wspr_fields(compose@) {
            Some((c, g, p)) => r matches Some((rc, rg, rp)) && rc@ == c && rg@ == g && rp == p,
            None => r is None,
        },
{
    let mut w = split_words(compose);
    if w.len() != 3 {
        return None;
    }
    let ghost all = strings_view(w@);
    let power = w.pop().unwrap();
    let grid = w.pop().unwrap();
    let call = w.pop().unwrap();
    assert(all[0] == call@ && all[1] == grid@ && all[2] == power@);
    let v = chars_of(power.as_str());
    let n = v.len();
    assert(v@.subrange(0, n as int) =~= v@);
    let p: i32 = if n > 0 && v[0] == '-' {
        if n > 1 && v[1] == '+' {
            return None;
        }
        assert(v@.subrange(1, n as int) =~= v@.skip(1));
        match parse_bounded_exec(&v, 1, n, 10, 0x8000_0000) {
            Some(m) => (0i64 - m as i64) as i32,
            None => return None,
        }
    } else {
        match parse_bounded_exec(&v, 0, n, 10, 0x7fff_ffff) {
            Some(m) => m as i32,
            None => return None,
        }
    };
    Some((call, grid, p))
}

/// The digits of a slot length in seconds.
proof fn lemma_slot_digits()
    ensures
        decimal(15) == seq!['1', '5'],
        decimal(30) == seq!['3', '0'],
        decimal(60) == seq!['6', '0'],
        decimal(120) == seq!['1', '2', '0'],
        decimal(300) == seq!['3', '0', '0'],
{
    reveal_with_fuel(decimal, 4);
    assert(decimal(15) =~= seq!['1', '5']);
    assert(decimal(30) =~= seq!['3', '0']);
    assert(decimal(60) =~= seq!['6', '0']);
    assert(decimal(12) =~= seq!['1', '2']);
    assert(decimal(120) =~= seq!['1', '2', '0']);
    assert(decimal(300) =~= seq!['3', '0', '0']);
}

/// Each Q65 and FST4 submode is named after its slot length: the adapter
/// name ends with the number of seconds of the slot.
pub proof fn lemma_submode_names_give_seconds(q: Q65Submode, f: Fst4Submode)
    ensures
        ends_with(q65_name(q), decimal(q65_seconds(q))),
        ends_with(fst4_name(f), decimal(fst4_seconds(f))),
{
    lemma_slot_digits();
    match q {
        Q65Submode::A15 => {
            reveal_strlit("q65-a15");
            assert(q65_name(q).skip(q65_name(q).len() - 2) =~= seq!['1', '5']);
        },
        Q65Submode::A30 => {
            reveal_strlit("q65-a30");
            assert(q65_name(q).skip(q65_name(q).len() - 2) =~= seq!['3', '0']);
        },
        Q65Submode::A60 => {
            reveal_strlit("q65-a60");
            assert(q65_name(q).skip(q65_name(q).len() - 2) =~= seq!['6', '0']);
        },
        Q65Submode::B60 => {
            reveal_strlit("q65-b60");
            assert(q65_name(q).skip(q65_name(q).len() - 2) =~= seq!['6', '0']);
        },
        Q65Submode::C60 => {
            reveal_strlit("q65-c60");
            assert(q65_name(q).skip(q65_name(q).len() - 2) =~= seq!['6', '0']);
        },
        Q65Submode::D60 => {
            reveal_strlit("q65-d60");
            assert(q65_name(q).skip(q65_name(q).len() - 2) =~= seq!['6', '0']);
        },
        Q65Submode::E60 => {
            reveal_strlit("q65-e60");
            assert(q65_name(q).skip(q65_name(q).len() - 2) =~= seq!['6', '0']);
        },
        Q65Submode::D120 => {
            reveal_strlit("q65-d120");
            assert(q65_name(q).skip(q65_name(q).len() - 3) =~= seq!['1', '2', '0']);
        },
        Q65Submode::E120 => {
            reveal_strlit("q65-e120");
            assert(q65_name(q).skip(q65_name(q).len() - 3) =~= seq!['1', '2', '0']);
        },
        Q65Submode::A300 => {
            reveal_strlit("q65-a300");
            assert(q65_name(q).skip(q65_name(q).len() - 3) =~= seq!['3', '0', '0']);
        },
    }
    match f {
        Fst4Submode::S15 => {
            reveal_strlit("fst4-15");
            assert(fst4_name(f).skip(fst4_name(f).len() - 2) =~= seq!['1', '5']);
        },
        Fst4Submode::S30 => {
            reveal_strlit("fst4-30");
            assert(fst4_name(f).skip(fst4_name(f).len() - 2) =~= seq!['3', '0']);
        },
        Fst4Submode::S60 => {
            reveal_strlit("fst4-60");
            assert(fst4_name(f).skip(fst4_name(f).len() - 2) =~= seq!['6', '0']);
        },
        Fst4Submode::S120 => {
            reveal_strlit("fst4-120");
            assert(fst4_name(f).skip(fst4_name(f).len() - 3) =~= seq!['1', '2', '0']);
        },
        Fst4Submode::S300 => {
            reveal_strlit("fst4-300");
            assert(fst4_name(f).skip(fst4_name(f).len() - 3) =~= seq!['3', '0', '0']);
        },
    }
}

} // verus!
