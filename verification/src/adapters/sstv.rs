//! Analog SSTV: the VIS code table, Martin M1 geometry, the codec's errors and
//! the 48 kHz to 12 kHz transmit path. Tone synthesis and demodulation run
//! outside, on floating-point audio.
use vstd::prelude::*;
use crate::text::push_str;

verus! {

/// Sample rate of live audio and of the Martin M1 path, in Hz.
pub const SAMPLE_RATE_HZ: u32 = 12_000;

/// Martin M1 image width, in pixels.
pub const WIDTH: usize = 320;

/// Martin M1 image height, in lines.
pub const HEIGHT: usize = 256;

/// Parity-stripped VIS code of Martin M1.
pub const VIS_CODE_MARTIN_M1: u8 = 0x2c;

/// Sample rate of the multi-mode codec, in Hz.
pub const MULTIMODE_SAMPLE_RATE_HZ: u32 = 48_000;

/// Lowest tuning offset that automatic VIS search tries, in Hz.
pub const AUTO_TARGET_MIN_OFFSET_HZ: i32 = -900;

/// Highest tuning offset that automatic VIS search tries, in Hz.
pub const AUTO_TARGET_MAX_OFFSET_HZ: i32 = 700;

/// Candidate offsets that automatic VIS search tests per window.
pub const AUTO_TARGET_CANDIDATES_PER_WINDOW: usize = 16;

/// Why an SSTV encode or decode failed.
#[derive(Debug, Clone, PartialEq, Eq)]
pub enum SstvError {
    InvalidImage,
    IncompleteAudio,
    UnsupportedVis,
    InvalidDimensions,
    Codec(String),
}

/// The text of each error; a codec failure carries the codec's own message.
pub open spec fn sstv_error_text(e: SstvError) -> Seq<char> {
    match e {
        SstvError::InvalidImage => "Martin M1 needs exactly 320 x 256 RGB pixels"@,
        SstvError::IncompleteAudio => "audio does not contain a complete Martin M1 image"@,
        SstvError::UnsupportedVis => "VIS header is not Martin M1"@,
        SstvError::InvalidDimensions => "SSTV image dimensions do not match its RGB buffer"@,
        SstvError::Codec(m) => "SSTV codec failed: "@ + m@,
    }
}

impl SstvError {
    /// The human-readable description of the error.
    pub fn message(&self) -> (r: String)
        ensures
            r@ == sstv_error_text(*self),
    {
        let mut r = String::new();
        match self {
            SstvError::InvalidImage => push_str(&mut r, "Martin M1 needs exactly 320 x 256 RGB pixels"),
            SstvError::IncompleteAudio => push_str(
                &mut r,
                "audio does not contain a complete Martin M1 image",
            ),
            SstvError::UnsupportedVis => push_str(&mut r, "VIS header is not Martin M1"),
            SstvError::InvalidDimensions => push_str(
                &mut r,
                "SSTV image dimensions do not match its RGB buffer",
            ),
            SstvError::Codec(m) => {
                push_str(&mut r, "SSTV codec failed: ");
                push_str(&mut r, m.as_str());
            },
        }
        r
    }
}

/// A decoded image: `rgb` holds `width * height` pixels of three bytes.
#[derive(Debug, Clone)]
pub struct DecodedImage {
    pub width: usize,
    pub height: usize,
    pub rgb: Vec<u8>,
}

/// The mode name of a parity-stripped VIS code.
pub open spec fn vis_name(vis: u8) -> Seq<char> {
    if vis == 0x2c {
        "Martin M1"@
    } else if vis == 0x28 {
        "Martin M2"@
    } else if vis == 0x3c {
        "Scottie S1"@
    } else if vis == 0x38 {
        "Scottie S2"@
    } else if vis == 0x4c {
        "Scottie DX"@
    } else if vis == 0x08 {
        "Robot 36"@
    } else if vis == 0x0c {
        "Robot 72"@
    } else if vis == 0x63 {
        "PD90"@
    } else if vis == 0x5f {
        "PD120"@
    } else if vis == 0x62 {
        "PD160"@
    } else if vis == 0x60 {
        "PD180"@
    } else if vis == 0x61 {
        "PD240"@
    } else if vis == 0x5e {
        "PD290"@
    } else {
        "unknown SSTV mode"@
    }
}

/// The mode name of a parity-stripped VIS code, or "unknown SSTV mode".
pub fn vis_mode_name(vis: u8) -> (r: &'static str)
    ensures
        r@ == vis_name(vis),
{
    match vis {
        0x2c => "Martin M1",
        0x28 => "Martin M2",
        0x3c => "Scottie S1",
        0x38 => "Scottie S2",
        0x4c => "Scottie DX",
        0x08 => "Robot 36",
        0x0c => "Robot 72",
        0x63 => "PD90",
        0x5f => "PD120",
        0x62 => "PD160",
        0x60 => "PD180",
        0x61 => "PD240",
        0x5e => "PD290",
        _ => "unknown SSTV mode",
    }
}

/// The modes of the multi-mode codec that a VIS code selects.
#[derive(Debug, Clone, Copy, PartialEq, Eq, Structural)]
pub enum VisMode {
    MartinM1,
    MartinM2,
    ScottieS1,
    ScottieS2,
    Robot36,
    Robot72,
    Pd50,
    Pd90,
    Pd120,
    Pd160,
    Pd180,
    Pd240,
    Pd290,
}

/// The codec mode that a parity-stripped VIS code selects, if any.
pub open spec fn vis_mode_spec(vis: u8) -> Option<VisMode> {
    if vis == 0x2c {
        Some(VisMode::MartinM1)
    } else if vis == 0x28 {
        Some(VisMode::MartinM2)
    } else if vis == 0x3c {
        Some(VisMode::ScottieS1)
    } else if vis == 0x38 {
        Some(VisMode::ScottieS2)
    } else if vis == 0x08 {
        Some(VisMode::Robot36)
    } else if vis == 0x0c {
        Some(VisMode::Robot72)
    } else if vis == 0x5d {
        Some(VisMode::Pd50)
    } else if vis == 0x63 {
        Some(VisMode::Pd90)
    } else if vis == 0x5f {
        Some(VisMode::Pd120)
    } else if vis == 0x62 {
        Some(VisMode::Pd160)
    } else if vis == 0x60 {
        Some(VisMode::Pd180)
    } else if vis == 0x61 {
        Some(VisMode::Pd240)
    } else if vis == 0x5e {
        Some(VisMode::Pd290)
    } else {
        None
    }
}

/// The codec mode that a parity-stripped VIS code selects; `None` for codes
/// that the codec does not decode.
pub fn vis_mode(vis: u8) -> (r: Option<VisMode>)
    ensures
        r == vis_mode_spec(vis),
{
    match vis {
        0x2c => Some(VisMode::MartinM1),
        0x28 => Some(VisMode::MartinM2),
        0x3c => Some(VisMode::ScottieS1),
        0x38 => Some(VisMode::ScottieS2),
        0x08 => Some(VisMode::Robot36),
        0x0c => Some(VisMode::Robot72),
        0x5d => Some(VisMode::Pd50),
        0x63 => Some(VisMode::Pd90),
        0x5f => Some(VisMode::Pd120),
        0x62 => Some(VisMode::Pd160),
        0x60 => Some(VisMode::Pd180),
        0x61 => Some(VisMode::Pd240),
        0x5e => Some(VisMode::Pd290),
        _ => None,
    }
}

/// Whether bit `i` of a VIS code is set.
pub open spec fn vis_bit(vis: u8, i: u8) -> bool {
    (vis >> i) & 1 == 1
}

/// The seven data bits of a VIS header, least significant first.
pub open spec fn vis_data_bits(vis: u8) -> Seq<bool> {
    seq![
        vis_bit(vis, 0),
        vis_bit(vis, 1),
        vis_bit(vis, 2),
        vis_bit(vis, 3),
        vis_bit(vis, 4),
        vis_bit(vis, 5),
        vis_bit(vis, 6),
    ]
}

/// How many of seven header bits are set.
pub open spec fn ones(b: Seq<bool>) -> nat {
    (if b[0] { 1nat } else { 0nat }) + (if b[1] { 1nat } else { 0nat }) + (if b[2] { 1nat } else { 0nat })
        + (if b[3] { 1nat } else { 0nat }) + (if b[4] { 1nat } else { 0nat }) + (if b[5] { 1nat } else { 0nat })
        + (if b[6] { 1nat } else { 0nat })
}

/// The code that seven header bits spell, least significant first.
pub open spec fn bits_value(b: Seq<bool>) -> nat {
    (if b[0] { 1nat } else { 0nat }) + (if b[1] { 2nat } else { 0nat }) + (if b[2] { 4nat } else { 0nat })
        + (if b[3] { 8nat } else { 0nat }) + (if b[4] { 16nat } else { 0nat }) + (if b[5] { 32nat } else {
        0nat
    }) + (if b[6] { 64nat } else { 0nat })
}

/// The bits that a VIS header sends after its start bit: seven data bits,
/// least significant first, then an even-parity bit (set when an odd number
/// of data bits are set).
pub open spec fn vis_header_spec(vis: u8) -> Seq<bool> {
    vis_data_bits(vis).push(ones(vis_data_bits(vis)) % 2 == 1)
}

/// The data and parity bits of the VIS header of `vis`.
pub fn vis_header_bits(vis: u8) -> (r: Vec<bool>)
    ensures
        r@ == vis_header_spec(vis),
{
    let mut r: Vec<bool> = Vec::new();
    let mut count: u8 = 0;
    let mut i: u8 = 0;
    while i < 7
        invariant
            i <= 7,
            r@.len() == i,
            forall|j: int| 0 <= j < i ==> r@[j] == vis_bit(vis, j as u8),
            count <= i,
            count == ones(r@ + Seq::new((7 - i) as nat, |k: int| false)),
        decreases 7 - i,
    {
        let one = (vis >> i) & 1 == 1;
        let ghost before = r@;
        r.push(one);
        if one {
            count += 1;
        }
        proof {
            let pad_old = before + Seq::new((7 - i) as nat, |k: int| false);
            let pad_new = r@ + Seq::new((7 - (i + 1)) as nat, |k: int| false);
            assert forall|k: int| 0 <= k < 7 && k != i implies pad_new[k] == pad_old[k] by {}
            assert(pad_old[i as int] == false);
            assert(pad_new[i as int] == one);
        }
        i += 1;
    }
    assert(r@ + Seq::new(0, |k: int| false) =~= r@);
    assert(r@ =~= vis_data_bits(vis));
    r.push(count % 2 == 1);
    r
}

/// The code that received header bits spell when their parity bit checks.
pub open spec fn vis_read_spec(data: Seq<bool>, parity: bool) -> Option<u8> {
    if parity == (ones(data) % 2 == 1) {
        Some(bits_value(data) as u8)
    } else {
        None
    }
}

/// The VIS code of seven received data bits, least significant first;
/// `None` when the parity bit does not match them.
pub fn vis_from_bits(data: &[bool], parity: bool) -> (r: Option<u8>)
    requires
        data@.len() == 7,
    ensures
        r == vis_read_spec(data@, parity),
{
    let mut value: u8 = 0;
    let mut count: u8 = 0;
    let weights: [u8; 7] = [1, 2, 4, 8, 16, 32, 64];
    let mut i: usize = 0;
    while i < 7
        invariant
            i <= 7,
            data@.len() == 7,
            weights@ == seq![1u8, 2, 4, 8, 16, 32, 64],
            value as nat == bits_value(data@.take(i as int) + Seq::new((7 - i) as nat, |k: int| false)),
            count as nat == ones(data@.take(i as int) + Seq::new((7 - i) as nat, |k: int| false)),
            count <= i,
            i < 7 ==> value < weights@[i as int],
        decreases 7 - i,
    {
        let ghost pad_old = data@.take(i as int) + Seq::new((7 - i) as nat, |k: int| false);
        if data[i] {
            value = value + weights[i];
            count = count + 1;
        }
        proof {
            let pad_new = data@.take(i + 1) + Seq::new((7 - (i + 1)) as nat, |k: int| false);
            assert forall|k: int| 0 <= k < 7 && k != i implies pad_new[k] == pad_old[k] by {}
            assert(pad_old[i as int] == false);
            assert(pad_new[i as int] == data@[i as int]);
        }
        i += 1;
    }
    assert(data@.take(7) + Seq::new(0, |k: int| false) =~= data@);
    if parity == (count % 2 == 1) {
        Some(value)
    } else {
        None
    }
}

/// A VIS code written as a header reads back as itself, for every code of
/// seven bits: the data bits spell it and the parity bit checks.
pub proof fn lemma_vis_header_round_trip(vis: u8)
    requires
        vis < 128,
    ensures
        vis_read_spec(vis_header_spec(vis).take(7), vis_header_spec(vis)[7]) == Some(vis),
{
    let h = vis_header_spec(vis);
    assert(h.take(7) =~= vis_data_bits(vis));
    let b0 = (vis >> 0u8) & 1;
    let b1 = (vis >> 1u8) & 1;
    let b2 = (vis >> 2u8) & 1;
    let b3 = (vis >> 3u8) & 1;
    let b4 = (vis >> 4u8) & 1;
    let b5 = (vis >> 5u8) & 1;
    let b6 = (vis >> 6u8) & 1;
    assert(b0 <= 1 && b1 <= 1 && b2 <= 1 && b3 <= 1 && b4 <= 1 && b5 <= 1 && b6 <= 1) by (bit_vector)
        requires
            b0 == (vis >> 0u8) & 1,
            b1 == (vis >> 1u8) & 1,
            b2 == (vis >> 2u8) & 1,
            b3 == (vis >> 3u8) & 1,
            b4 == (vis >> 4u8) & 1,
            b5 == (vis >> 5u8) & 1,
            b6 == (vis >> 6u8) & 1,
    ;
    assert(b0 + 2 * b1 + 4 * b2 + 8 * b3 + 16 * b4 + 32 * b5 + 64 * b6 == vis) by (bit_vector)
        requires
            vis < 128,
            b0 == (vis >> 0u8) & 1,
            b1 == (vis >> 1u8) & 1,
            b2 == (vis >> 2u8) & 1,
            b3 == (vis >> 3u8) & 1,
            b4 == (vis >> 4u8) & 1,
            b5 == (vis >> 5u8) & 1,
            b6 == (vis >> 6u8) & 1,
    ;
}

/// Bytes of one Martin M1 RGB image.
pub open spec fn martin_m1_image_len() -> nat {
    (WIDTH * HEIGHT * 3) as nat
}

/// The check before Martin M1 synthesis: the image must hold exactly
/// 320 x 256 RGB pixels.
pub fn check_martin_m1_image(rgb: &[u8]) -> (r: Result<(), SstvError>)
    ensures
        r is Ok <==> rgb@.len() == martin_m1_image_len(),
        r is Err ==> r == Err::<(), SstvError>(SstvError::InvalidImage),
{
    if rgb.len() != WIDTH * HEIGHT * 3 {
        Err(SstvError::InvalidImage)
    } else {
        Ok(())
    }
}

/// How many 48 kHz samples make one 12 kHz sample.
pub open spec fn decimation() -> nat {
    (MULTIMODE_SAMPLE_RATE_HZ / SAMPLE_RATE_HZ) as nat
}

/// Every fourth sample of `s`, starting with the first.
pub open spec fn decimate(s: Seq<i16>) -> Seq<i16> {
    Seq::new(
        ((s.len() + decimation() - 1) / decimation() as int) as nat,
        |i: int| s[i * decimation()],
    )
}

/// The 12 kHz transmit path of a 48 kHz encoding: every fourth sample, the
/// first one included.
pub fn decimate_to_12k(samples: &[i16]) -> (r: Vec<i16>)
    ensures
        r@ == decimate(samples@),
{
    let step: usize = (MULTIMODE_SAMPLE_RATE_HZ / SAMPLE_RATE_HZ) as usize;
    let n = samples.len();
    assert(step == 4);
    let count: usize = n / step + if n % step != 0 { 1 } else { 0 };
    assert(count == (n + 3) / 4) by (nonlinear_arith)
        requires
            step == 4,
            count == n / step + if n % step != 0 { 1int } else { 0int },
    ;
    let mut r: Vec<i16> = Vec::new();
    for k in 0..count
        invariant
            step == 4,
            n == samples@.len(),
            count == (n + 3) / 4,
            r@.len() == k,
            forall|j: int| 0 <= j < k ==> r@[j] == samples@[j * 4],
    {
        assert(k * 4 < n) by (nonlinear_arith)
            requires
                k < count,
                count == (n + 3) / 4,
        ;
        r.push(samples[k * step]);
    }
    proof {
        assert(decimation() == 4);
        assert(r@ =~= decimate(samples@));
    }
    r
}

/// The name under which a codec mode is announced.
pub open spec fn mode_name(m: VisMode) -> Seq<char> {
    match m {
        VisMode::MartinM1 => "Martin M1"@,
        VisMode::MartinM2 => "Martin M2"@,
        VisMode::ScottieS1 => "Scottie S1"@,
        VisMode::ScottieS2 => "Scottie S2"@,
        VisMode::Robot36 => "Robot 36"@,
        VisMode::Robot72 => "Robot 72"@,
        VisMode::Pd50 => "PD50"@,
        VisMode::Pd90 => "PD90"@,
        VisMode::Pd120 => "PD120"@,
        VisMode::Pd160 => "PD160"@,
        VisMode::Pd180 => "PD180"@,
        VisMode::Pd240 => "PD240"@,
        VisMode::Pd290 => "PD290"@,
    }
}

/// A VIS code selects the codec mode that its name announces: for every code
/// that the name table knows (all but PD50's, which it does not list), the
/// selected mode bears that name; and no two codes select the same mode.
pub proof fn lemma_vis_mode_matches_name(c: u8, d: u8)
    ensures
        vis_mode_spec(c) matches Some(m) ==> (c == 0x5d || vis_name(c) == mode_name(m)),
        vis_mode_spec(c) == Some(VisMode::Pd50) ==> c == 0x5d,
        vis_mode_spec(c) is Some && vis_mode_spec(c) == vis_mode_spec(d) ==> c == d,
{
}

/// A VIS header sends the least significant bit of the code first and the
/// most significant last, and its parity bit makes the number of set bits
/// among all eight even.
pub proof fn lemma_vis_header_order(vis: u8)
    requires
        vis < 128,
    ensures
        vis_header_spec(vis).len() == 8,
        vis_header_spec(vis)[0] == (vis % 2 == 1),
        vis_header_spec(vis)[6] == (vis >= 64),
        (ones(vis_header_spec(vis).take(7)) + (if vis_header_spec(vis)[7] { 1nat } else { 0nat })) % 2 == 0,
{
    let h = vis_header_spec(vis);
    assert(h.take(7) =~= vis_data_bits(vis));
    assert(((vis >> 0u8) & 1 == 1) == (vis % 2 == 1)) by (bit_vector);
    assert(((vis >> 6u8) & 1 == 1) == (vis >= 64)) by (bit_vector)
        requires
            vis < 128,
    ;
}

} // verus!
