//! RADE V1/V2 mode metadata and native-adapter errors.
use vstd::prelude::*;
use crate::network::message::push_lit;
use crate::number::{decimal, decimal_exec, signed_decimal, signed_decimal_exec};
use crate::text::string_of;
use super::ModemId;

verus! {

/// RADE waveform selected for a native modem context.
#[derive(Debug, Clone, Copy, PartialEq, Eq, Structural)]
pub enum RadeMode {
    V1,
    V2,
}

/// What a voice modem offers: its sample rates and directions.
#[derive(Debug, Clone, Copy, PartialEq, Eq)]
pub struct VoiceModemCapabilities {
    pub modem: ModemId,
    pub label: &'static str,
    pub modem_input_rate_hz: u32,
    pub modem_output_rate_hz: u32,
    pub speech_input_rate_hz: u32,
    pub speech_output_rate_hz: u32,
    pub supports_receive: bool,
    pub supports_transmit: bool,
    pub development: bool,
}

/// The receiver state that the native library reports after a frame.
#[derive(Debug, Clone, Copy, PartialEq, Eq, Structural)]
pub enum VoiceSyncState {
    Searching,
    Synchronized,
    EndOfOver,
}

/// The modem name of a RADE mode.
pub open spec fn rade_modem_name(m: RadeMode) -> Seq<char> {
    match m {
        RadeMode::V1 => "rade-v1"@,
        RadeMode::V2 => "rade-v2"@,
    }
}

/// The display label of a RADE mode.
pub open spec fn rade_label(m: RadeMode) -> Seq<char> {
    match m {
        RadeMode::V1 => "RADE V1"@,
        RadeMode::V2 => "RADE V2 (upstream development)"@,
    }
}

/// `rade_open` flag: use the C encoder.
pub const RADE_USE_C_ENCODER: i32 = 0x1;

/// `rade_open` flag: use the C decoder.
pub const RADE_USE_C_DECODER: i32 = 0x2;

/// `rade_open` flag: the V2 waveform.
pub const RADE_MODE_V2: i32 = 0x10;

impl RadeMode {
    /// The modem identity: `rade-v1` or `rade-v2`.
    pub fn modem_id(self) -> (r: ModemId)
        ensures
            r.0@ == rade_modem_name(self),
    {
        match self {
            Self::V1 => ModemId("rade-v1"),
            Self::V2 => ModemId("rade-v2"),
        }
    }

    /// What the mode offers: 8 kHz modem audio, 16 kHz speech, both
    /// directions, and whether it is a development waveform.
    pub fn capabilities(self) -> (r: VoiceModemCapabilities)
        ensures
            r.modem.0@ == rade_modem_name(self),
            r.label@ == rade_label(self),
            r.modem_input_rate_hz == 8_000,
            r.modem_output_rate_hz == 8_000,
            r.speech_input_rate_hz == 16_000,
            r.speech_output_rate_hz == 16_000,
            r.supports_receive,
            r.supports_transmit,
            r.development == (self == RadeMode::V2),
    {
        VoiceModemCapabilities {
            modem: self.modem_id(),
            label: self.label(),
            modem_input_rate_hz: 8_000,
            modem_output_rate_hz: 8_000,
            speech_input_rate_hz: 16_000,
            speech_output_rate_hz: 16_000,
            supports_receive: true,
            supports_transmit: true,
            development: self.development(),
        }
    }

    /// A human-readable name.
    pub fn label(self) -> (r: &'static str)
        ensures
            r@ == rade_label(self),
    {
        match self {
            Self::V1 => "RADE V1",
            Self::V2 => "RADE V2 (upstream development)",
        }
    }

    /// Whether the waveform is still an upstream development version.
    pub fn development(self) -> (r: bool)
        ensures
            r == (self == RadeMode::V2),
    {
        match self {
            Self::V1 => false,
            Self::V2 => true,
        }
    }

    /// Flags for `rade_open`, excluding verbosity and test flags.
    pub fn native_flags(self) -> (r: i32)
        ensures
            r == match self {
                RadeMode::V1 => 0x3i32,
                RadeMode::V2 => 0x13i32,
            },
    {
        let flags = RADE_USE_C_ENCODER | RADE_USE_C_DECODER;
        assert(flags == 3) by (bit_vector)
            requires
                flags == RADE_USE_C_ENCODER | RADE_USE_C_DECODER,
                RADE_USE_C_ENCODER == 1,
                RADE_USE_C_DECODER == 2,
        ;
        match self {
            Self::V1 => flags,
            Self::V2 => {
                let f = flags | RADE_MODE_V2;
                assert(f == 0x13) by (bit_vector)
                    requires
                        flags == 3,
                        f == flags | RADE_MODE_V2,
                        RADE_MODE_V2 == 0x10,
                ;
                f
            },
        }
    }
}

/// Why the native RADE library refused a request.
#[allow(inconsistent_fields)]
#[derive(Debug, Clone, Copy, PartialEq, Eq)]
pub enum RadeNativeError {
    NullContext,
    FeatureCount { expected: usize, actual: usize },
    InputSampleCount { expected: usize, actual: usize },
    InvalidOutputCount { actual: i32 },
}


/// The check before a transmit frame: exactly as many feature values as
/// the context consumes.
pub fn check_feature_count(expected: usize, actual: usize) -> (r: Result<(), RadeNativeError>)
    ensures
        r is Ok <==> actual == expected,
        r is Err ==> r == Err::<(), RadeNativeError>(RadeNativeError::FeatureCount { expected, actual }),
{
    if actual != expected {
        Err(RadeNativeError::FeatureCount { expected, actual })
    } else {
        Ok(())
    }
}

/// The check before a receive frame: the count that the context asks for
/// must be valid, and the input must hold exactly that many IQ samples.
pub fn check_input_count(expected: i32, actual: usize) -> (r: Result<usize, RadeNativeError>)
    ensures
        expected < 0 ==> r == Err::<usize, RadeNativeError>(
            RadeNativeError::InvalidOutputCount { actual: expected },
        ),
        expected >= 0 && actual != expected ==> r == Err::<usize, RadeNativeError>(
            RadeNativeError::InputSampleCount { expected: expected as usize, actual },
        ),
        expected >= 0 && actual == expected ==> r == Ok::<usize, RadeNativeError>(actual),
{
    if expected < 0 {
        return Err(RadeNativeError::InvalidOutputCount { actual: expected });
    }
    let e = expected as usize;
    if actual != e {
        return Err(RadeNativeError::InputSampleCount { expected: e, actual });
    }
    Ok(actual)
}

/// The size of an output buffer that the context announces; a negative
/// count is refused.
pub fn output_capacity(count: i32) -> (r: Result<usize, RadeNativeError>)
    ensures
        count < 0 ==> r == Err::<usize, RadeNativeError>(RadeNativeError::InvalidOutputCount { actual: count }),
        count >= 0 ==> r == Ok::<usize, RadeNativeError>(count as usize),
{
    if count < 0 {
        Err(RadeNativeError::InvalidOutputCount { actual: count })
    } else {
        Ok(count as usize)
    }
}

/// How many output values a call produced, which must lie within its buffer.
pub fn produced_count(actual: i32, capacity: usize) -> (r: Result<usize, RadeNativeError>)
    ensures
        (actual < 0 || actual > capacity) ==> r == Err::<usize, RadeNativeError>(
            RadeNativeError::InvalidOutputCount { actual },
        ),
        (0 <= actual <= capacity) ==> r == Ok::<usize, RadeNativeError>(actual as usize),
{
    if actual < 0 || actual as usize > capacity {
        Err(RadeNativeError::InvalidOutputCount { actual })
    } else {
        Ok(actual as usize)
    }
}

/// The receiver state after a frame: the end of an over wins, then
/// synchronization, else the receiver is still searching.
pub fn rx_state(end_of_over: bool, synchronized: bool) -> (r: VoiceSyncState)
    ensures
        r == if end_of_over {
            VoiceSyncState::EndOfOver
        } else if synchronized {
            VoiceSyncState::Synchronized
        } else {
            VoiceSyncState::Searching
        },
{
    if end_of_over {
        VoiceSyncState::EndOfOver
    } else if synchronized {
        VoiceSyncState::Synchronized
    } else {
        VoiceSyncState::Searching
    }
}


/// The description of a native refusal.
pub open spec fn native_error_text(e: RadeNativeError) -> Seq<char> {
    match e {
        RadeNativeError::NullContext => "rade_c returned a null context"@,
        RadeNativeError::FeatureCount { expected, actual } => "rade_c requires "@ + decimal(
            expected as nat,
        ) + " feature values, got "@ + decimal(actual as nat),
        RadeNativeError::InputSampleCount { expected, actual } => "rade_c requires "@ + decimal(
            expected as nat,
        ) + " IQ samples, got "@ + decimal(actual as nat),
        RadeNativeError::InvalidOutputCount { actual } => "rade_c returned an invalid output count "@
            + signed_decimal(actual as int),
    }
}

impl RadeNativeError {
    /// A short English description, for logs and error values of callers.
    pub fn message(&self) -> (r: String)
        ensures
            r@ == native_error_text(*self),
    {
        let mut out: Vec<char> = Vec::new();
        match self {
            RadeNativeError::NullContext => push_lit(&mut out, "rade_c returned a null context"),
            RadeNativeError::FeatureCount { expected, actual } => {
                push_lit(&mut out, "rade_c requires ");
                let e = decimal_exec(*expected as u64);
                out.extend_from_slice(e.as_slice());
                push_lit(&mut out, " feature values, got ");
                let a = decimal_exec(*actual as u64);
                out.extend_from_slice(a.as_slice());
            },
            RadeNativeError::InputSampleCount { expected, actual } => {
                push_lit(&mut out, "rade_c requires ");
                let e = decimal_exec(*expected as u64);
                out.extend_from_slice(e.as_slice());
                push_lit(&mut out, " IQ samples, got ");
                let a = decimal_exec(*actual as u64);
                out.extend_from_slice(a.as_slice());
            },
            RadeNativeError::InvalidOutputCount { actual } => {
                push_lit(&mut out, "rade_c returned an invalid output count ");
                let a = signed_decimal_exec(*actual as i64);
                out.extend_from_slice(a.as_slice());
            },
        }
        assert(out@.subrange(0, out@.len() as int) =~= out@);
        string_of(&out, 0, out.len())
    }
}

} // verus!
