//! Metadata and pure decisions of the third-party modem adapters: WSJT-family
//! modes, SSTV, RADE and CW. The signal processing itself runs outside.
pub mod cw;
pub mod rade;
pub mod receiver;
pub mod sstv;
pub mod wsjt;

use vstd::prelude::*;
use crate::network::message::push_lit;
use crate::number::{decimal, decimal_exec};
use crate::text::string_of;

verus! {

/// The identity of a modem in the consumer contract.
#[derive(Debug, Clone, Copy, PartialEq, Eq)]
pub struct ModemId(pub &'static str);

/// Why an adapter refused its audio.
#[derive(Debug, Clone, Copy, PartialEq, Eq)]
pub enum AdapterError {
    UnsupportedSampleRate { modem: &'static str, expected: u32, actual: u32 },
}

/// The refusal of audio whose rate is not the one a modem requires, if it is not.
pub fn require_sample_rate(modem: &'static str, expected: u32, actual: u32) -> (r: Result<
    (),
    AdapterError,
>)
    ensures
        r is Ok <==> actual == expected,
        r matches Err(AdapterError::UnsupportedSampleRate { modem: m, expected: x, actual: a }) ==> m
            == modem && x == expected && a == actual,
{
    if actual != expected {
        Err(AdapterError::UnsupportedSampleRate { modem, expected, actual })
    } else {
        Ok(())
    }
}


/// The description of an adapter refusal.
pub open spec fn adapter_error_text(e: AdapterError) -> Seq<char> {
    match e {
        AdapterError::UnsupportedSampleRate { modem, expected, actual } => modem@ + " requires "@
            + decimal(expected as nat) + " Hz mono audio, got "@ + decimal(actual as nat) + " Hz"@,
    }
}

impl AdapterError {
    /// A short English description, for logs and error values of callers.
    pub fn message(&self) -> (r: String)
        ensures
            r@ == adapter_error_text(*self),
    {
        let mut out: Vec<char> = Vec::new();
        match self {
            AdapterError::UnsupportedSampleRate { modem, expected, actual } => {
                push_lit(&mut out, modem);
                push_lit(&mut out, " requires ");
                let e = decimal_exec(*expected as u64);
                out.extend_from_slice(e.as_slice());
                push_lit(&mut out, " Hz mono audio, got ");
                let a = decimal_exec(*actual as u64);
                out.extend_from_slice(a.as_slice());
                push_lit(&mut out, " Hz");
            },
        }
        assert(out@.subrange(0, out@.len() as int) =~= out@);
        string_of(&out, 0, out.len())
    }
}

} // verus!
