//! First-party CW events; upstream Morse result types do not cross this API.
use vstd::prelude::*;
use crate::text::push_char;

verus! {

/// One decoded CW event.
#[derive(Debug, Clone, Copy, PartialEq, Eq)]
pub enum CwDecode {
    Character(char),
    WordBreak,
    Unknown,
}

/// The text that an event adds to the running transcript.
pub open spec fn transcript_char(e: CwDecode) -> char {
    match e {
        CwDecode::Character(c) => c,
        CwDecode::WordBreak => ' ',
        CwDecode::Unknown => '?',
    }
}

impl CwDecode {
    /// The character that this event adds to the transcript: the decoded
    /// character, a space for a word break, `?` for an unknown symbol.
    pub fn transcript_char(self) -> (c: char)
        ensures
            c == transcript_char(self),
    {
        match self {
            CwDecode::Character(c) => c,
            CwDecode::WordBreak => ' ',
            CwDecode::Unknown => '?',
        }
    }
}

/// Appends the transcript text of one event to a channel's transcript.
pub fn accumulate(text: &mut String, event: CwDecode)
    ensures
        final(text)@ == old(text)@.push(transcript_char(event)),
{
    push_char(text, event.transcript_char());
}

/// The wpm setting that the channel uses: the request clamped to 5..=40.
pub fn clamp_wpm(wpm: u8) -> (r: u8)
    ensures
        r == if wpm < 5 { 5 } else if wpm > 40 { 40 } else { wpm },
{
    if wpm < 5 {
        5
    } else if wpm > 40 {
        40
    } else {
        wpm
    }
}

} // verus!
