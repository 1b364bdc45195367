//! Why a protocol operation refused its input.
use vstd::prelude::*;

verus! {

/// Every way in which an N3FJP encode, parse or decode step can refuse its input.
#[derive(Debug, Clone, Copy, PartialEq, Eq, Structural)]
pub enum Error {
    /// A field value holds a control character other than CR, LF or TAB.
    ControlCharacter,
    /// An `&` without a closing `;`.
    UnterminatedEntity,
    /// An entity that names no character.
    InvalidEntity,
    /// A tag name that is not a protocol field name.
    InvalidFieldName,
    /// A `<` without a closing `>`.
    UnterminatedTag,
    /// A tag whose name is not a protocol field name.
    InvalidTag,
    /// A message lacks a field its family requires.
    MissingField,
    /// An unknown body holds a frame marker.
    NestedFrameMarker,
    /// A frame grew beyond the configured limit.
    FrameTooLarge,
    /// A UTF-16 frame with an odd number of bytes.
    OddUtf16Length,
    /// A frame that is not valid UTF-16.
    InvalidUtf16,
    /// An API version that is not two or three dot-separated numbers.
    InvalidVersion,
    /// An API parameter whose name is invalid, reserved or repeated.
    InvalidParameter,
    /// A bare flag other than `INCLUDEALL` on `LIST` or `SEARCH`.
    UnsupportedFlag,
    /// API text that is not printable ASCII without angle brackets.
    InvalidText,
    /// An ADIF value that is not exactly one well-formed record.
    InvalidAdif,
    /// A command lacks a field that its catalog entry requires.
    MissingRequiredField,
    /// An `ACTION` other than ENTER, CLEAR, CALLTAB or DUPECHECK.
    UnknownAction,
    /// `QSOINPROGRESS` or `UPDATEANDLOG` with neither BAND nor FREQ.
    BandOrFreqRequired,
    /// `ATNO` with neither COUNTRYWORKED nor DXCC.
    CountryRequired,
    /// An entry without call, band or mode.
    IncompleteEntry,
    /// An entry frequency that is not a positive number of MHz.
    InvalidFrequency,
    /// An entry control that is invalid, repeated or reserved.
    InvalidControl,
    /// A response that does not start with `<ID>`.
    MissingResponseId,
    /// A response ID without `>`.
    UnterminatedResponseId,
    /// A response ID that is empty, not alphanumeric, or `CMD`.
    InvalidResponseId,
    /// A response body that holds another `CMD` frame.
    NestedApiFrame,
    /// A `PROGRAMRESPONSE` without PGM, VER or APIVER.
    IncompleteProgramResponse,
    /// An `ENTERRESPONSE` without VALUE.
    MissingEnterCount,
    /// An `ENTERRESPONSE` whose VALUE is not a count.
    InvalidEnterCount,
    /// Bytes outside a `<CMD>` frame.
    UnexpectedBytes,
    /// A frame that is not valid UTF-8.
    InvalidUtf8,
}

/// The description of a protocol error.
pub open spec fn error_text(e: Error) -> Seq<char> {
    match e {
        Error::ControlCharacter => "control character in field"@,
        Error::UnterminatedEntity => "unterminated entity"@,
        Error::InvalidEntity => "invalid entity"@,
        Error::InvalidFieldName => "invalid field name"@,
        Error::UnterminatedTag => "unterminated tag"@,
        Error::InvalidTag => "invalid tag"@,
        Error::MissingField => "missing protocol field"@,
        Error::NestedFrameMarker => "nested frame marker"@,
        Error::FrameTooLarge => "frame exceeds configured limit"@,
        Error::OddUtf16Length => "odd UTF-16 frame length"@,
        Error::InvalidUtf16 => "invalid UTF-16 frame"@,
        Error::InvalidVersion => "invalid API version"@,
        Error::InvalidParameter => "invalid or duplicate API parameter"@,
        Error::UnsupportedFlag => "unsupported bare API flag"@,
        Error::InvalidText => "API text must be printable ASCII without angle brackets"@,
        Error::InvalidAdif => "invalid ADIF record"@,
        Error::MissingRequiredField => "missing required API field"@,
        Error::UnknownAction => "unknown ACTION"@,
        Error::BandOrFreqRequired => "BAND or FREQ required"@,
        Error::CountryRequired => "COUNTRYWORKED or DXCC required"@,
        Error::IncompleteEntry => "call, band and mode are required"@,
        Error::InvalidFrequency => "frequency must be positive MHz"@,
        Error::InvalidControl => "invalid, duplicate, or reserved entry control"@,
        Error::MissingResponseId => "missing response ID"@,
        Error::UnterminatedResponseId => "unterminated response ID"@,
        Error::InvalidResponseId => "invalid response ID"@,
        Error::NestedApiFrame => "nested API frame"@,
        Error::IncompleteProgramResponse => "incomplete PROGRAMRESPONSE"@,
        Error::MissingEnterCount => "missing ENTER count"@,
        Error::InvalidEnterCount => "invalid ENTER count"@,
        Error::UnexpectedBytes => "unexpected bytes outside API frame"@,
        Error::InvalidUtf8 => "response is not valid UTF-8/ASCII"@,
    }
}

impl Error {
    /// A short English description, for logs and error values of callers.
    pub fn message(&self) -> (r: &'static str)
        ensures
            r@ == error_text(*self),
    {
        match self {
            Error::ControlCharacter => "control character in field",
            Error::UnterminatedEntity => "unterminated entity",
            Error::InvalidEntity => "invalid entity",
            Error::InvalidFieldName => "invalid field name",
            Error::UnterminatedTag => "unterminated tag",
            Error::InvalidTag => "invalid tag",
            Error::MissingField => "missing protocol field",
            Error::NestedFrameMarker => "nested frame marker",
            Error::FrameTooLarge => "frame exceeds configured limit",
            Error::OddUtf16Length => "odd UTF-16 frame length",
            Error::InvalidUtf16 => "invalid UTF-16 frame",
            Error::InvalidVersion => "invalid API version",
            Error::InvalidParameter => "invalid or duplicate API parameter",
            Error::UnsupportedFlag => "unsupported bare API flag",
            Error::InvalidText => "API text must be printable ASCII without angle brackets",
            Error::InvalidAdif => "invalid ADIF record",
            Error::MissingRequiredField => "missing required API field",
            Error::UnknownAction => "unknown ACTION",
            Error::BandOrFreqRequired => "BAND or FREQ required",
            Error::CountryRequired => "COUNTRYWORKED or DXCC required",
            Error::IncompleteEntry => "call, band and mode are required",
            Error::InvalidFrequency => "frequency must be positive MHz",
            Error::InvalidControl => "invalid, duplicate, or reserved entry control",
            Error::MissingResponseId => "missing response ID",
            Error::UnterminatedResponseId => "unterminated response ID",
            Error::InvalidResponseId => "invalid response ID",
            Error::NestedApiFrame => "nested API frame",
            Error::IncompleteProgramResponse => "incomplete PROGRAMRESPONSE",
            Error::MissingEnterCount => "missing ENTER count",
            Error::InvalidEnterCount => "invalid ENTER count",
            Error::UnexpectedBytes => "unexpected bytes outside API frame",
            Error::InvalidUtf8 => "response is not valid UTF-8/ASCII",
        }
    }
}

/// Why a client refused a request before any byte of it was sent.
#[derive(Debug, Clone, Copy, PartialEq, Eq, Structural)]
pub enum ClientError {
    /// The command could not be encoded.
    Protocol(Error),
    /// A transmit or CAT command sent without the consumer's authorization.
    NeedsAuthorization,
    /// A command that the logger's known API version does not offer.
    Unsupported,
    /// An encoded frame larger than the configured limit.
    FrameTooLarge,
    /// The entry helper before an API version of at least 1.4 is known.
    EntryNeedsApi14,
    /// A heartbeat interval of zero.
    ZeroHeartbeatInterval,
}

/// The description of a client refusal.
pub open spec fn client_error_text(e: ClientError) -> Seq<char> {
    match e {
        ClientError::Protocol(e) => error_text(e),
        ClientError::NeedsAuthorization => "transmit/CAT command requires current consumer authorization"@,
        ClientError::Unsupported => "command requires a newer N3FJP API"@,
        ClientError::FrameTooLarge => "outgoing frame exceeds limit"@,
        ClientError::EntryNeedsApi14 => "query PROGRAM/APIVER first; entry helper requires API 1.4"@,
        ClientError::ZeroHeartbeatInterval => "heartbeat interval must be positive"@,
    }
}

impl ClientError {
    /// A short English description, for logs and error values of callers.
    pub fn message(&self) -> (r: &'static str)
        ensures
            r@ == client_error_text(*self),
    {
        match self {
            ClientError::Protocol(e) => e.message(),
            ClientError::NeedsAuthorization => "transmit/CAT command requires current consumer authorization",
            ClientError::Unsupported => "command requires a newer N3FJP API",
            ClientError::FrameTooLarge => "outgoing frame exceeds limit",
            ClientError::EntryNeedsApi14 => "query PROGRAM/APIVER first; entry helper requires API 1.4",
            ClientError::ZeroHeartbeatInterval => "heartbeat interval must be positive",
        }
    }
}

} // verus!
