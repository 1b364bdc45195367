//! Payloads of the opt-in UDP broadcasts to external logging applications:
//! N1MM `contactinfo` XML and a single ADIF record.
use vstd::prelude::*;
use vstd::utf8::encode_utf8;
use crate::network::message::push_lit;
use crate::number::{decimal, decimal_exec};
use crate::text::{chars_of, lemma_occurs_grow, occurs, string_of, trim, trim_bounds, vec_extend};

verus! {

/// One contact, as the broadcasts carry it.
#[derive(Clone, Debug, PartialEq, Eq)]
pub struct Qso {
    pub call: String,
    pub my_call: String,
    pub band: String,
    pub mode: String,
    pub timestamp: String,
    pub qso_date: String,
    pub time_on: String,
    pub rst_sent: String,
    pub rst_received: String,
    pub grid: String,
    pub exchange: String,
    pub comment: String,
    pub station_name: String,
    pub id: String,
}

/// The payload format of a broadcast.
#[derive(Clone, Copy, Debug, PartialEq, Eq, Structural)]
pub enum Format {
    N1mmContactInfo,
    Adif,
}

/// The XML text that stands for `c` in a `contactinfo` value.
pub open spec fn xml_escape_char(c: char) -> Seq<char> {
    if c == '&' {
        seq!['&', 'a', 'm', 'p', ';']
    } else if c == '<' {
        seq!['&', 'l', 't', ';']
    } else if c == '>' {
        seq!['&', 'g', 't', ';']
    } else {
        seq![c]
    }
}

/// `s` with `&`, `<` and `>` replaced by their entities.
pub open spec fn xml_escaped(s: Seq<char>) -> Seq<char>
    decreases s.len(),
{
    if s.len() == 0 {
        seq![]
    } else {
        xml_escaped(s.drop_last()) + xml_escape_char(s.last())
    }
}

/// `<name>escaped value</name>`.
pub open spec fn xml_field(name: Seq<char>, value: Seq<char>) -> Seq<char> {
    "<"@ + name + ">"@ + xml_escaped(value) + "</"@ + name + ">"@
}

/// The N1MM `contactinfo` document of a contact.
pub open spec fn contactinfo_spec(q: Qso) -> Seq<char> {
    "<?xml version=\"1.0\" encoding=\"utf-8\"?><contactinfo>"@ + xml_field("app"@, "QSONaut"@)
        + xml_field("timestamp"@, q.timestamp@) + xml_field("mycall"@, q.my_call@) + xml_field(
        "band"@,
        q.band@,
    ) + xml_field("mode"@, q.mode@) + xml_field("call"@, q.call@) + xml_field(
        "gridsquare"@,
        q.grid@,
    ) + xml_field("exchangel"@, q.exchange@) + xml_field("comment"@, q.comment@) + xml_field(
        "snt"@,
        q.rst_sent@,
    ) + xml_field("rcv"@, q.rst_received@) + xml_field("StationName"@, q.station_name@)
        + xml_field("ID"@, q.id@) + "</contactinfo>"@
}

/// `<NAME:length>value`, the length in UTF-8 bytes; nothing for an empty value.
pub open spec fn adif_field(name: Seq<char>, value: Seq<char>) -> Seq<char> {
    if value.len() == 0 {
        seq![]
    } else {
        "<"@ + name + ":"@ + decimal(encode_utf8(value).len()) + ">"@ + value
    }
}

/// The ADIF record of a contact.
pub open spec fn adif_record_spec(q: Qso) -> Seq<char> {
    adif_field("CALL"@, q.call@) + adif_field("MY_CALLSIGN"@, q.my_call@) + adif_field(
        "BAND"@,
        q.band@,
    ) + adif_field("MODE"@, q.mode@) + adif_field("QSO_DATE"@, q.qso_date@) + adif_field(
        "TIME_ON"@,
        q.time_on@,
    ) + adif_field("RST_SENT"@, q.rst_sent@) + adif_field("RST_RCVD"@, q.rst_received@)
        + adif_field("GRIDSQUARE"@, q.grid@) + adif_field("COMMENT"@, q.comment@) + "<EOR>"@
}

fn push_xml_escape_char(out: &mut Vec<char>, c: char)
    ensures
        final(out)@ == old(out)@ + xml_escape_char(c),
{
    let ghost start = out@;
    if c == '&' {
        out.push('&');
        out.push('a');
        out.push('m');
        out.push('p');
        out.push(';');
    } else if c == '<' {
        out.push('&');
        out.push('l');
        out.push('t');
        out.push(';');
    } else if c == '>' {
        out.push('&');
        out.push('g');
        out.push('t');
        out.push(';');
    } else {
        out.push(c);
    }
    assert(out@ =~= start + xml_escape_char(c));
}

/// Appends `<name>escaped value</name>`.
fn push_xml_field(out: &mut Vec<char>, name: &str, value: &str)
    ensures
        final(out)@ == old(out)@ + xml_field(name@, value@),
{
    let ghost start = out@;
    push_lit(out, "<");
    push_lit(out, name);
    push_lit(out, ">");
    let ghost mid = out@;
    let v = chars_of(value);
    let mut i: usize = 0;
    assert(xml_escaped(v@.take(0)) =~= Seq::<char>::empty());
    assert(mid + Seq::<char>::empty() =~= mid);
    while i < v.len()
        invariant
            i <= v@.len(),
            out@ == mid + xml_escaped(v@.take(i as int)),
        decreases v@.len() - i,
    {
        push_xml_escape_char(out, v[i]);
        assert(v@.take(i + 1).drop_last() =~= v@.take(i as int));
        assert(mid + xml_escaped(v@.take(i + 1)) =~= mid + xml_escaped(v@.take(i as int))
            + xml_escape_char(v@[i as int]));
        i += 1;
    }
    assert(v@.take(v@.len() as int) =~= v@);
    push_lit(out, "</");
    push_lit(out, name);
    push_lit(out, ">");
    assert(out@ =~= start + xml_field(name@, value@));
}

/// Appends `<NAME:length>value` unless the value is empty.
fn push_adif_field(out: &mut Vec<char>, name: &str, value: &str)
    ensures
        final(out)@ == old(out)@ + adif_field(name@, value@),
{
    let ghost start = out@;
    if value.is_empty() {
        assert(out@ =~= start + adif_field(name@, value@));
        return;
    }
    let n = value.as_bytes().len();
    push_lit(out, "<");
    push_lit(out, name);
    push_lit(out, ":");
    let d = decimal_exec(n as u64);
    vec_extend(out, &d, 0, d.len());
    assert(d@.subrange(0, d@.len() as int) =~= d@);
    push_lit(out, ">");
    push_lit(out, value);
    assert(out@ =~= start + adif_field(name@, value@));
}

impl Qso {
    /// The N1MM `contactinfo` XML document of this contact.
    pub fn n1mm_contactinfo(&self) -> (r: String)
        ensures
            r@ == contactinfo_spec(*self),
    {
        let mut out: Vec<char> = Vec::new();
        push_lit(&mut out, "<?xml version=\"1.0\" encoding=\"utf-8\"?><contactinfo>");
        push_xml_field(&mut out, "app", "QSONaut");
        push_xml_field(&mut out, "timestamp", self.timestamp.as_str());
        push_xml_field(&mut out, "mycall", self.my_call.as_str());
        push_xml_field(&mut out, "band", self.band.as_str());
        push_xml_field(&mut out, "mode", self.mode.as_str());
        push_xml_field(&mut out, "call", self.call.as_str());
        push_xml_field(&mut out, "gridsquare", self.grid.as_str());
        push_xml_field(&mut out, "exchangel", self.exchange.as_str());
        push_xml_field(&mut out, "comment", self.comment.as_str());
        push_xml_field(&mut out, "snt", self.rst_sent.as_str());
        push_xml_field(&mut out, "rcv", self.rst_received.as_str());
        push_xml_field(&mut out, "StationName", self.station_name.as_str());
        push_xml_field(&mut out, "ID", self.id.as_str());
        push_lit(&mut out, "</contactinfo>");
        assert(out@ =~= contactinfo_spec(*self));
        assert(out@.subrange(0, out@.len() as int) =~= out@);
        string_of(&out, 0, out.len())
    }

    /// The ADIF record of this contact; empty values are left out.
    pub fn adif(&self) -> (r: String)
        ensures
            r@ == adif_record_spec(*self),
    {
        let mut out: Vec<char> = Vec::new();
        push_adif_field(&mut out, "CALL", self.call.as_str());
        push_adif_field(&mut out, "MY_CALLSIGN", self.my_call.as_str());
        push_adif_field(&mut out, "BAND", self.band.as_str());
        push_adif_field(&mut out, "MODE", self.mode.as_str());
        push_adif_field(&mut out, "QSO_DATE", self.qso_date.as_str());
        push_adif_field(&mut out, "TIME_ON", self.time_on.as_str());
        push_adif_field(&mut out, "RST_SENT", self.rst_sent.as_str());
        push_adif_field(&mut out, "RST_RCVD", self.rst_received.as_str());
        push_adif_field(&mut out, "GRIDSQUARE", self.grid.as_str());
        push_adif_field(&mut out, "COMMENT", self.comment.as_str());
        push_lit(&mut out, "<EOR>");
        assert(out@ =~= adif_record_spec(*self));
        assert(out@.subrange(0, out@.len() as int) =~= out@);
        string_of(&out, 0, out.len())
    }
}

/// Why a UDP broadcast setting or send was refused.
#[derive(Debug, Clone, Copy, PartialEq, Eq, Structural)]
pub enum UdpError {
    /// Broadcasting enabled with no destination.
    NoDestination,
    /// A payload limit outside 256 to 65507 bytes.
    PayloadLimit,
    /// A destination with a blank host or port 0.
    DestinationRequired,
    /// A payload larger than the configured limit.
    PayloadTooLarge,
}

/// The description of a broadcast refusal.
pub open spec fn udp_error_text(e: UdpError) -> Seq<char> {
    match e {
        UdpError::NoDestination => "at least one UDP destination is required when enabled"@,
        UdpError::PayloadLimit => "UDP payload limit must be between 256 and 65507 bytes"@,
        UdpError::DestinationRequired => "UDP destination host and port are required"@,
        UdpError::PayloadTooLarge => "UDP payload exceeds configured limit"@,
    }
}

impl UdpError {
    /// A short English description, for logs and error values of callers.
    pub fn message(&self) -> (r: &'static str)
        ensures
            r@ == udp_error_text(*self),
    {
        match self {
            UdpError::NoDestination => "at least one UDP destination is required when enabled",
            UdpError::PayloadLimit => "UDP payload limit must be between 256 and 65507 bytes",
            UdpError::DestinationRequired => "UDP destination host and port are required",
            UdpError::PayloadTooLarge => "UDP payload exceeds configured limit",
        }
    }
}

/// The smallest payload limit accepted.
pub const MIN_PAYLOAD_BYTES: usize = 256;

/// The largest payload limit accepted: the largest UDP payload over IPv4.
pub const MAX_PAYLOAD_BYTES: usize = 65_507;

/// What validation says of broadcast settings: enabled settings need a
/// destination, and the payload limit must lie from 256 to 65507 bytes.
pub open spec fn settings_spec(enabled: bool, destinations: nat, max_payload_bytes: nat) -> Result<(), UdpError> {
    if enabled && destinations == 0 {
        Err(UdpError::NoDestination)
    } else if !(MIN_PAYLOAD_BYTES <= max_payload_bytes <= MAX_PAYLOAD_BYTES) {
        Err(UdpError::PayloadLimit)
    } else {
        Ok(())
    }
}

/// Checks broadcast settings from whether they are enabled, how many
/// destinations they hold, and their payload limit.
pub fn validate_settings(enabled: bool, destinations: usize, max_payload_bytes: usize) -> (r: Result<(), UdpError>)
    ensures
        r == settings_spec(enabled, destinations as nat, max_payload_bytes as nat),
{
    if enabled && destinations == 0 {
        return Err(UdpError::NoDestination);
    }
    if max_payload_bytes < MIN_PAYLOAD_BYTES || max_payload_bytes > MAX_PAYLOAD_BYTES {
        return Err(UdpError::PayloadLimit);
    }
    Ok(())
}

/// The host to resolve for a destination: the trimmed host, unless it is
/// blank or the port is 0.
pub fn destination_host(host: &str, port: u16) -> (r: Result<String, UdpError>)
    ensures
        match r {
            Ok(h) => port != 0 && trim(host@).len() > 0 && h@ == trim(host@),
            Err(e) => e == UdpError::DestinationRequired && (port == 0 || trim(host@).len() == 0),
        },
{
    let v = chars_of(host);
    let (from, to) = trim_bounds(&v, 0, v.len());
    assert(v@.subrange(0, v@.len() as int) =~= v@);
    if port == 0 || from == to {
        return Err(UdpError::DestinationRequired);
    }
    Ok(string_of(&v, from, to))
}

/// The payload that a broadcast sends, if any: nothing when broadcasting is
/// disabled, else the contact in the chosen format, refused when its UTF-8
/// length exceeds the limit.
pub open spec fn payload_spec(q: Qso, format: Format, enabled: bool, max_payload_bytes: nat) -> Result<
    Option<Seq<char>>,
    UdpError,
> {
    if !enabled {
        Ok(None)
    } else {
        let p = match format {
            Format::N1mmContactInfo => contactinfo_spec(q),
            Format::Adif => adif_record_spec(q),
        };
        if encode_utf8(p).len() > max_payload_bytes {
            Err(UdpError::PayloadTooLarge)
        } else {
            Ok(Some(p))
        }
    }
}

/// The payload of one broadcast of `qso`, checked against the limit.
pub fn broadcast_payload(qso: &Qso, format: Format, enabled: bool, max_payload_bytes: usize) -> (r: Result<
    Option<String>,
    UdpError,
>)
    ensures
        match payload_spec(*qso, format, enabled, max_payload_bytes as nat) {
            Ok(Some(p)) => r matches Ok(Some(s)) && s@ == p,
            Ok(None) => r matches Ok(None),
            Err(e) => r == Err::<Option<String>, UdpError>(e),
        },
{
    if !enabled {
        return Ok(None);
    }
    let payload = match format {
        Format::N1mmContactInfo => qso.n1mm_contactinfo(),
        Format::Adif => qso.adif(),
    };
    if payload.as_str().as_bytes().len() > max_payload_bytes {
        return Err(UdpError::PayloadTooLarge);
    }
    Ok(Some(payload))
}

/// Each tag of the N1MM `contactinfo` document carries the contact's field
/// of the same meaning: the sent report under `snt`, the received one under
/// `rcv`, the worked station under `call`, and so on.
pub proof fn lemma_contactinfo_fields(q: Qso)
    ensures
        occurs(contactinfo_spec(q), xml_field("app"@, "QSONaut"@)),
        occurs(contactinfo_spec(q), xml_field("timestamp"@, q.timestamp@)),
        occurs(contactinfo_spec(q), xml_field("mycall"@, q.my_call@)),
        occurs(contactinfo_spec(q), xml_field("band"@, q.band@)),
        occurs(contactinfo_spec(q), xml_field("mode"@, q.mode@)),
        occurs(contactinfo_spec(q), xml_field("call"@, q.call@)),
        occurs(contactinfo_spec(q), xml_field("gridsquare"@, q.grid@)),
        occurs(contactinfo_spec(q), xml_field("exchangel"@, q.exchange@)),
        occurs(contactinfo_spec(q), xml_field("comment"@, q.comment@)),
        occurs(contactinfo_spec(q), xml_field("snt"@, q.rst_sent@)),
        occurs(contactinfo_spec(q), xml_field("rcv"@, q.rst_received@)),
        occurs(contactinfo_spec(q), xml_field("StationName"@, q.station_name@)),
        occurs(contactinfo_spec(q), xml_field("ID"@, q.id@)),
{
    lemma_occurs_grow();
}

/// Each ADIF field of the record carries the contact's field of the same
/// meaning: the sent report under `RST_SENT`, the received one under
/// `RST_RCVD`, and so on.
pub proof fn lemma_adif_fields(q: Qso)
    ensures
        occurs(adif_record_spec(q), adif_field("CALL"@, q.call@)),
        occurs(adif_record_spec(q), adif_field("MY_CALLSIGN"@, q.my_call@)),
        occurs(adif_record_spec(q), adif_field("BAND"@, q.band@)),
        occurs(adif_record_spec(q), adif_field("MODE"@, q.mode@)),
        occurs(adif_record_spec(q), adif_field("QSO_DATE"@, q.qso_date@)),
        occurs(adif_record_spec(q), adif_field("TIME_ON"@, q.time_on@)),
        occurs(adif_record_spec(q), adif_field("RST_SENT"@, q.rst_sent@)),
        occurs(adif_record_spec(q), adif_field("RST_RCVD"@, q.rst_received@)),
        occurs(adif_record_spec(q), adif_field("GRIDSQUARE"@, q.grid@)),
        occurs(adif_record_spec(q), adif_field("COMMENT"@, q.comment@)),
{
    lemma_occurs_grow();
}

} // verus!
