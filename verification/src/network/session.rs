//! The decisions of a station-network session: what a send writes, the
//! messages that open a session, and when a heartbeat is due. The socket
//! and the clock belong to the caller.
use vstd::prelude::*;
use crate::error::ClientError;
use crate::text::push_str;
use super::codec::{encode, encode_spec};
use super::message::{Message, MessageView};

verus! {

/// The frame that a send writes, or why it refuses: an encode error or a
/// frame over the limit.
pub open spec fn frame_spec(m: MessageView, max_frame_bytes: nat) -> Result<Seq<u8>, ClientError> {
    match encode_spec(m) {
        Err(e) => Err(ClientError::Protocol(e)),
        Ok(b) => if b.len() > max_frame_bytes {
            Err(ClientError::FrameTooLarge)
        } else {
            Ok(b)
        },
    }
}

/// The frame of `message` to write, or why it may not be written.
pub fn frame(message: &Message, max_frame_bytes: usize) -> (r: Result<Vec<u8>, ClientError>)
    ensures
        match frame_spec(message@, max_frame_bytes as nat) {
            Ok(b) => r is Ok && r->Ok_0@ == b,
            Err(e) => r == Err::<Vec<u8>, ClientError>(e),
        },
{
    let bytes = match encode(message) {
        Ok(b) => b,
        Err(e) => {
            return Err(ClientError::Protocol(e));
        },
    };
    if bytes.len() > max_frame_bytes {
        return Err(ClientError::FrameTooLarge);
    }
    Ok(bytes)
}

/// The messages that open a session, in order: the station's band and mode,
/// `OPEN`, and an empty `WHO` that asks for the roster.
pub open spec fn opening_spec(station: Seq<char>, band: Seq<char>, mode: Seq<char>) -> Seq<MessageView> {
    seq![
        MessageView::BandMode { station, band, mode },
        MessageView::Open,
        MessageView::Who(seq![]),
    ]
}

/// The messages that open a session, after the announcement has been checked
/// to encode, so that no part of the sequence goes out when it cannot.
pub fn opening(station: &str, band: &str, mode: &str) -> (r: Result<Vec<Message>, ClientError>)
    ensures
        match encode_spec(MessageView::BandMode { station: station@, band: band@, mode: mode@ }) {
            Ok(_) => r is Ok && r->Ok_0@.map_values(|m: Message| m@) == opening_spec(
                station@,
                band@,
                mode@,
            ),
            Err(e) => r == Err::<Vec<Message>, ClientError>(ClientError::Protocol(e)),
        },
{
    let mut s = String::new();
    push_str(&mut s, station);
    let mut b = String::new();
    push_str(&mut b, band);
    let mut m = String::new();
    push_str(&mut m, mode);
    let announce = Message::BandMode { station: s, band: b, mode: m };
    match encode(&announce) {
        Err(e) => {
            return Err(ClientError::Protocol(e));
        },
        Ok(_) => {},
    }
    let mut r: Vec<Message> = Vec::new();
    r.push(announce);
    r.push(Message::Open);
    let who: Vec<String> = Vec::new();
    r.push(Message::Who(who));
    proof {
        let got = r@.map_values(|x: Message| x@);
        assert(got[2] == MessageView::Who(super::message::strings_view(who@)));
        assert(super::message::strings_view(who@) =~= Seq::<Seq<char>>::empty());
        assert(got =~= opening_spec(station@, band@, mode@));
    }
    Ok(r)
}

/// Whether a heartbeat `CHECK` is due: refused for a zero interval, due once
/// the time since the last `CHECK` has reached the interval.
pub open spec fn heartbeat_spec(interval_nanos: nat, elapsed_nanos: nat) -> Result<bool, ClientError> {
    if interval_nanos == 0 {
        Err(ClientError::ZeroHeartbeatInterval)
    } else {
        Ok(elapsed_nanos >= interval_nanos)
    }
}

/// Whether a heartbeat is due, from the interval and the time since the last
/// `CHECK`, both in nanoseconds.
pub fn heartbeat_due(interval_nanos: u128, elapsed_nanos: u128) -> (r: Result<bool, ClientError>)
    ensures
        r == heartbeat_spec(interval_nanos as nat, elapsed_nanos as nat),
{
    if interval_nanos == 0 {
        return Err(ClientError::ZeroHeartbeatInterval);
    }
    Ok(elapsed_nanos >= interval_nanos)
}

} // verus!
