//! The decisions of an API client session: which commands may be sent, what
//! the logger's responses teach about its API version, and the order of the
//! emergency release. The socket, pacing and retries belong to the caller.
use vstd::prelude::*;
use crate::error::{ClientError, Error};
use super::catalog::{kind_minimum, kind_transmits, version_le, version_spec, CommandKind, Version};
use super::command::{encode_spec, Command, CommandView};
use super::entry::{commands_view, entry_spec, Entry, EntryView};
use super::packet::{packets_view, program_info_spec, value_spec, Packet, PacketView, ProgramInfo, ProgramInfoView};
use crate::network::message::eq_lit;
use crate::text::chars_of;

verus! {

/// What a session knows of its logger.
pub struct Session {
    program: Option<ProgramInfo>,
    api_version: Option<Version>,
    max_frame_bytes: usize,
}

/// A session: the program description and API version learned so far, and
/// the frame limit.
pub ghost struct SessionView {
    pub program: Option<ProgramInfoView>,
    pub api_version: Option<Version>,
    pub max_frame_bytes: nat,
}

/// The view of a program description.
pub open spec fn info_view(p: ProgramInfo) -> ProgramInfoView {
    ProgramInfoView { name: p.name@, program_version: p.program_version@, api_version: p.api_version }
}

impl View for Session {
    type V = SessionView;

    closed spec fn view(&self) -> SessionView {
        SessionView {
            program: match self.program {
                Some(p) => Some(info_view(p)),
                None => None,
            },
            api_version: self.api_version,
            max_frame_bytes: self.max_frame_bytes as nat,
        }
    }
}

/// The bytes of `c` as the session would write them, or why it refuses: an
/// API version known to lack the command, an encode error, or a frame over
/// the limit.
pub open spec fn validate_spec(s: SessionView, c: CommandView) -> Result<Seq<u8>, ClientError> {
    match s.api_version {
        Some(v) if !version_le(kind_minimum(c.kind), v) => Err(ClientError::Unsupported),
        _ => match encode_spec(c) {
            Err(e) => Err(ClientError::Protocol(e)),
            Ok(b) => if b.len() > s.max_frame_bytes {
                Err(ClientError::FrameTooLarge)
            } else {
                Ok(b)
            },
        },
    }
}

/// A plain send: as `validate_spec`, but a transmit or CAT command is refused.
pub open spec fn send_spec(s: SessionView, c: CommandView) -> Result<Seq<u8>, ClientError> {
    if kind_transmits(c.kind) {
        Err(ClientError::NeedsAuthorization)
    } else {
        validate_spec(s, c)
    }
}

/// The session after one received packet: a `PROGRAMRESPONSE` sets the
/// program and its API version, an `APIVERRESPONSE` with a valid `APIVER`
/// sets the version; nothing else changes it.
pub open spec fn observe_packet(s: SessionView, p: PacketView) -> SessionView {
    match program_info_spec(p) {
        Ok(Some(info)) => SessionView { program: Some(info), api_version: Some(info.api_version), ..s },
        _ => if p.id == "APIVERRESPONSE"@ {
            match value_spec(p.body, "APIVER"@) {
                Some(a) => match version_spec(a) {
                    Some(v) => SessionView { api_version: Some(v), ..s },
                    None => s,
                },
                None => s,
            }
        } else {
            s
        },
    }
}

/// The session after packets received in order.
pub open spec fn observe_all(s: SessionView, ps: Seq<PacketView>) -> SessionView
    decreases ps.len(),
{
    if ps.len() == 0 {
        s
    } else {
        observe_packet(observe_all(s, ps.drop_last()), ps.last())
    }
}

/// The first command of `cs` that the session refuses, as its refusal.
pub open spec fn first_refusal(s: SessionView, cs: Seq<CommandView>) -> Option<ClientError>
    decreases cs.len(),
{
    if cs.len() == 0 {
        None
    } else {
        match first_refusal(s, cs.drop_last()) {
            Some(e) => Some(e),
            None => match validate_spec(s, cs.last()) {
                Err(e) => Some(e),
                Ok(_) => None,
            },
        }
    }
}

/// A refusal among the first commands stays the first refusal of all of them.
pub proof fn lemma_first_refusal_prefix(s: SessionView, cs: Seq<CommandView>, k: int)
    requires
        0 <= k <= cs.len(),
        first_refusal(s, cs.take(k)) is Some,
    ensures
        first_refusal(s, cs) == first_refusal(s, cs.take(k)),
    decreases cs.len(),
{
    if k < cs.len() {
        assert(cs.drop_last().take(k) =~= cs.take(k));
        lemma_first_refusal_prefix(s, cs.drop_last(), k);
    } else {
        assert(cs.take(k) =~= cs);
    }
}

/// The commands of an entry submission, checked in full before any is sent:
/// refused unless the logger's API is known to be 1.4 or newer, then as the
/// entry builds them, then as the session validates each.
pub open spec fn entry_plan_spec(s: SessionView, e: EntryView, frequency_valid: bool) -> Result<
    Seq<CommandView>,
    ClientError,
> {
    match s.api_version {
        Some(v) if version_le(Version(1, 4, 0), v) => match entry_spec(e, frequency_valid) {
            Err(err) => Err(ClientError::Protocol(err)),
            Ok(cs) => match first_refusal(s, cs) {
                Some(r) => Err(r),
                None => Ok(cs),
            },
        },
        _ => Err(ClientError::EntryNeedsApi14),
    }
}

/// The emergency release, in order: stop the CW queue, key the CW port up,
/// and return the rig to receive.
pub open spec fn release_spec() -> Seq<CommandView> {
    seq![
        CommandView { kind: CommandKind::CwStop, parameters: seq![] },
        CommandView { kind: CommandKind::CwComPortKeyUp, parameters: seq![] },
        CommandView { kind: CommandKind::RigRx, parameters: seq![] },
    ]
}

impl Session {
    /// A session that knows nothing of its logger yet.
    pub fn new(max_frame_bytes: usize) -> (s: Self)
        ensures
            s@ == (SessionView { program: None, api_version: None, max_frame_bytes: max_frame_bytes as nat }),
    {
        Session { program: None, api_version: None, max_frame_bytes }
    }

    /// The program description from the last `PROGRAMRESPONSE`.
    pub fn program(&self) -> (r: Option<&ProgramInfo>)
        ensures
            match r {
                Some(p) => self@.program == Some(info_view(*p)),
                None => self@.program is None,
            },
    {
        match &self.program {
            Some(p) => Some(p),
            None => None,
        }
    }

    /// The logger's API version, once a response has told it.
    pub fn api_version(&self) -> (r: Option<Version>)
        ensures
            r == self@.api_version,
    {
        self.api_version
    }

    /// The largest frame that the session writes.
    pub fn max_frame_bytes(&self) -> (r: usize)
        ensures
            r == self@.max_frame_bytes,
    {
        self.max_frame_bytes
    }

    /// The bytes of `command` to write, or why they may not be written.
    pub fn validate_command(&self, command: &Command) -> (r: Result<Vec<u8>, ClientError>)
        ensures
            match validate_spec(self@, command@) {
                Ok(b) => r is Ok && r->Ok_0@ == b,
                Err(e) => r == Err::<Vec<u8>, ClientError>(e),
            },
    {
        match self.api_version {
            Some(v) => {
                if !command.supported_by(v) {
                    return Err(ClientError::Unsupported);
                }
            },
            None => {},
        }
        let bytes = match command.encode() {
            Ok(b) => b,
            Err(e) => {
                return Err(ClientError::Protocol(e));
            },
        };
        if bytes.len() > self.max_frame_bytes {
            return Err(ClientError::FrameTooLarge);
        }
        Ok(bytes)
    }

    /// The bytes of `command` for a plain send, which never carries a
    /// transmit or CAT command: those need the authorized path.
    pub fn prepare_send(&self, command: &Command) -> (r: Result<Vec<u8>, ClientError>)
        ensures
            match send_spec(self@, command@) {
                Ok(b) => r is Ok && r->Ok_0@ == b,
                Err(e) => r == Err::<Vec<u8>, ClientError>(e),
            },
    {
        if command.kind().spec().requires_transmit_authorization {
            return Err(ClientError::NeedsAuthorization);
        }
        self.validate_command(command)
    }

    /// Learns from one received packet.
    fn observe_one(&mut self, packet: &Packet)
        ensures
            final(self)@ == observe_packet(old(self)@, packet@),
    {
        match packet.program_info() {
            Ok(Some(info)) => {
                self.api_version = Some(info.api_version);
                self.program = Some(info);
                return;
            },
            _ => {},
        }
        let idv = chars_of(packet.id());
        assert(idv@.subrange(0, idv@.len() as int) =~= idv@);
        if eq_lit(&idv, 0, idv.len(), "APIVERRESPONSE") {
            match packet.value("APIVER") {
                Some(a) => match Version::parse(a) {
                    Ok(v) => {
                        self.api_version = Some(v);
                    },
                    Err(_) => {},
                },
                None => {},
            }
        }
    }

    /// Learns from packets received in order. Malformed program responses
    /// change nothing; they stay with the caller for inspection.
    pub fn observe(&mut self, packets: &[Packet])
        ensures
            final(self)@ == observe_all(old(self)@, packets_view(packets@)),
    {
        let ghost start = self@;
        let mut i: usize = 0;
        while i < packets.len()
            invariant
                i <= packets@.len(),
                self@ == observe_all(start, packets_view(packets@.take(i as int))),
            decreases packets@.len() - i,
        {
            self.observe_one(&packets[i]);
            proof {
                let ps = packets_view(packets@.take(i + 1));
                assert(ps.drop_last() =~= packets_view(packets@.take(i as int)));
                assert(ps.last() == packets@[i as int]@);
            }
            i += 1;
        }
        assert(packets@.take(i as int) =~= packets@);
    }

    /// The commands that submit `entry`, each checked as it would be sent; no
    /// command is returned unless all pass.
    pub fn entry_plan(&self, entry: &Entry, frequency_valid: bool) -> (r: Result<Vec<Command>, ClientError>)
        ensures
            match entry_plan_spec(self@, entry@, frequency_valid) {
                Ok(cs) => r is Ok && commands_view(r->Ok_0@) == cs,
                Err(e) => r == Err::<Vec<Command>, ClientError>(e),
            },
    {
        match self.api_version {
            Some(v) => {
                if !v.at_least(&Version(1, 4, 0)) {
                    return Err(ClientError::EntryNeedsApi14);
                }
            },
            None => {
                return Err(ClientError::EntryNeedsApi14);
            },
        }
        let commands = match entry.commands(frequency_valid) {
            Ok(cs) => cs,
            Err(e) => {
                return Err(ClientError::Protocol(e));
            },
        };
        let ghost cs = commands_view(commands@);
        let mut i: usize = 0;
        while i < commands.len()
            invariant
                i <= commands@.len(),
                cs == commands_view(commands@),
                entry_spec(entry@, frequency_valid) == Ok::<Seq<CommandView>, Error>(cs),
                self@.api_version matches Some(v) && version_le(Version(1, 4, 0), v),
                first_refusal(self@, cs.take(i as int)) is None,
            decreases commands@.len() - i,
        {
            let checked = self.validate_command(&commands[i]);
            proof {
                assert(cs.take(i + 1).drop_last() =~= cs.take(i as int));
                assert(cs.take(i + 1).last() == commands@[i as int]@);
            }
            match checked {
                Err(e) => {
                    proof {
                        lemma_first_refusal_prefix(self@, cs, i + 1);
                    }
                    return Err(e);
                },
                Ok(_) => {},
            }
            i += 1;
        }
        assert(cs.take(i as int) =~= cs);
        Ok(commands)
    }
}

/// The emergency release commands, in the order in which they are sent.
pub fn release_commands() -> (r: Vec<Command>)
    ensures
        commands_view(r@) == release_spec(),
{
    let mut r: Vec<Command> = Vec::new();
    r.push(Command::new(CommandKind::CwStop));
    r.push(Command::new(CommandKind::CwComPortKeyUp));
    r.push(Command::new(CommandKind::RigRx));
    assert(commands_view(r@) =~= release_spec());
    r
}


/// Packets observed in two batches teach the session what they teach in one.
pub proof fn lemma_observe_batches(s: SessionView, a: Seq<PacketView>, b: Seq<PacketView>)
    ensures
        observe_all(s, a + b) == observe_all(observe_all(s, a), b),
    decreases b.len(),
{
    if b.len() == 0 {
        assert(a + b =~= a);
    } else {
        lemma_observe_batches(s, a, b.drop_last());
        assert((a + b).drop_last() =~= a + b.drop_last());
        assert((a + b).last() == b.last());
    }
}

/// An entry is submitted only to a logger whose API is known to be 1.4 or
/// newer, and then exactly as the entry builds its commands: an unknown or
/// older API refuses it before anything else is looked at.
pub proof fn lemma_entry_plan_gate(s: SessionView, e: EntryView, frequency_valid: bool)
    ensures
        (s.api_version matches Some(v) ==> (v.0 < 1 || (v.0 == 1 && v.1 < 4))) ==> entry_plan_spec(
            s,
            e,
            frequency_valid,
        ) == Err::<Seq<CommandView>, ClientError>(ClientError::EntryNeedsApi14),
        entry_plan_spec(s, e, frequency_valid) is Ok ==> {
            &&& s.api_version matches Some(v) && (v.0 > 1 || (v.0 == 1 && v.1 >= 4))
            &&& entry_spec(e, frequency_valid) == Ok::<Seq<CommandView>, Error>(
                entry_plan_spec(s, e, frequency_valid)->Ok_0,
            )
        },
{
}

} // verus!
