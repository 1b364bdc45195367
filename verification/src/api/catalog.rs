//! The published API 2.2 command catalog: names, minimum versions, required
//! fields, and which commands key a transmitter.
use vstd::prelude::*;
use crate::error::Error;
use crate::number::{parse_bounded, parse_bounded_exec};
use crate::text::{chars_of, find_in, find_sub, lemma_find_sub, trim, trim_bounds};

verus! {

/// Numerically comparable API version; 0.0.0 marks commands with no stated minimum.
#[derive(Clone, Copy, Debug, PartialEq, Eq, PartialOrd, Ord, Hash)]
pub struct Version(pub u16, pub u16, pub u16);

/// `a` is no later than `b` (lexicographic order of the three numbers).
pub open spec fn version_le(a: Version, b: Version) -> bool {
    a.0 < b.0 || (a.0 == b.0 && (a.1 < b.1 || (a.1 == b.1 && a.2 <= b.2)))
}

/// The parts of `s` between the occurrences of `c`.
#[verifier::opaque]
pub open spec fn split_on(s: Seq<char>, c: char) -> Seq<Seq<char>>
    decreases s.len(),
{
    match find_sub(s, seq![c]) {
        None => seq![s],
        Some(i) => {
            proof {
                lemma_find_sub(s, seq![c]);
            }
            seq![s.take(i)] + split_on(s.skip(i + 1), c)
        },
    }
}

/// Splitting at a first separator.
pub proof fn lemma_split_step(s: Seq<char>, c: char, i: int)
    requires
        find_sub(s, seq![c]) == Some(i),
    ensures
        split_on(s, c) == seq![s.take(i)] + split_on(s.skip(i + 1), c),
{
    reveal(split_on);
}

/// A text without the separator is one part.
pub proof fn lemma_split_none(s: Seq<char>, c: char)
    requires
        find_sub(s, seq![c]) is None,
    ensures
        split_on(s, c) == seq![s],
{
    reveal(split_on);
}

/// There is always at least one part.
pub proof fn lemma_split_nonempty(s: Seq<char>, c: char)
    ensures
        split_on(s, c).len() >= 1,
{
    reveal(split_on);
}

/// A version number part.
pub open spec fn version_part(s: Seq<char>) -> Option<nat> {
    parse_bounded(s, 10, 65535)
}

/// The version that a text names: two or three dot-separated numbers (a
/// missing third is zero), with white space around the whole.
pub open spec fn version_spec(s: Seq<char>) -> Option<Version> {
    let parts = split_on(trim(s), '.');
    if parts.len() < 2 || parts.len() > 3 {
        None
    } else {
        match (
            version_part(parts[0]),
            version_part(parts[1]),
            if parts.len() == 3 {
                version_part(parts[2])
            } else {
                Some(0nat)
            },
        ) {
            (Some(a), Some(b), Some(c)) => Some(Version(a as u16, b as u16, c as u16)),
            _ => None,
        }
    }
}

impl Version {
    /// `self` is no earlier than `other`.
    pub fn at_least(&self, other: &Version) -> (b: bool)
        ensures
            b == version_le(*other, *self),
    {
        other.0 < self.0 || (other.0 == self.0 && (other.1 < self.1 || (other.1 == self.1
            && other.2 <= self.2)))
    }

    /// Read a version such as `2.2` or `0.6.2`.
    #[verifier::rlimit(40)]
    pub fn parse(value: &str) -> (r: Result<Version, Error>)
        ensures
            match version_spec(value@) {
                Some(v) => r == Ok::<Version, Error>(v),
                None => r == Err::<Version, Error>(Error::InvalidVersion),
            },
    {
        let v = chars_of(value);
        assert(v@.subrange(0, v@.len() as int) =~= v@);
        let (a, e) = trim_bounds(&v, 0, v.len());
        let ghost t = v@.subrange(a as int, e as int);
        let dot = ['.'];
        assert(dot@ == seq!['.']);
        let p1 = match find_in(&v, &dot, a, e) {
            None => {
                proof {
                    lemma_split_none(t, '.');
                }
                return Err(Error::InvalidVersion);
            },
            Some(p) => p,
        };
        proof {
            lemma_find_sub(t, seq!['.']);
        }
        let ghost r1 = t.skip(p1 - a + 1);
        assert(t.take(p1 - a) =~= v@.subrange(a as int, p1 as int));
        assert(r1 =~= v@.subrange(p1 + 1, e as int));
        proof {
            lemma_split_step(t, '.', p1 - a);
        }
        let x = match parse_bounded_exec(&v, a, p1, 10, 65535) {
            Some(x) => x,
            None => {
                return Err(Error::InvalidVersion);
            },
        };
        match find_in(&v, &dot, p1 + 1, e) {
            None => {
                proof {
                    lemma_split_none(r1, '.');
                }
                assert(split_on(t, '.') =~= seq![t.take(p1 - a), r1]);
                let y = match parse_bounded_exec(&v, p1 + 1, e, 10, 65535) {
                    Some(y) => y,
                    None => {
                        return Err(Error::InvalidVersion);
                    },
                };
                Ok(Version(x as u16, y as u16, 0))
            },
            Some(p2) => {
                proof {
                    lemma_find_sub(r1, seq!['.']);
                }
                let ghost r2 = r1.skip(p2 - (p1 + 1) + 1);
                assert(r1.take(p2 - (p1 + 1)) =~= v@.subrange(p1 + 1, p2 as int));
                assert(r2 =~= v@.subrange(p2 + 1, e as int));
                proof {
                    lemma_split_step(r1, '.', p2 - (p1 + 1));
                }
                match find_in(&v, &dot, p2 + 1, e) {
                    Some(p3) => {
                        proof {
                            lemma_find_sub(r2, seq!['.']);
                            let r3 = r2.skip(p3 - (p2 + 1) + 1);
                            assert(r3 =~= v@.subrange(p3 + 1, e as int));
                            lemma_split_step(r2, '.', p3 - (p2 + 1));
                            lemma_split_nonempty(r3, '.');
                        }
                        assert(split_on(t, '.').len() > 3);
                        Err(Error::InvalidVersion)
                    },
                    None => {
                        proof {
                            lemma_split_none(r2, '.');
                        }
                        assert(split_on(t, '.') =~= seq![
                            t.take(p1 - a),
                            r1.take(p2 - (p1 + 1)),
                            r2,
                        ]);
                        let y = match parse_bounded_exec(&v, p1 + 1, p2, 10, 65535) {
                            Some(y) => y,
                            None => {
                                return Err(Error::InvalidVersion);
                            },
                        };
                        let z = match parse_bounded_exec(&v, p2 + 1, e, 10, 65535) {
                            Some(z) => z,
                            None => {
                                return Err(Error::InvalidVersion);
                            },
                        };
                        Ok(Version(x as u16, y as u16, z as u16))
                    },
                }
            },
        }
    }
}

impl std::str::FromStr for Version {
    type Err = Error;

    fn from_str(value: &str) -> (r: Result<Self, Error>)
        ensures
            match version_spec(value@) {
                Some(v) => r == Ok::<Version, Error>(v),
                None => r == Err::<Version, Error>(Error::InvalidVersion),
            },
    {
        Version::parse(value)
    }
}

/// One catalog entry.
#[derive(Clone, Copy, Debug)]
pub struct CommandSpec {
    pub name: &'static str,
    pub minimum_version: Version,
    pub required_fields: &'static [&'static str],
    /// Direct transmit or arbitrary CAT; requires a live consumer authorization check.
    pub requires_transmit_authorization: bool,
}

/// The texts of a list of names.
pub open spec fn names_view(s: Seq<&'static str>) -> Seq<Seq<char>> {
    s.map_values(|x: &'static str| x@)
}

/// Every command of the published API.
#[derive(Clone, Copy, Debug, PartialEq, Eq, Hash, Structural)]
pub enum CommandKind {
    Update,
    Read,
    Focus,
    Action,
    SetUpdateState,
    ReadBmf,
    ChangeBm,
    RigEnabled,
    ChangeFreq,
    ChangeMode,
    DupeCheck,
    ContestExchange,
    NextSerialNumber,
    SetSerialNumber,
    Program,
    ApiVersion,
    FilePath,
    SettingsPath,
    SettingsPathShared,
    GetUserSettings,
    QsoCount,
    QsoRate,
    SendRigCommand,
    VisibleFields,
    AllFields,
    AllFieldsWithValues,
    AllFieldsTab,
    VisibleFieldsTab,
    GetOtherFieldTitles,
    MainFormList,
    OperatorInfo,
    SetOperatorInfo,
    GetRigPollingRate,
    IgnoreRigPolls,
    UpdateDialogue,
    SpeakText,
    ReadOffsetEnabled,
    SetOffsetEnabled,
    ReadOffset,
    SetOffset,
    ReadModeDefaultSuppress,
    SetModeDefaultSuppress,
    Receive,
    SetKeyboardState,
    List,
    Search,
    Atno,
    GetDynamicResults,
    CallTabEnterEvents,
    CountryListLookup,
    RelayDxSpots,
    FormInfo,
    FormSet,
    AddAdifRecord,
    AddDirect,
    CheckLog,
    OpenLog,
    SendSqlStayOpen,
    SqlClose,
    CwSend,
    CwStop,
    CwSetSpeed,
    CwFaster,
    CwSlower,
    CwComPortKeyDown,
    CwComPortKeyUp,
    RigTx,
    RigRx,
    SendRigPoll,
    ReindexWsjt,
    QsoInProgress,
    GetCallQthInfo,
    UpdateAndLog,
}

/// The wire name of a command.
pub open spec fn kind_name(k: CommandKind) -> Seq<char> {
    match k {
        CommandKind::Update => "UPDATE"@,
        CommandKind::Read => "READ"@,
        CommandKind::Focus => "FOCUS"@,
        CommandKind::Action => "ACTION"@,
        CommandKind::SetUpdateState => "SETUPDATESTATE"@,
        CommandKind::ReadBmf => "READBMF"@,
        CommandKind::ChangeBm => "CHANGEBM"@,
        CommandKind::RigEnabled => "RIGENABLED"@,
        CommandKind::ChangeFreq => "CHANGEFREQ"@,
        CommandKind::ChangeMode => "CHANGEMODE"@,
        CommandKind::DupeCheck => "DUPECHECK"@,
        CommandKind::ContestExchange => "CONTESTEX"@,
        CommandKind::NextSerialNumber => "NEXTSERIALNUMBER"@,
        CommandKind::SetSerialNumber => "SETSERIALNUMBER"@,
        CommandKind::Program => "PROGRAM"@,
        CommandKind::ApiVersion => "APIVER"@,
        CommandKind::FilePath => "FILEPATH"@,
        CommandKind::SettingsPath => "SETTINGSPATH"@,
        CommandKind::SettingsPathShared => "SETTINGSPATHSHARED"@,
        CommandKind::GetUserSettings => "GETUSERSETTINGS"@,
        CommandKind::QsoCount => "QSOCOUNT"@,
        CommandKind::QsoRate => "QSORATE"@,
        CommandKind::SendRigCommand => "SENDRIGCOMMAND"@,
        CommandKind::VisibleFields => "VISIBLEFIELDS"@,
        CommandKind::AllFields => "ALLFIELDS"@,
        CommandKind::AllFieldsWithValues => "ALLFIELDSWITHVALUES"@,
        CommandKind::AllFieldsTab => "ALLFIELDSTAB"@,
        CommandKind::VisibleFieldsTab => "VISIBLEFIELDSTAB"@,
        CommandKind::GetOtherFieldTitles => "GETOTHERFIELDTITLES"@,
        CommandKind::MainFormList => "MAINFORMLIST"@,
        CommandKind::OperatorInfo => "OPINFO"@,
        CommandKind::SetOperatorInfo => "SETOPINFO"@,
        CommandKind::GetRigPollingRate => "GETRIGPOLLINGRATE"@,
        CommandKind::IgnoreRigPolls => "IGNORERIGPOLLS"@,
        CommandKind::UpdateDialogue => "UPDATEDIALOGUE"@,
        CommandKind::SpeakText => "SPEAKTEXT"@,
        CommandKind::ReadOffsetEnabled => "READOFFSETENABLED"@,
        CommandKind::SetOffsetEnabled => "SETOFFSETENABLED"@,
        CommandKind::ReadOffset => "READOFFSET"@,
        CommandKind::SetOffset => "SETOFFSET"@,
        CommandKind::ReadModeDefaultSuppress => "READMODEDEFAULTSUPPRESS"@,
        CommandKind::SetModeDefaultSuppress => "SETMODEDEFAULTSUPPRESS"@,
        CommandKind::Receive => "RECEIVE"@,
        CommandKind::SetKeyboardState => "SETKEYBOARDSTATE"@,
        CommandKind::List => "LIST"@,
        CommandKind::Search => "SEARCH"@,
        CommandKind::Atno => "ATNO"@,
        CommandKind::GetDynamicResults => "GETDYNAMICRESULTS"@,
        CommandKind::CallTabEnterEvents => "CALLTABENTEREVENTS"@,
        CommandKind::CountryListLookup => "COUNTRYLISTLOOKUP"@,
        CommandKind::RelayDxSpots => "RELAYDXSPOTS"@,
        CommandKind::FormInfo => "FORMINFO"@,
        CommandKind::FormSet => "FORMSET"@,
        CommandKind::AddAdifRecord => "ADDADIFRECORD"@,
        CommandKind::AddDirect => "ADDDIRECT"@,
        CommandKind::CheckLog => "CHECKLOG"@,
        CommandKind::OpenLog => "OPENLOG"@,
        CommandKind::SendSqlStayOpen => "SENDSQLSTAYOPEN"@,
        CommandKind::SqlClose => "SQLCLOSE"@,
        CommandKind::CwSend => "CWSEND"@,
        CommandKind::CwStop => "CWSTOP"@,
        CommandKind::CwSetSpeed => "CWSETSPEED"@,
        CommandKind::CwFaster => "CWFASTER"@,
        CommandKind::CwSlower => "CWSLOWER"@,
        CommandKind::CwComPortKeyDown => "CWCOMPORTKEYDOWN"@,
        CommandKind::CwComPortKeyUp => "CWCOMPORTKEYUP"@,
        CommandKind::RigTx => "RIGTX"@,
        CommandKind::RigRx => "RIGRX"@,
        CommandKind::SendRigPoll => "SENDRIGPOLL"@,
        CommandKind::ReindexWsjt => "REINDEXWSJT"@,
        CommandKind::QsoInProgress => "QSOINPROGRESS"@,
        CommandKind::GetCallQthInfo => "GETCALLQTHINFO"@,
        CommandKind::UpdateAndLog => "UPDATEANDLOG"@,
    }
}

/// The first API version that has a command.
pub open spec fn kind_minimum(k: CommandKind) -> Version {
    match k {
        CommandKind::Update => Version(0, 0, 0),
        CommandKind::Read => Version(0, 0, 0),
        CommandKind::Focus => Version(0, 0, 0),
        CommandKind::Action => Version(0, 0, 0),
        CommandKind::SetUpdateState => Version(0, 0, 0),
        CommandKind::ReadBmf => Version(0, 0, 0),
        CommandKind::ChangeBm => Version(0, 0, 0),
        CommandKind::RigEnabled => Version(0, 0, 0),
        CommandKind::ChangeFreq => Version(0, 0, 0),
        CommandKind::ChangeMode => Version(0, 0, 0),
        CommandKind::DupeCheck => Version(0, 0, 0),
        CommandKind::ContestExchange => Version(1, 3, 0),
        CommandKind::NextSerialNumber => Version(0, 0, 0),
        CommandKind::SetSerialNumber => Version(1, 3, 0),
        CommandKind::Program => Version(0, 0, 0),
        CommandKind::ApiVersion => Version(0, 6, 2),
        CommandKind::FilePath => Version(0, 0, 0),
        CommandKind::SettingsPath => Version(0, 8, 0),
        CommandKind::SettingsPathShared => Version(0, 8, 0),
        CommandKind::GetUserSettings => Version(1, 6, 0),
        CommandKind::QsoCount => Version(0, 0, 0),
        CommandKind::QsoRate => Version(0, 9, 0),
        CommandKind::SendRigCommand => Version(0, 9, 0),
        CommandKind::VisibleFields => Version(0, 0, 0),
        CommandKind::AllFields => Version(0, 0, 0),
        CommandKind::AllFieldsWithValues => Version(0, 0, 0),
        CommandKind::AllFieldsTab => Version(1, 1, 0),
        CommandKind::VisibleFieldsTab => Version(1, 1, 0),
        CommandKind::GetOtherFieldTitles => Version(2, 2, 0),
        CommandKind::MainFormList => Version(0, 0, 0),
        CommandKind::OperatorInfo => Version(0, 6, 2),
        CommandKind::SetOperatorInfo => Version(1, 8, 0),
        CommandKind::GetRigPollingRate => Version(1, 9, 0),
        CommandKind::IgnoreRigPolls => Version(0, 6, 2),
        CommandKind::UpdateDialogue => Version(0, 6, 2),
        CommandKind::SpeakText => Version(0, 6, 2),
        CommandKind::ReadOffsetEnabled => Version(0, 8, 0),
        CommandKind::SetOffsetEnabled => Version(0, 8, 0),
        CommandKind::ReadOffset => Version(0, 8, 0),
        CommandKind::SetOffset => Version(0, 8, 0),
        CommandKind::ReadModeDefaultSuppress => Version(0, 8, 0),
        CommandKind::SetModeDefaultSuppress => Version(0, 8, 0),
        CommandKind::Receive => Version(1, 2, 0),
        CommandKind::SetKeyboardState => Version(0, 6, 2),
        CommandKind::List => Version(0, 0, 0),
        CommandKind::Search => Version(0, 0, 0),
        CommandKind::Atno => Version(0, 7, 0),
        CommandKind::GetDynamicResults => Version(2, 1, 0),
        CommandKind::CallTabEnterEvents => Version(0, 8, 0),
        CommandKind::CountryListLookup => Version(0, 6, 2),
        CommandKind::RelayDxSpots => Version(0, 0, 0),
        CommandKind::FormInfo => Version(0, 6, 2),
        CommandKind::FormSet => Version(0, 6, 2),
        CommandKind::AddAdifRecord => Version(2, 0, 0),
        CommandKind::AddDirect => Version(0, 6, 2),
        CommandKind::CheckLog => Version(0, 6, 1),
        CommandKind::OpenLog => Version(0, 0, 0),
        CommandKind::SendSqlStayOpen => Version(0, 0, 0),
        CommandKind::SqlClose => Version(0, 0, 0),
        CommandKind::CwSend => Version(0, 6, 2),
        CommandKind::CwStop => Version(0, 6, 2),
        CommandKind::CwSetSpeed => Version(0, 6, 2),
        CommandKind::CwFaster => Version(0, 6, 2),
        CommandKind::CwSlower => Version(0, 6, 2),
        CommandKind::CwComPortKeyDown => Version(0, 8, 0),
        CommandKind::CwComPortKeyUp => Version(0, 8, 0),
        CommandKind::RigTx => Version(0, 8, 0),
        CommandKind::RigRx => Version(0, 8, 0),
        CommandKind::SendRigPoll => Version(0, 8, 0),
        CommandKind::ReindexWsjt => Version(1, 7, 0),
        CommandKind::QsoInProgress => Version(1, 7, 0),
        CommandKind::GetCallQthInfo => Version(1, 7, 0),
        CommandKind::UpdateAndLog => Version(1, 7, 0),
    }
}

/// The fields that a command must carry.
pub open spec fn kind_required(k: CommandKind) -> Seq<Seq<char>> {
    match k {
        CommandKind::Update => seq!["CONTROL"@, "VALUE"@],
        CommandKind::Read => seq!["CONTROL"@],
        CommandKind::Focus => seq!["CONTROL"@],
        CommandKind::Action => seq!["VALUE"@],
        CommandKind::SetUpdateState => seq!["VALUE"@],
        CommandKind::ReadBmf => Seq::<Seq<char>>::empty(),
        CommandKind::ChangeBm => seq!["BAND"@, "MODE"@],
        CommandKind::RigEnabled => Seq::<Seq<char>>::empty(),
        CommandKind::ChangeFreq => seq!["VALUE"@],
        CommandKind::ChangeMode => seq!["VALUE"@],
        CommandKind::DupeCheck => seq!["CALL"@, "BAND"@, "MODE"@],
        CommandKind::ContestExchange => seq!["VALUE"@],
        CommandKind::NextSerialNumber => Seq::<Seq<char>>::empty(),
        CommandKind::SetSerialNumber => seq!["VALUE"@],
        CommandKind::Program => Seq::<Seq<char>>::empty(),
        CommandKind::ApiVersion => Seq::<Seq<char>>::empty(),
        CommandKind::FilePath => Seq::<Seq<char>>::empty(),
        CommandKind::SettingsPath => Seq::<Seq<char>>::empty(),
        CommandKind::SettingsPathShared => Seq::<Seq<char>>::empty(),
        CommandKind::GetUserSettings => Seq::<Seq<char>>::empty(),
        CommandKind::QsoCount => Seq::<Seq<char>>::empty(),
        CommandKind::QsoRate => Seq::<Seq<char>>::empty(),
        CommandKind::SendRigCommand => seq!["VALUE"@],
        CommandKind::VisibleFields => Seq::<Seq<char>>::empty(),
        CommandKind::AllFields => Seq::<Seq<char>>::empty(),
        CommandKind::AllFieldsWithValues => Seq::<Seq<char>>::empty(),
        CommandKind::AllFieldsTab => Seq::<Seq<char>>::empty(),
        CommandKind::VisibleFieldsTab => Seq::<Seq<char>>::empty(),
        CommandKind::GetOtherFieldTitles => Seq::<Seq<char>>::empty(),
        CommandKind::MainFormList => seq!["VALUE"@],
        CommandKind::OperatorInfo => Seq::<Seq<char>>::empty(),
        CommandKind::SetOperatorInfo => Seq::<Seq<char>>::empty(),
        CommandKind::GetRigPollingRate => Seq::<Seq<char>>::empty(),
        CommandKind::IgnoreRigPolls => seq!["VALUE"@],
        CommandKind::UpdateDialogue => seq!["VALUE"@],
        CommandKind::SpeakText => seq!["VALUE"@],
        CommandKind::ReadOffsetEnabled => Seq::<Seq<char>>::empty(),
        CommandKind::SetOffsetEnabled => seq!["VALUE"@],
        CommandKind::ReadOffset => Seq::<Seq<char>>::empty(),
        CommandKind::SetOffset => seq!["VALUE"@],
        CommandKind::ReadModeDefaultSuppress => Seq::<Seq<char>>::empty(),
        CommandKind::SetModeDefaultSuppress => seq!["VALUE"@],
        CommandKind::Receive => seq!["IDTAG"@, "VALUE"@],
        CommandKind::SetKeyboardState => seq!["VALUE"@],
        CommandKind::List => Seq::<Seq<char>>::empty(),
        CommandKind::Search => Seq::<Seq<char>>::empty(),
        CommandKind::Atno => seq!["BAND"@, "MODE"@],
        CommandKind::GetDynamicResults => Seq::<Seq<char>>::empty(),
        CommandKind::CallTabEnterEvents => seq!["VALUE"@],
        CommandKind::CountryListLookup => seq!["CALL"@],
        CommandKind::RelayDxSpots => seq!["VALUE"@],
        CommandKind::FormInfo => Seq::<Seq<char>>::empty(),
        CommandKind::FormSet => Seq::<Seq<char>>::empty(),
        CommandKind::AddAdifRecord => seq!["VALUE"@],
        CommandKind::AddDirect => Seq::<Seq<char>>::empty(),
        CommandKind::CheckLog => Seq::<Seq<char>>::empty(),
        CommandKind::OpenLog => Seq::<Seq<char>>::empty(),
        CommandKind::SendSqlStayOpen => seq!["VALUE"@],
        CommandKind::SqlClose => Seq::<Seq<char>>::empty(),
        CommandKind::CwSend => seq!["VALUE"@],
        CommandKind::CwStop => Seq::<Seq<char>>::empty(),
        CommandKind::CwSetSpeed => seq!["VALUE"@],
        CommandKind::CwFaster => seq!["VALUE"@],
        CommandKind::CwSlower => seq!["VALUE"@],
        CommandKind::CwComPortKeyDown => Seq::<Seq<char>>::empty(),
        CommandKind::CwComPortKeyUp => Seq::<Seq<char>>::empty(),
        CommandKind::RigTx => Seq::<Seq<char>>::empty(),
        CommandKind::RigRx => Seq::<Seq<char>>::empty(),
        CommandKind::SendRigPoll => seq!["FREQ"@, "MODE"@],
        CommandKind::ReindexWsjt => seq!["MODE"@, "FREQ"@],
        CommandKind::QsoInProgress => seq!["CALL"@, "MODE"@],
        CommandKind::GetCallQthInfo => seq!["CALL"@, "BAND"@, "MODE"@],
        CommandKind::UpdateAndLog => seq!["CALL"@, "MODE"@],
    }
}

/// The command keys a transmitter or sends arbitrary CAT.
pub open spec fn kind_transmits(k: CommandKind) -> bool {
    match k {
        CommandKind::Update => false,
        CommandKind::Read => false,
        CommandKind::Focus => false,
        CommandKind::Action => false,
        CommandKind::SetUpdateState => false,
        CommandKind::ReadBmf => false,
        CommandKind::ChangeBm => false,
        CommandKind::RigEnabled => false,
        CommandKind::ChangeFreq => false,
        CommandKind::ChangeMode => false,
        CommandKind::DupeCheck => false,
        CommandKind::ContestExchange => false,
        CommandKind::NextSerialNumber => false,
        CommandKind::SetSerialNumber => false,
        CommandKind::Program => false,
        CommandKind::ApiVersion => false,
        CommandKind::FilePath => false,
        CommandKind::SettingsPath => false,
        CommandKind::SettingsPathShared => false,
        CommandKind::GetUserSettings => false,
        CommandKind::QsoCount => false,
        CommandKind::QsoRate => false,
        CommandKind::SendRigCommand => true,
        CommandKind::VisibleFields => false,
        CommandKind::AllFields => false,
        CommandKind::AllFieldsWithValues => false,
        CommandKind::AllFieldsTab => false,
        CommandKind::VisibleFieldsTab => false,
        CommandKind::GetOtherFieldTitles => false,
        CommandKind::MainFormList => false,
        CommandKind::OperatorInfo => false,
        CommandKind::SetOperatorInfo => false,
        CommandKind::GetRigPollingRate => false,
        CommandKind::IgnoreRigPolls => false,
        CommandKind::UpdateDialogue => false,
        CommandKind::SpeakText => false,
        CommandKind::ReadOffsetEnabled => false,
        CommandKind::SetOffsetEnabled => false,
        CommandKind::ReadOffset => false,
        CommandKind::SetOffset => false,
        CommandKind::ReadModeDefaultSuppress => false,
        CommandKind::SetModeDefaultSuppress => false,
        CommandKind::Receive => false,
        CommandKind::SetKeyboardState => false,
        CommandKind::List => false,
        CommandKind::Search => false,
        CommandKind::Atno => false,
        CommandKind::GetDynamicResults => false,
        CommandKind::CallTabEnterEvents => false,
        CommandKind::CountryListLookup => false,
        CommandKind::RelayDxSpots => false,
        CommandKind::FormInfo => false,
        CommandKind::FormSet => false,
        CommandKind::AddAdifRecord => false,
        CommandKind::AddDirect => false,
        CommandKind::CheckLog => false,
        CommandKind::OpenLog => false,
        CommandKind::SendSqlStayOpen => false,
        CommandKind::SqlClose => false,
        CommandKind::CwSend => true,
        CommandKind::CwStop => false,
        CommandKind::CwSetSpeed => false,
        CommandKind::CwFaster => false,
        CommandKind::CwSlower => false,
        CommandKind::CwComPortKeyDown => true,
        CommandKind::CwComPortKeyUp => false,
        CommandKind::RigTx => true,
        CommandKind::RigRx => false,
        CommandKind::SendRigPoll => false,
        CommandKind::ReindexWsjt => false,
        CommandKind::QsoInProgress => false,
        CommandKind::GetCallQthInfo => false,
        CommandKind::UpdateAndLog => false,
    }
}

impl CommandKind {
    /// Every command, in catalog order.
    pub const ALL: &'static [Self; 73] = &[
        Self::Update,
        Self::Read,
        Self::Focus,
        Self::Action,
        Self::SetUpdateState,
        Self::ReadBmf,
        Self::ChangeBm,
        Self::RigEnabled,
        Self::ChangeFreq,
        Self::ChangeMode,
        Self::DupeCheck,
        Self::ContestExchange,
        Self::NextSerialNumber,
        Self::SetSerialNumber,
        Self::Program,
        Self::ApiVersion,
        Self::FilePath,
        Self::SettingsPath,
        Self::SettingsPathShared,
        Self::GetUserSettings,
        Self::QsoCount,
        Self::QsoRate,
        Self::SendRigCommand,
        Self::VisibleFields,
        Self::AllFields,
        Self::AllFieldsWithValues,
        Self::AllFieldsTab,
        Self::VisibleFieldsTab,
        Self::GetOtherFieldTitles,
        Self::MainFormList,
        Self::OperatorInfo,
        Self::SetOperatorInfo,
        Self::GetRigPollingRate,
        Self::IgnoreRigPolls,
        Self::UpdateDialogue,
        Self::SpeakText,
        Self::ReadOffsetEnabled,
        Self::SetOffsetEnabled,
        Self::ReadOffset,
        Self::SetOffset,
        Self::ReadModeDefaultSuppress,
        Self::SetModeDefaultSuppress,
        Self::Receive,
        Self::SetKeyboardState,
        Self::List,
        Self::Search,
        Self::Atno,
        Self::GetDynamicResults,
        Self::CallTabEnterEvents,
        Self::CountryListLookup,
        Self::RelayDxSpots,
        Self::FormInfo,
        Self::FormSet,
        Self::AddAdifRecord,
        Self::AddDirect,
        Self::CheckLog,
        Self::OpenLog,
        Self::SendSqlStayOpen,
        Self::SqlClose,
        Self::CwSend,
        Self::CwStop,
        Self::CwSetSpeed,
        Self::CwFaster,
        Self::CwSlower,
        Self::CwComPortKeyDown,
        Self::CwComPortKeyUp,
        Self::RigTx,
        Self::RigRx,
        Self::SendRigPoll,
        Self::ReindexWsjt,
        Self::QsoInProgress,
        Self::GetCallQthInfo,
        Self::UpdateAndLog,
    ];

    /// The catalog entry of this command.
    pub fn spec(self) -> (r: CommandSpec)
        ensures
            r.name@ == kind_name(self),
            r.minimum_version == kind_minimum(self),
            names_view(r.required_fields@) == kind_required(self),
            r.requires_transmit_authorization == kind_transmits(self),
    {
        match self {
            Self::Update => {
                let r = CommandSpec {
                    name: "UPDATE",
                    minimum_version: Version(0, 0, 0),
                    required_fields: &["CONTROL", "VALUE"],
                    requires_transmit_authorization: false,
                };
                assert(names_view(r.required_fields@) =~= kind_required(self));
                r
            },
            Self::Read => {
                let r = CommandSpec {
                    name: "READ",
                    minimum_version: Version(0, 0, 0),
                    required_fields: &["CONTROL"],
                    requires_transmit_authorization: false,
                };
                assert(names_view(r.required_fields@) =~= kind_required(self));
                r
            },
            Self::Focus => {
                let r = CommandSpec {
                    name: "FOCUS",
                    minimum_version: Version(0, 0, 0),
                    required_fields: &["CONTROL"],
                    requires_transmit_authorization: false,
                };
                assert(names_view(r.required_fields@) =~= kind_required(self));
                r
            },
            Self::Action => {
                let r = CommandSpec {
                    name: "ACTION",
                    minimum_version: Version(0, 0, 0),
                    required_fields: &["VALUE"],
                    requires_transmit_authorization: false,
                };
                assert(names_view(r.required_fields@) =~= kind_required(self));
                r
            },
            Self::SetUpdateState => {
                let r = CommandSpec {
                    name: "SETUPDATESTATE",
                    minimum_version: Version(0, 0, 0),
                    required_fields: &["VALUE"],
                    requires_transmit_authorization: false,
                };
                assert(names_view(r.required_fields@) =~= kind_required(self));
                r
            },
            Self::ReadBmf => {
                let r = CommandSpec {
                    name: "READBMF",
                    minimum_version: Version(0, 0, 0),
                    required_fields: &[],
                    requires_transmit_authorization: false,
                };
                assert(names_view(r.required_fields@) =~= kind_required(self));
                r
            },
            Self::ChangeBm => {
                let r = CommandSpec {
                    name: "CHANGEBM",
                    minimum_version: Version(0, 0, 0),
                    required_fields: &["BAND", "MODE"],
                    requires_transmit_authorization: false,
                };
                assert(names_view(r.required_fields@) =~= kind_required(self));
                r
            },
            Self::RigEnabled => {
                let r = CommandSpec {
                    name: "RIGENABLED",
                    minimum_version: Version(0, 0, 0),
                    required_fields: &[],
                    requires_transmit_authorization: false,
                };
                assert(names_view(r.required_fields@) =~= kind_required(self));
                r
            },
            Self::ChangeFreq => {
                let r = CommandSpec {
                    name: "CHANGEFREQ",
                    minimum_version: Version(0, 0, 0),
                    required_fields: &["VALUE"],
                    requires_transmit_authorization: false,
                };
                assert(names_view(r.required_fields@) =~= kind_required(self));
                r
            },
            Self::ChangeMode => {
                let r = CommandSpec {
                    name: "CHANGEMODE",
                    minimum_version: Version(0, 0, 0),
                    required_fields: &["VALUE"],
                    requires_transmit_authorization: false,
                };
                assert(names_view(r.required_fields@) =~= kind_required(self));
                r
            },
            Self::DupeCheck => {
                let r = CommandSpec {
                    name: "DUPECHECK",
                    minimum_version: Version(0, 0, 0),
                    required_fields: &["CALL", "BAND", "MODE"],
                    requires_transmit_authorization: false,
                };
                assert(names_view(r.required_fields@) =~= kind_required(self));
                r
            },
            Self::ContestExchange => {
                let r = CommandSpec {
                    name: "CONTESTEX",
                    minimum_version: Version(1, 3, 0),
                    required_fields: &["VALUE"],
                    requires_transmit_authorization: false,
                };
                assert(names_view(r.required_fields@) =~= kind_required(self));
                r
            },
            Self::NextSerialNumber => {
                let r = CommandSpec {
                    name: "NEXTSERIALNUMBER",
                    minimum_version: Version(0, 0, 0),
                    required_fields: &[],
                    requires_transmit_authorization: false,
                };
                assert(names_view(r.required_fields@) =~= kind_required(self));
                r
            },
            Self::SetSerialNumber => {
                let r = CommandSpec {
                    name: "SETSERIALNUMBER",
                    minimum_version: Version(1, 3, 0),
                    required_fields: &["VALUE"],
                    requires_transmit_authorization: false,
                };
                assert(names_view(r.required_fields@) =~= kind_required(self));
                r
            },
            Self::Program => {
                let r = CommandSpec {
                    name: "PROGRAM",
                    minimum_version: Version(0, 0, 0),
                    required_fields: &[],
                    requires_transmit_authorization: false,
                };
                assert(names_view(r.required_fields@) =~= kind_required(self));
                r
            },
            Self::ApiVersion => {
                let r = CommandSpec {
                    name: "APIVER",
                    minimum_version: Version(0, 6, 2),
                    required_fields: &[],
                    requires_transmit_authorization: false,
                };
                assert(names_view(r.required_fields@) =~= kind_required(self));
                r
            },
            Self::FilePath => {
                let r = CommandSpec {
                    name: "FILEPATH",
                    minimum_version: Version(0, 0, 0),
                    required_fields: &[],
                    requires_transmit_authorization: false,
                };
                assert(names_view(r.required_fields@) =~= kind_required(self));
                r
            },
            Self::SettingsPath => {
                let r = CommandSpec {
                    name: "SETTINGSPATH",
                    minimum_version: Version(0, 8, 0),
                    required_fields: &[],
                    requires_transmit_authorization: false,
                };
                assert(names_view(r.required_fields@) =~= kind_required(self));
                r
            },
            Self::SettingsPathShared => {
                let r = CommandSpec {
                    name: "SETTINGSPATHSHARED",
                    minimum_version: Version(0, 8, 0),
                    required_fields: &[],
                    requires_transmit_authorization: false,
                };
                assert(names_view(r.required_fields@) =~= kind_required(self));
                r
            },
            Self::GetUserSettings => {
                let r = CommandSpec {
                    name: "GETUSERSETTINGS",
                    minimum_version: Version(1, 6, 0),
                    required_fields: &[],
                    requires_transmit_authorization: false,
                };
                assert(names_view(r.required_fields@) =~= kind_required(self));
                r
            },
            Self::QsoCount => {
                let r = CommandSpec {
                    name: "QSOCOUNT",
                    minimum_version: Version(0, 0, 0),
                    required_fields: &[],
                    requires_transmit_authorization: false,
                };
                assert(names_view(r.required_fields@) =~= kind_required(self));
                r
            },
            Self::QsoRate => {
                let r = CommandSpec {
                    name: "QSORATE",
                    minimum_version: Version(0, 9, 0),
                    required_fields: &[],
                    requires_transmit_authorization: false,
                };
                assert(names_view(r.required_fields@) =~= kind_required(self));
                r
            },
            Self::SendRigCommand => {
                let r = CommandSpec {
                    name: "SENDRIGCOMMAND",
                    minimum_version: Version(0, 9, 0),
                    required_fields: &["VALUE"],
                    requires_transmit_authorization: true,
                };
                assert(names_view(r.required_fields@) =~= kind_required(self));
                r
            },
            Self::VisibleFields => {
                let r = CommandSpec {
                    name: "VISIBLEFIELDS",
                    minimum_version: Version(0, 0, 0),
                    required_fields: &[],
                    requires_transmit_authorization: false,
                };
                assert(names_view(r.required_fields@) =~= kind_required(self));
                r
            },
            Self::AllFields => {
                let r = CommandSpec {
                    name: "ALLFIELDS",
                    minimum_version: Version(0, 0, 0),
                    required_fields: &[],
                    requires_transmit_authorization: false,
                };
                assert(names_view(r.required_fields@) =~= kind_required(self));
                r
            },
            Self::AllFieldsWithValues => {
                let r = CommandSpec {
                    name: "ALLFIELDSWITHVALUES",
                    minimum_version: Version(0, 0, 0),
                    required_fields: &[],
                    requires_transmit_authorization: false,
                };
                assert(names_view(r.required_fields@) =~= kind_required(self));
                r
            },
            Self::AllFieldsTab => {
                let r = CommandSpec {
                    name: "ALLFIELDSTAB",
                    minimum_version: Version(1, 1, 0),
                    required_fields: &[],
                    requires_transmit_authorization: false,
                };
                assert(names_view(r.required_fields@) =~= kind_required(self));
                r
            },
            Self::VisibleFieldsTab => {
                let r = CommandSpec {
                    name: "VISIBLEFIELDSTAB",
                    minimum_version: Version(1, 1, 0),
                    required_fields: &[],
                    requires_transmit_authorization: false,
                };
                assert(names_view(r.required_fields@) =~= kind_required(self));
                r
            },
            Self::GetOtherFieldTitles => {
                let r = CommandSpec {
                    name: "GETOTHERFIELDTITLES",
                    minimum_version: Version(2, 2, 0),
                    required_fields: &[],
                    requires_transmit_authorization: false,
                };
                assert(names_view(r.required_fields@) =~= kind_required(self));
                r
            },
            Self::MainFormList => {
                let r = CommandSpec {
                    name: "MAINFORMLIST",
                    minimum_version: Version(0, 0, 0),
                    required_fields: &["VALUE"],
                    requires_transmit_authorization: false,
                };
                assert(names_view(r.required_fields@) =~= kind_required(self));
                r
            },
            Self::OperatorInfo => {
                let r = CommandSpec {
                    name: "OPINFO",
                    minimum_version: Version(0, 6, 2),
                    required_fields: &[],
                    requires_transmit_authorization: false,
                };
                assert(names_view(r.required_fields@) =~= kind_required(self));
                r
            },
            Self::SetOperatorInfo => {
                let r = CommandSpec {
                    name: "SETOPINFO",
                    minimum_version: Version(1, 8, 0),
                    required_fields: &[],
                    requires_transmit_authorization: false,
                };
                assert(names_view(r.required_fields@) =~= kind_required(self));
                r
            },
            Self::GetRigPollingRate => {
                let r = CommandSpec {
                    name: "GETRIGPOLLINGRATE",
                    minimum_version: Version(1, 9, 0),
                    required_fields: &[],
                    requires_transmit_authorization: false,
                };
                assert(names_view(r.required_fields@) =~= kind_required(self));
                r
            },
            Self::IgnoreRigPolls => {
                let r = CommandSpec {
                    name: "IGNORERIGPOLLS",
                    minimum_version: Version(0, 6, 2),
                    required_fields: &["VALUE"],
                    requires_transmit_authorization: false,
                };
                assert(names_view(r.required_fields@) =~= kind_required(self));
                r
            },
            Self::UpdateDialogue => {
                let r = CommandSpec {
                    name: "UPDATEDIALOGUE",
                    minimum_version: Version(0, 6, 2),
                    required_fields: &["VALUE"],
                    requires_transmit_authorization: false,
                };
                assert(names_view(r.required_fields@) =~= kind_required(self));
                r
            },
            Self::SpeakText => {
                let r = CommandSpec {
                    name: "SPEAKTEXT",
                    minimum_version: Version(0, 6, 2),
                    required_fields: &["VALUE"],
                    requires_transmit_authorization: false,
                };
                assert(names_view(r.required_fields@) =~= kind_required(self));
                r
            },
            Self::ReadOffsetEnabled => {
                let r = CommandSpec {
                    name: "READOFFSETENABLED",
                    minimum_version: Version(0, 8, 0),
                    required_fields: &[],
                    requires_transmit_authorization: false,
                };
                assert(names_view(r.required_fields@) =~= kind_required(self));
                r
            },
            Self::SetOffsetEnabled => {
                let r = CommandSpec {
                    name: "SETOFFSETENABLED",
                    minimum_version: Version(0, 8, 0),
                    required_fields: &["VALUE"],
                    requires_transmit_authorization: false,
                };
                assert(names_view(r.required_fields@) =~= kind_required(self));
                r
            },
            Self::ReadOffset => {
                let r = CommandSpec {
                    name: "READOFFSET",
                    minimum_version: Version(0, 8, 0),
                    required_fields: &[],
                    requires_transmit_authorization: false,
                };
                assert(names_view(r.required_fields@) =~= kind_required(self));
                r
            },
            Self::SetOffset => {
                let r = CommandSpec {
                    name: "SETOFFSET",
                    minimum_version: Version(0, 8, 0),
                    required_fields: &["VALUE"],
                    requires_transmit_authorization: false,
                };
                assert(names_view(r.required_fields@) =~= kind_required(self));
                r
            },
            Self::ReadModeDefaultSuppress => {
                let r = CommandSpec {
                    name: "READMODEDEFAULTSUPPRESS",
                    minimum_version: Version(0, 8, 0),
                    required_fields: &[],
                    requires_transmit_authorization: false,
                };
                assert(names_view(r.required_fields@) =~= kind_required(self));
                r
            },
            Self::SetModeDefaultSuppress => {
                let r = CommandSpec {
                    name: "SETMODEDEFAULTSUPPRESS",
                    minimum_version: Version(0, 8, 0),
                    required_fields: &["VALUE"],
                    requires_transmit_authorization: false,
                };
                assert(names_view(r.required_fields@) =~= kind_required(self));
                r
            },
            Self::Receive => {
                let r = CommandSpec {
                    name: "RECEIVE",
                    minimum_version: Version(1, 2, 0),
                    required_fields: &["IDTAG", "VALUE"],
                    requires_transmit_authorization: false,
                };
                assert(names_view(r.required_fields@) =~= kind_required(self));
                r
            },
            Self::SetKeyboardState => {
                let r = CommandSpec {
                    name: "SETKEYBOARDSTATE",
                    minimum_version: Version(0, 6, 2),
                    required_fields: &["VALUE"],
                    requires_transmit_authorization: false,
                };
                assert(names_view(r.required_fields@) =~= kind_required(self));
                r
            },
            Self::List => {
                let r = CommandSpec {
                    name: "LIST",
                    minimum_version: Version(0, 0, 0),
                    required_fields: &[],
                    requires_transmit_authorization: false,
                };
                assert(names_view(r.required_fields@) =~= kind_required(self));
                r
            },
            Self::Search => {
                let r = CommandSpec {
                    name: "SEARCH",
                    minimum_version: Version(0, 0, 0),
                    required_fields: &[],
                    requires_transmit_authorization: false,
                };
                assert(names_view(r.required_fields@) =~= kind_required(self));
                r
            },
            Self::Atno => {
                let r = CommandSpec {
                    name: "ATNO",
                    minimum_version: Version(0, 7, 0),
                    required_fields: &["BAND", "MODE"],
                    requires_transmit_authorization: false,
                };
                assert(names_view(r.required_fields@) =~= kind_required(self));
                r
            },
            Self::GetDynamicResults => {
                let r = CommandSpec {
                    name: "GETDYNAMICRESULTS",
                    minimum_version: Version(2, 1, 0),
                    required_fields: &[],
                    requires_transmit_authorization: false,
                };
                assert(names_view(r.required_fields@) =~= kind_required(self));
                r
            },
            Self::CallTabEnterEvents => {
                let r = CommandSpec {
                    name: "CALLTABENTEREVENTS",
                    minimum_version: Version(0, 8, 0),
                    required_fields: &["VALUE"],
                    requires_transmit_authorization: false,
                };
                assert(names_view(r.required_fields@) =~= kind_required(self));
                r
            },
            Self::CountryListLookup => {
                let r = CommandSpec {
                    name: "COUNTRYLISTLOOKUP",
                    minimum_version: Version(0, 6, 2),
                    required_fields: &["CALL"],
                    requires_transmit_authorization: false,
                };
                assert(names_view(r.required_fields@) =~= kind_required(self));
                r
            },
            Self::RelayDxSpots => {
                let r = CommandSpec {
                    name: "RELAYDXSPOTS",
                    minimum_version: Version(0, 0, 0),
                    required_fields: &["VALUE"],
                    requires_transmit_authorization: false,
                };
                assert(names_view(r.required_fields@) =~= kind_required(self));
                r
            },
            Self::FormInfo => {
                let r = CommandSpec {
                    name: "FORMINFO",
                    minimum_version: Version(0, 6, 2),
                    required_fields: &[],
                    requires_transmit_authorization: false,
                };
                assert(names_view(r.required_fields@) =~= kind_required(self));
                r
            },
            Self::FormSet => {
                let r = CommandSpec {
                    name: "FORMSET",
                    minimum_version: Version(0, 6, 2),
                    required_fields: &[],
                    requires_transmit_authorization: false,
                };
                assert(names_view(r.required_fields@) =~= kind_required(self));
                r
            },
            Self::AddAdifRecord => {
                let r = CommandSpec {
                    name: "ADDADIFRECORD",
                    minimum_version: Version(2, 0, 0),
                    required_fields: &["VALUE"],
                    requires_transmit_authorization: false,
                };
                assert(names_view(r.required_fields@) =~= kind_required(self));
                r
            },
            Self::AddDirect => {
                let r = CommandSpec {
                    name: "ADDDIRECT",
                    minimum_version: Version(0, 6, 2),
                    required_fields: &[],
                    requires_transmit_authorization: false,
                };
                assert(names_view(r.required_fields@) =~= kind_required(self));
                r
            },
            Self::CheckLog => {
                let r = CommandSpec {
                    name: "CHECKLOG",
                    minimum_version: Version(0, 6, 1),
                    required_fields: &[],
                    requires_transmit_authorization: false,
                };
                assert(names_view(r.required_fields@) =~= kind_required(self));
                r
            },
            Self::OpenLog => {
                let r = CommandSpec {
                    name: "OPENLOG",
                    minimum_version: Version(0, 0, 0),
                    required_fields: &[],
                    requires_transmit_authorization: false,
                };
                assert(names_view(r.required_fields@) =~= kind_required(self));
                r
            },
            Self::SendSqlStayOpen => {
                let r = CommandSpec {
                    name: "SENDSQLSTAYOPEN",
                    minimum_version: Version(0, 0, 0),
                    required_fields: &["VALUE"],
                    requires_transmit_authorization: false,
                };
                assert(names_view(r.required_fields@) =~= kind_required(self));
                r
            },
            Self::SqlClose => {
                let r = CommandSpec {
                    name: "SQLCLOSE",
                    minimum_version: Version(0, 0, 0),
                    required_fields: &[],
                    requires_transmit_authorization: false,
                };
                assert(names_view(r.required_fields@) =~= kind_required(self));
                r
            },
            Self::CwSend => {
                let r = CommandSpec {
                    name: "CWSEND",
                    minimum_version: Version(0, 6, 2),
                    required_fields: &["VALUE"],
                    requires_transmit_authorization: true,
                };
                assert(names_view(r.required_fields@) =~= kind_required(self));
                r
            },
            Self::CwStop => {
                let r = CommandSpec {
                    name: "CWSTOP",
                    minimum_version: Version(0, 6, 2),
                    required_fields: &[],
                    requires_transmit_authorization: false,
                };
                assert(names_view(r.required_fields@) =~= kind_required(self));
                r
            },
            Self::CwSetSpeed => {
                let r = CommandSpec {
                    name: "CWSETSPEED",
                    minimum_version: Version(0, 6, 2),
                    required_fields: &["VALUE"],
                    requires_transmit_authorization: false,
                };
                assert(names_view(r.required_fields@) =~= kind_required(self));
                r
            },
            Self::CwFaster => {
                let r = CommandSpec {
                    name: "CWFASTER",
                    minimum_version: Version(0, 6, 2),
                    required_fields: &["VALUE"],
                    requires_transmit_authorization: false,
                };
                assert(names_view(r.required_fields@) =~= kind_required(self));
                r
            },
            Self::CwSlower => {
                let r = CommandSpec {
                    name: "CWSLOWER",
                    minimum_version: Version(0, 6, 2),
                    required_fields: &["VALUE"],
                    requires_transmit_authorization: false,
                };
                assert(names_view(r.required_fields@) =~= kind_required(self));
                r
            },
            Self::CwComPortKeyDown => {
                let r = CommandSpec {
                    name: "CWCOMPORTKEYDOWN",
                    minimum_version: Version(0, 8, 0),
                    required_fields: &[],
                    requires_transmit_authorization: true,
                };
                assert(names_view(r.required_fields@) =~= kind_required(self));
                r
            },
            Self::CwComPortKeyUp => {
                let r = CommandSpec {
                    name: "CWCOMPORTKEYUP",
                    minimum_version: Version(0, 8, 0),
                    required_fields: &[],
                    requires_transmit_authorization: false,
                };
                assert(names_view(r.required_fields@) =~= kind_required(self));
                r
            },
            Self::RigTx => {
                let r = CommandSpec {
                    name: "RIGTX",
                    minimum_version: Version(0, 8, 0),
                    required_fields: &[],
                    requires_transmit_authorization: true,
                };
                assert(names_view(r.required_fields@) =~= kind_required(self));
                r
            },
            Self::RigRx => {
                let r = CommandSpec {
                    name: "RIGRX",
                    minimum_version: Version(0, 8, 0),
                    required_fields: &[],
                    requires_transmit_authorization: false,
                };
                assert(names_view(r.required_fields@) =~= kind_required(self));
                r
            },
            Self::SendRigPoll => {
                let r = CommandSpec {
                    name: "SENDRIGPOLL",
                    minimum_version: Version(0, 8, 0),
                    required_fields: &["FREQ", "MODE"],
                    requires_transmit_authorization: false,
                };
                assert(names_view(r.required_fields@) =~= kind_required(self));
                r
            },
            Self::ReindexWsjt => {
                let r = CommandSpec {
                    name: "REINDEXWSJT",
                    minimum_version: Version(1, 7, 0),
                    required_fields: &["MODE", "FREQ"],
                    requires_transmit_authorization: false,
                };
                assert(names_view(r.required_fields@) =~= kind_required(self));
                r
            },
            Self::QsoInProgress => {
                let r = CommandSpec {
                    name: "QSOINPROGRESS",
                    minimum_version: Version(1, 7, 0),
                    required_fields: &["CALL", "MODE"],
                    requires_transmit_authorization: false,
                };
                assert(names_view(r.required_fields@) =~= kind_required(self));
                r
            },
            Self::GetCallQthInfo => {
                let r = CommandSpec {
                    name: "GETCALLQTHINFO",
                    minimum_version: Version(1, 7, 0),
                    required_fields: &["CALL", "BAND", "MODE"],
                    requires_transmit_authorization: false,
                };
                assert(names_view(r.required_fields@) =~= kind_required(self));
                r
            },
            Self::UpdateAndLog => {
                let r = CommandSpec {
                    name: "UPDATEANDLOG",
                    minimum_version: Version(1, 7, 0),
                    required_fields: &["CALL", "MODE"],
                    requires_transmit_authorization: false,
                };
                assert(names_view(r.required_fields@) =~= kind_required(self));
                r
            },
        }
    }
}


/// A command that a logger's API version offers is offered by every later
/// version too.
pub proof fn lemma_supported_later(kind: CommandKind, v: Version, w: Version)
    requires
        version_le(kind_minimum(kind), v),
        version_le(v, w),
    ensures
        version_le(kind_minimum(kind), w),
{
}

} // verus!
