//! Station-network message bodies: building them and reading them back.
use vstd::prelude::*;
use crate::error::Error;
use crate::text::{
    chars_of, contains_sub, lemma_occurs_grow, occurs, find_in, find_sub, lemma_find_sub, matches_at, range_eq, starts_with,
    string_of, trim, trim_bounds, vec_extend,
};
use crate::wire::{
    escape, fields_result, fields_view, has_forbidden, leaves_range, leaves_spec, push_tag, tag_spec, tag_text,
    unescape_range, unescape_spec, FieldView,
};

verus! {

/// Unknown transaction names and all XMLDATA fields are preserved for contests.
#[derive(Clone, Debug, PartialEq, Eq)]
pub enum Transaction {
    Add,
    Update,
    Delete,
    Clear,
    List,
    Check,
    Ack,
    Other(String),
}

/// A transaction kind, with its name as text.
pub ghost enum TransactionView {
    Add,
    Update,
    Delete,
    Clear,
    List,
    Check,
    Ack,
    Other(Seq<char>),
}

impl View for Transaction {
    type V = TransactionView;

    open spec fn view(&self) -> TransactionView {
        match self {
            Transaction::Add => TransactionView::Add,
            Transaction::Update => TransactionView::Update,
            Transaction::Delete => TransactionView::Delete,
            Transaction::Clear => TransactionView::Clear,
            Transaction::List => TransactionView::List,
            Transaction::Check => TransactionView::Check,
            Transaction::Ack => TransactionView::Ack,
            Transaction::Other(s) => TransactionView::Other(s@),
        }
    }
}

/// The wire name of a transaction kind.
pub open spec fn kind_name(t: TransactionView) -> Seq<char> {
    match t {
        TransactionView::Add => "ADD"@,
        TransactionView::Update => "UPDATE"@,
        TransactionView::Delete => "DELETE"@,
        TransactionView::Clear => "CLEAR"@,
        TransactionView::List => "LIST"@,
        TransactionView::Check => "CHECK"@,
        TransactionView::Ack => ""@,
        TransactionView::Other(s) => s,
    }
}

/// The transaction kind that a wire name stands for; unknown names are kept.
pub open spec fn kind_of(s: Seq<char>) -> TransactionView {
    if s == "ADD"@ {
        TransactionView::Add
    } else if s == "UPDATE"@ {
        TransactionView::Update
    } else if s == "DELETE"@ {
        TransactionView::Delete
    } else if s == "CLEAR"@ {
        TransactionView::Clear
    } else if s == "LIST"@ {
        TransactionView::List
    } else if s == "CHECK"@ {
        TransactionView::Check
    } else if s == ""@ {
        TransactionView::Ack
    } else {
        TransactionView::Other(s)
    }
}

/// Whether `v` holds the characters of `lit`.
pub fn eq_lit(v: &[char], from: usize, to: usize, lit: &str) -> (b: bool)
    requires
        from <= to <= v@.len(),
    ensures
        b == (v@.subrange(from as int, to as int) == lit@),
{
    let l = chars_of(lit);
    range_eq(v, from, to, &l)
}

/// Whether `v[from..to]` starts with `lit`.
pub fn starts_lit(v: &[char], from: usize, to: usize, lit: &str) -> (b: bool)
    requires
        from <= to <= v@.len(),
    ensures
        b == starts_with(v@.subrange(from as int, to as int), lit@),
{
    let l = chars_of(lit);
    matches_at(v, &l, from, to)
}

/// Appends the characters of `lit` to `out`.
pub fn push_lit(out: &mut Vec<char>, lit: &str)
    ensures
        final(out)@ == old(out)@ + lit@,
{
    let l = chars_of(lit);
    vec_extend(out, &l, 0, l.len());
    assert(l@.subrange(0, l@.len() as int) =~= l@);
}

impl Transaction {
    /// The wire name of this transaction kind (empty for an acknowledgement).
    pub fn as_str(&self) -> (r: &str)
        ensures
            r@ == kind_name(self@),
    {
        match self {
            Transaction::Add => "ADD",
            Transaction::Update => "UPDATE",
            Transaction::Delete => "DELETE",
            Transaction::Clear => "CLEAR",
            Transaction::List => "LIST",
            Transaction::Check => "CHECK",
            Transaction::Ack => "",
            Transaction::Other(s) => s.as_str(),
        }
    }

    /// The transaction kind named by `name`; an unknown name is kept as `Other`.
    pub fn from_name(name: &str) -> (r: Transaction)
        ensures
            r@ == kind_of(name@),
    {
        let v = chars_of(name);
        assert(v@.subrange(0, v@.len() as int) =~= v@);
        let n = v.len();
        if eq_lit(&v, 0, n, "ADD") {
            Transaction::Add
        } else if eq_lit(&v, 0, n, "UPDATE") {
            Transaction::Update
        } else if eq_lit(&v, 0, n, "DELETE") {
            Transaction::Delete
        } else if eq_lit(&v, 0, n, "CLEAR") {
            Transaction::Clear
        } else if eq_lit(&v, 0, n, "LIST") {
            Transaction::List
        } else if eq_lit(&v, 0, n, "CHECK") {
            Transaction::Check
        } else if eq_lit(&v, 0, n, "") {
            Transaction::Ack
        } else {
            Transaction::Other(string_of(&v, 0, n))
        }
    }
}

/// One station-network message.
#[derive(Clone, Debug, PartialEq, Eq)]
pub enum Message {
    Hello(String),
    BandMode { station: String, band: String, mode: String },
    Open,
    Check,
    Who(Vec<String>),
    Chat { to: String, from: String, text: String },
    /// Clock fields are advisory data; this library never sets the system clock.
    Clock(Vec<(String, String)>),
    Transaction { from: String, kind: Transaction, fields: Vec<(String, String)> },
    /// Unrecognized wire body, retained without guessing its semantics.
    Unknown(String),
}

/// A message, with every text as a character sequence.
pub ghost enum MessageView {
    Hello(Seq<char>),
    BandMode { station: Seq<char>, band: Seq<char>, mode: Seq<char> },
    Open,
    Check,
    Who(Seq<Seq<char>>),
    Chat { to: Seq<char>, from: Seq<char>, text: Seq<char> },
    Clock(Seq<FieldView>),
    Transaction { from: Seq<char>, kind: TransactionView, fields: Seq<FieldView> },
    Unknown(Seq<char>),
}

/// The view of a list of strings.
pub open spec fn strings_view(v: Seq<String>) -> Seq<Seq<char>> {
    v.map_values(|s: String| s@)
}

impl View for Message {
    type V = MessageView;

    open spec fn view(&self) -> MessageView {
        match self {
            Message::Hello(s) => MessageView::Hello(s@),
            Message::BandMode { station, band, mode } => MessageView::BandMode {
                station: station@,
                band: band@,
                mode: mode@,
            },
            Message::Open => MessageView::Open,
            Message::Check => MessageView::Check,
            Message::Who(v) => MessageView::Who(strings_view(v@)),
            Message::Chat { to, from, text } => MessageView::Chat {
                to: to@,
                from: from@,
                text: text@,
            },
            Message::Clock(fs) => MessageView::Clock(fields_view(fs@)),
            Message::Transaction { from, kind, fields } => MessageView::Transaction {
                from: from@,
                kind: kind@,
                fields: fields_view(fields@),
            },
            Message::Unknown(s) => MessageView::Unknown(s@),
        }
    }
}

/// `a` followed by `b`, for successful parts; the first failure otherwise.
pub open spec fn cat(a: Result<Seq<char>, Error>, b: Result<Seq<char>, Error>) -> Result<
    Seq<char>,
    Error,
> {
    match a {
        Err(e) => Err(e),
        Ok(x) => match b {
            Err(e) => Err(e),
            Ok(y) => Ok(x + y),
        },
    }
}

/// The tags of a list of fields, in order.
pub open spec fn tags_spec(fs: Seq<FieldView>) -> Result<Seq<char>, Error>
    decreases fs.len(),
{
    if fs.len() == 0 {
        Ok(seq![])
    } else {
        cat(tags_spec(fs.drop_last()), tag_spec(fs.last().0, fs.last().1))
    }
}

/// The `STATION` tags of a roster, in order.
pub open spec fn station_tags(ss: Seq<Seq<char>>) -> Result<Seq<char>, Error>
    decreases ss.len(),
{
    if ss.len() == 0 {
        Ok(seq![])
    } else {
        cat(station_tags(ss.drop_last()), tag_spec("STATION"@, ss.last()))
    }
}

/// The wire body of a message.
pub open spec fn body_spec(m: MessageView) -> Result<Seq<char>, Error> {
    match m {
        MessageView::Hello(s) => tag_spec("HELLO"@, s),
        MessageView::BandMode { station, band, mode } => cat(
            cat(
                cat(Ok("<BAMS>"@), tag_spec("STATION"@, station)),
                cat(tag_spec("BAND"@, band), tag_spec("MODE"@, mode)),
            ),
            Ok("</BAMS>"@),
        ),
        MessageView::Open => Ok("<NTWK><OPEN></OPEN></NTWK>"@),
        MessageView::Check => Ok("<NTWK><CHECK></CHECK></NTWK>"@),
        MessageView::Who(ss) => cat(cat(Ok("<WHO>"@), station_tags(ss)), Ok("</WHO>"@)),
        MessageView::Chat { to, from, text } => cat(
            cat(
                cat(Ok("<MESG>"@), tag_spec("TO"@, to)),
                cat(tag_spec("FROM"@, from), tag_spec("MSGTXT"@, text)),
            ),
            Ok("</MESG>"@),
        ),
        MessageView::Clock(fs) => cat(cat(Ok("<SCLK>"@), tags_spec(fs)), Ok("</SCLK>"@)),
        MessageView::Transaction { from, kind, fields } => cat(
            cat(
                cat(Ok("<NTWK>"@), tag_spec("FROM"@, from)),
                cat(tag_spec("TRANSACTION"@, kind_name(kind)), Ok("<XMLDATA>"@)),
            ),
            cat(tags_spec(fields), Ok("</XMLDATA></NTWK>"@)),
        ),
        MessageView::Unknown(body) => if contains_sub(body, "<BOR>"@) || contains_sub(
            body,
            "<EOR>"@,
        ) {
            Err(Error::NestedFrameMarker)
        } else if has_forbidden(body) {
            Err(Error::ControlCharacter)
        } else {
            Ok(body)
        },
    }
}

/// The value of the first field named `key`.
pub open spec fn get_field(fs: Seq<FieldView>, key: Seq<char>) -> Option<Seq<char>>
    decreases fs.len(),
{
    if fs.len() == 0 {
        None
    } else if fs[0].0 == key {
        Some(fs[0].1)
    } else {
        get_field(fs.drop_first(), key)
    }
}

/// The values of all `STATION` fields, in order.
pub open spec fn stations_of(fs: Seq<FieldView>) -> Seq<Seq<char>>
    decreases fs.len(),
{
    if fs.len() == 0 {
        seq![]
    } else if fs.last().0 == "STATION"@ {
        stations_of(fs.drop_last()).push(fs.last().1)
    } else {
        stations_of(fs.drop_last())
    }
}

/// A present value, or the empty text.
pub open spec fn or_empty(o: Option<Seq<char>>) -> Seq<char> {
    match o {
        Some(v) => v,
        None => seq![],
    }
}

/// The text before the first `</XMLDATA>` of what follows the first `<XMLDATA>`.
pub open spec fn xml_data(b: Seq<char>) -> Option<Seq<char>> {
    match find_sub(b, "<XMLDATA>"@) {
        Some(i) => {
            let rest = b.skip(i + "<XMLDATA>"@.len());
            Some(
                match find_sub(rest, "</XMLDATA>"@) {
                    Some(j) => rest.take(j),
                    None => rest,
                },
            )
        },
        None => None,
    }
}

/// The greeting text up to its first `<`.
pub open spec fn greeting_text(b: Seq<char>) -> Seq<char> {
    let g = b.skip("<HELLO>"@.len() as int);
    match find_sub(g, seq!['<']) {
        Some(i) => g.take(i),
        None => g,
    }
}

/// A band/mode announcement from its fields.
pub open spec fn bams_spec(fs: Seq<FieldView>) -> Result<MessageView, Error> {
    match (get_field(fs, "STATION"@), get_field(fs, "BAND"@), get_field(fs, "MODE"@)) {
        (Some(s), Some(bd), Some(m)) => Ok(MessageView::BandMode { station: s, band: bd, mode: m }),
        _ => Err(Error::MissingField),
    }
}

/// A `<NTWK>` message: a transaction when it names one, else a session control.
pub open spec fn ntwk_spec(b: Seq<char>, fs: Seq<FieldView>) -> Result<MessageView, Error> {
    match get_field(fs, "TRANSACTION"@) {
        Some(kind) => {
            let data = match xml_data(b) {
                Some(inner) => leaves_spec(inner),
                None => Ok(seq![]),
            };
            match data {
                Err(e) => Err(e),
                Ok(d) => Ok(
                    MessageView::Transaction {
                        from: or_empty(get_field(fs, "FROM"@)),
                        kind: kind_of(kind),
                        fields: d,
                    },
                ),
            }
        },
        None => if contains_sub(b, "<OPEN>"@) {
            Ok(MessageView::Open)
        } else if contains_sub(b, "<CHECK>"@) {
            Ok(MessageView::Check)
        } else {
            Ok(MessageView::Unknown(b))
        },
    }
}

/// A chat message from its fields.
pub open spec fn mesg_spec(fs: Seq<FieldView>) -> Result<MessageView, Error> {
    match (get_field(fs, "FROM"@), get_field(fs, "MSGTXT"@)) {
        (Some(f), Some(t)) => Ok(
            MessageView::Chat { to: or_empty(get_field(fs, "TO"@)), from: f, text: t },
        ),
        _ => Err(Error::MissingField),
    }
}

/// A greeting: its HELLO field, else the text after the opening tag. The
/// greeting text is unescaped (and must unescape) in either case.
pub open spec fn hello_spec(b: Seq<char>, fs: Seq<FieldView>) -> Result<MessageView, Error> {
    match unescape_spec(greeting_text(b)) {
        Err(e) => Err(e),
        Ok(u) => Ok(
            MessageView::Hello(
                match get_field(fs, "HELLO"@) {
                    Some(h) => h,
                    None => u,
                },
            ),
        ),
    }
}

/// The message family that the opening tag of the trimmed body `b` selects.
pub open spec fn family_spec(b: Seq<char>, fs: Seq<FieldView>) -> Result<MessageView, Error> {
    if starts_with(b, "<BAMS>"@) {
        bams_spec(fs)
    } else if starts_with(b, "<NTWK>"@) {
        ntwk_spec(b, fs)
    } else if starts_with(b, "<WHO>"@) {
        Ok(MessageView::Who(stations_of(fs)))
    } else if starts_with(b, "<MESG>"@) {
        mesg_spec(fs)
    } else if starts_with(b, "<SCLK>"@) {
        Ok(MessageView::Clock(fs))
    } else if starts_with(b, "<HELLO>"@) {
        hello_spec(b, fs)
    } else {
        Ok(MessageView::Unknown(b))
    }
}

/// What reading a message body gives. The body is trimmed and its leaf tags
/// read first; the opening tag then selects the message family.
pub open spec fn parse_spec(body: Seq<char>) -> Result<MessageView, Error> {
    let b = trim(body);
    match leaves_spec(b) {
        Err(e) => Err(e),
        Ok(fs) => family_spec(b, fs),
    }
}

/// The view of a result holding a message.
pub open spec fn message_result(r: Result<Message, Error>) -> Result<MessageView, Error> {
    match r {
        Ok(m) => Ok(m@),
        Err(e) => Err(e),
    }
}

/// The view of a result holding text.
pub open spec fn chars_result(r: Result<Vec<char>, Error>) -> Result<Seq<char>, Error> {
    match r {
        Ok(v) => Ok(v@),
        Err(e) => Err(e),
    }
}

/// Appends the tag of one field given as strings.
fn push_tag_str(out: &mut Vec<char>, key: &str, value: &str) -> (r: Result<(), Error>)
    ensures
        match tag_spec(key@, value@) {
            Ok(t) => r is Ok && final(out)@ == old(out)@ + t,
            Err(e) => r == Err::<(), Error>(e),
        },
{
    let k = chars_of(key);
    let v = chars_of(value);
    assert(k@.subrange(0, k@.len() as int) =~= k@);
    assert(v@.subrange(0, v@.len() as int) =~= v@);
    push_tag(out, &k, 0, k.len(), &v, 0, v.len())
}

/// Appends the tags of `fields`, in order.
fn push_tags(out: &mut Vec<char>, fields: &Vec<(String, String)>) -> (r: Result<(), Error>)
    ensures
        match tags_spec(fields_view(fields@)) {
            Ok(t) => r is Ok && final(out)@ == old(out)@ + t,
            Err(e) => r == Err::<(), Error>(e),
        },
{
    let ghost start = out@;
    let ghost fs = fields_view(fields@);
    let mut i: usize = 0;
    assert(fs.take(0) =~= Seq::<FieldView>::empty());
    assert(start + Seq::<char>::empty() =~= start);
    while i < fields.len()
        invariant
            i <= fields@.len(),
            fs == fields_view(fields@),
            tags_spec(fs.take(i as int)) is Ok,
            out@ == start + tags_spec(fs.take(i as int))->Ok_0,
        decreases fields@.len() - i,
    {
        assert(fs.take(i + 1).drop_last() =~= fs.take(i as int));
        assert(fs.take(i + 1).last() == (fields@[i as int].0@, fields@[i as int].1@));
        let ghost before = out@;
        match push_tag_str(out, fields[i].0.as_str(), fields[i].1.as_str()) {
            Ok(()) => {
                assert(start + tags_spec(fs.take(i + 1))->Ok_0 =~= out@);
            },
            Err(e) => {
                proof {
                    lemma_tags_error_persists(fs, i as int + 1);
                }
                assert(fs.take(fields@.len() as int) =~= fs);
                return Err(e);
            },
        }
        i += 1;
    }
    assert(fs.take(fields@.len() as int) =~= fs);
    Ok(())
}

/// Once a prefix of the fields fails, so does every longer prefix (with the same error).
proof fn lemma_tags_error_persists(fs: Seq<FieldView>, k: int)
    requires
        0 <= k <= fs.len(),
        tags_spec(fs.take(k)) is Err,
    ensures
        tags_spec(fs) == tags_spec(fs.take(k)),
    decreases fs.len() - k,
{
    if k == fs.len() {
        assert(fs.take(k) =~= fs);
    } else {
        assert(fs.take(k + 1).drop_last() =~= fs.take(k));
        lemma_tags_error_persists(fs, k + 1);
    }
}

/// Once a prefix of the roster fails, so does every longer prefix.
proof fn lemma_station_error_persists(ss: Seq<Seq<char>>, k: int)
    requires
        0 <= k <= ss.len(),
        station_tags(ss.take(k)) is Err,
    ensures
        station_tags(ss) == station_tags(ss.take(k)),
    decreases ss.len() - k,
{
    if k == ss.len() {
        assert(ss.take(k) =~= ss);
    } else {
        assert(ss.take(k + 1).drop_last() =~= ss.take(k));
        lemma_station_error_persists(ss, k + 1);
    }
}

/// Appends the `STATION` tags of a roster, in order.
fn push_station_tags(out: &mut Vec<char>, stations: &Vec<String>) -> (r: Result<(), Error>)
    ensures
        match station_tags(strings_view(stations@)) {
            Ok(t) => r is Ok && final(out)@ == old(out)@ + t,
            Err(e) => r == Err::<(), Error>(e),
        },
{
    let ghost start = out@;
    let ghost ss = strings_view(stations@);
    let mut i: usize = 0;
    assert(ss.take(0) =~= Seq::<Seq<char>>::empty());
    assert(start + Seq::<char>::empty() =~= start);
    while i < stations.len()
        invariant
            i <= stations@.len(),
            ss == strings_view(stations@),
            station_tags(ss.take(i as int)) is Ok,
            out@ == start + station_tags(ss.take(i as int))->Ok_0,
        decreases stations@.len() - i,
    {
        assert(ss.take(i + 1).drop_last() =~= ss.take(i as int));
        assert(ss.take(i + 1).last() == stations@[i as int]@);
        match push_tag_str(out, "STATION", stations[i].as_str()) {
            Ok(()) => {
                assert(start + station_tags(ss.take(i + 1))->Ok_0 =~= out@);
            },
            Err(e) => {
                proof {
                    lemma_station_error_persists(ss, i as int + 1);
                }
                assert(ss.take(stations@.len() as int) =~= ss);
                return Err(e);
            },
        }
        i += 1;
    }
    assert(ss.take(stations@.len() as int) =~= ss);
    Ok(())
}

/// The value of the first field named `key`.
pub fn field_value(fields: &Vec<(String, String)>, key: &str) -> (r: Option<String>)
    ensures
        match r {
            Some(s) => get_field(fields_view(fields@), key@) == Some(s@),
            None => get_field(fields_view(fields@), key@) is None,
        },
{
    let ghost fs = fields_view(fields@);
    let k = chars_of(key);
    let mut i: usize = 0;
    assert(fs.skip(0) =~= fs);
    while i < fields.len()
        invariant
            i <= fields@.len(),
            fs == fields_view(fields@),
            k@ == key@,
            get_field(fs, key@) == get_field(fs.skip(i as int), key@),
        decreases fields@.len() - i,
    {
        let name = chars_of(fields[i].0.as_str());
        assert(name@.subrange(0, name@.len() as int) =~= name@);
        assert(fs.skip(i as int)[0] == (fields@[i as int].0@, fields@[i as int].1@));
        if range_eq(&name, 0, name.len(), &k) {
            return Some(fields[i].1.clone());
        }
        assert(fs.skip(i as int).drop_first() =~= fs.skip(i + 1));
        i += 1;
    }
    None
}

/// The values of all `STATION` fields, in order.
fn station_values(fields: &Vec<(String, String)>) -> (r: Vec<String>)
    ensures
        strings_view(r@) == stations_of(fields_view(fields@)),
{
    let ghost fs = fields_view(fields@);
    let mut out: Vec<String> = Vec::new();
    let mut i: usize = 0;
    while i < fields.len()
        invariant
            i <= fields@.len(),
            fs == fields_view(fields@),
            strings_view(out@) == stations_of(fs.take(i as int)),
        decreases fields@.len() - i,
    {
        assert(fs.take(i + 1).drop_last() =~= fs.take(i as int));
        assert(fs.take(i + 1).last() == (fields@[i as int].0@, fields@[i as int].1@));
        let name = chars_of(fields[i].0.as_str());
        assert(name@.subrange(0, name@.len() as int) =~= name@);
        if eq_lit(&name, 0, name.len(), "STATION") {
            let ghost before = out@;
            out.push(fields[i].1.clone());
            assert(strings_view(out@) =~= strings_view(before).push(fields@[i as int].1@));
        }
        i += 1;
    }
    assert(fs.take(fields@.len() as int) =~= fs);
    out
}

impl Message {
    /// The wire body of this message, without frame markers.
    pub fn body_chars(&self) -> (r: Result<Vec<char>, Error>)
        ensures
            chars_result(r) == body_spec(self@),
    {
        let mut out: Vec<char> = Vec::new();
        match self {
            Message::Hello(s) => {
                push_tag_str(&mut out, "HELLO", s.as_str())?;
                assert(out@ =~= tag_spec("HELLO"@, s@)->Ok_0);
            },
            Message::BandMode { station, band, mode } => {
                push_lit(&mut out, "<BAMS>");
                push_tag_str(&mut out, "STATION", station.as_str())?;
                push_tag_str(&mut out, "BAND", band.as_str())?;
                push_tag_str(&mut out, "MODE", mode.as_str())?;
                push_lit(&mut out, "</BAMS>");
                assert(out@ =~= body_spec(self@)->Ok_0);
            },
            Message::Open => {
                push_lit(&mut out, "<NTWK><OPEN></OPEN></NTWK>");
                assert(out@ =~= body_spec(self@)->Ok_0);
            },
            Message::Check => {
                push_lit(&mut out, "<NTWK><CHECK></CHECK></NTWK>");
                assert(out@ =~= body_spec(self@)->Ok_0);
            },
            Message::Who(stations) => {
                push_lit(&mut out, "<WHO>");
                push_station_tags(&mut out, stations)?;
                push_lit(&mut out, "</WHO>");
                assert(out@ =~= body_spec(self@)->Ok_0);
            },
            Message::Chat { to, from, text } => {
                push_lit(&mut out, "<MESG>");
                push_tag_str(&mut out, "TO", to.as_str())?;
                push_tag_str(&mut out, "FROM", from.as_str())?;
                push_tag_str(&mut out, "MSGTXT", text.as_str())?;
                push_lit(&mut out, "</MESG>");
                assert(out@ =~= body_spec(self@)->Ok_0);
            },
            Message::Clock(fields) => {
                push_lit(&mut out, "<SCLK>");
                push_tags(&mut out, fields)?;
                push_lit(&mut out, "</SCLK>");
                assert(out@ =~= body_spec(self@)->Ok_0);
            },
            Message::Transaction { from, kind, fields } => {
                push_lit(&mut out, "<NTWK>");
                push_tag_str(&mut out, "FROM", from.as_str())?;
                push_tag_str(&mut out, "TRANSACTION", kind.as_str())?;
                push_lit(&mut out, "<XMLDATA>");
                push_tags(&mut out, fields)?;
                push_lit(&mut out, "</XMLDATA></NTWK>");
                assert(out@ =~= body_spec(self@)->Ok_0);
            },
            Message::Unknown(body) => {
                let v = chars_of(body.as_str());
                assert(v@.subrange(0, v@.len() as int) =~= v@);
                let bor = chars_of("<BOR>");
                let eor = chars_of("<EOR>");
                if find_in(&v, &bor, 0, v.len()).is_some() || find_in(&v, &eor, 0, v.len()).is_some() {
                    return Err(Error::NestedFrameMarker);
                }
                escape(body.as_str())?;
                return Ok(v);
            },
        }
        Ok(out)
    }

    /// The wire body of this message, without frame markers.
    pub fn body(&self) -> (r: Result<String, Error>)
        ensures
            match r {
                Ok(s) => body_spec(self@) == Ok::<Seq<char>, Error>(s@),
                Err(e) => body_spec(self@) == Err::<Seq<char>, Error>(e),
            },
    {
        let v = self.body_chars()?;
        assert(v@.subrange(0, v@.len() as int) =~= v@);
        Ok(string_of(&v, 0, v.len()))
    }

    /// Read a message body of the captured station-network protocol.
    pub fn parse(body: &str) -> (r: Result<Message, Error>)
        ensures
            message_result(r) == parse_spec(body@),
    {
        let v = chars_of(body);
        assert(v@.subrange(0, v@.len() as int) =~= v@);
        let (a, e) = trim_bounds(&v, 0, v.len());
        let fields = leaves_range(&v, a, e)?;
        Self::parse_family(&v, a, e, fields)
    }

    fn parse_family(v: &Vec<char>, a: usize, e: usize, fields: Vec<(String, String)>) -> (r: Result<
        Message,
        Error,
    >)
        requires
            a <= e <= v@.len(),
        ensures
            message_result(r) == family_spec(v@.subrange(a as int, e as int), fields_view(fields@)),
    {
        if starts_lit(v, a, e, "<BAMS>") {
            Self::parse_bams(&fields)
        } else if starts_lit(v, a, e, "<NTWK>") {
            Self::parse_ntwk(v, a, e, &fields)
        } else if starts_lit(v, a, e, "<WHO>") {
            Ok(Message::Who(station_values(&fields)))
        } else if starts_lit(v, a, e, "<MESG>") {
            Self::parse_mesg(&fields)
        } else if starts_lit(v, a, e, "<SCLK>") {
            Ok(Message::Clock(fields))
        } else if starts_lit(v, a, e, "<HELLO>") {
            Self::parse_hello(v, a, e, &fields)
        } else {
            Ok(Message::Unknown(string_of(v, a, e)))
        }
    }

    fn parse_bams(fields: &Vec<(String, String)>) -> (r: Result<Message, Error>)
        ensures
            message_result(r) == bams_spec(fields_view(fields@)),
    {
        let station = field_value(fields, "STATION");
        let band = field_value(fields, "BAND");
        let mode = field_value(fields, "MODE");
        match (station, band, mode) {
            (Some(station), Some(band), Some(mode)) => Ok(Message::BandMode { station, band, mode }),
            _ => Err(Error::MissingField),
        }
    }

    fn parse_mesg(fields: &Vec<(String, String)>) -> (r: Result<Message, Error>)
        ensures
            message_result(r) == mesg_spec(fields_view(fields@)),
    {
        let to = field_value(fields, "TO");
        let from = field_value(fields, "FROM");
        let text = field_value(fields, "MSGTXT");
        match (from, text) {
            (Some(from), Some(text)) => {
                let to = match to {
                    Some(t) => t,
                    None => String::new(),
                };
                Ok(Message::Chat { to, from, text })
            },
            _ => Err(Error::MissingField),
        }
    }

    fn parse_xml_data(v: &Vec<char>, a: usize, e: usize) -> (r: Result<Vec<(String, String)>, Error>)
        requires
            a <= e <= v@.len(),
        ensures
            fields_result(r) == match xml_data(v@.subrange(a as int, e as int)) {
                Some(inner) => leaves_spec(inner),
                None => Ok(seq![]),
            },
    {
        let ghost b = v@.subrange(a as int, e as int);
        let open = chars_of("<XMLDATA>");
        let close = chars_of("</XMLDATA>");
        match find_in(v, &open, a, e) {
            Some(i) => {
                proof {
                    lemma_find_sub(b, "<XMLDATA>"@);
                }
                let start = i + open.len();
                let ghost rest = b.skip(i - a + "<XMLDATA>"@.len());
                assert(rest =~= v@.subrange(start as int, e as int));
                match find_in(v, &close, start, e) {
                    Some(j) => {
                        proof {
                            lemma_find_sub(rest, "</XMLDATA>"@);
                        }
                        assert(rest.take(j - start) =~= v@.subrange(start as int, j as int));
                        leaves_range(v, start, j)
                    },
                    None => leaves_range(v, start, e),
                }
            },
            None => {
                assert(fields_view(Seq::<(String, String)>::empty()) =~= Seq::<FieldView>::empty());
                Ok(Vec::new())
            },
        }
    }

    fn parse_ntwk(v: &Vec<char>, a: usize, e: usize, fields: &Vec<(String, String)>) -> (r: Result<
        Message,
        Error,
    >)
        requires
            a <= e <= v@.len(),
        ensures
            message_result(r) == ntwk_spec(v@.subrange(a as int, e as int), fields_view(fields@)),
    {
        match field_value(fields, "TRANSACTION") {
            Some(kind) => {
                let data = Self::parse_xml_data(v, a, e)?;
                let from = match field_value(fields, "FROM") {
                    Some(f) => f,
                    None => String::new(),
                };
                Ok(
                    Message::Transaction {
                        from,
                        kind: Transaction::from_name(kind.as_str()),
                        fields: data,
                    },
                )
            },
            None => {
                let open = chars_of("<OPEN>");
                let check = chars_of("<CHECK>");
                if find_in(v, &open, a, e).is_some() {
                    Ok(Message::Open)
                } else if find_in(v, &check, a, e).is_some() {
                    Ok(Message::Check)
                } else {
                    Ok(Message::Unknown(string_of(v, a, e)))
                }
            },
        }
    }

    fn parse_hello(v: &Vec<char>, a: usize, e: usize, fields: &Vec<(String, String)>) -> (r: Result<
        Message,
        Error,
    >)
        requires
            a <= e <= v@.len(),
            starts_with(v@.subrange(a as int, e as int), "<HELLO>"@),
        ensures
            message_result(r) == hello_spec(v@.subrange(a as int, e as int), fields_view(fields@)),
    {
        let ghost b = v@.subrange(a as int, e as int);
        let g = a + chars_of("<HELLO>").len();
        let ghost gs = b.skip("<HELLO>"@.len() as int);
        assert(gs =~= v@.subrange(g as int, e as int));
        let lt = ['<'];
        assert(lt@ == seq!['<']);
        let end = match find_in(v, &lt, g, e) {
            Some(i) => {
                proof {
                    lemma_find_sub(gs, seq!['<']);
                }
                assert(gs.take(i - g) =~= v@.subrange(g as int, i as int));
                i
            },
            None => e,
        };
        let greeting = unescape_range(v, g, end)?;
        match field_value(fields, "HELLO") {
            Some(h) => Ok(Message::Hello(h)),
            None => Ok(Message::Hello(greeting)),
        }
    }
}

/// Each part of a message travels under its own tag: a chat's addressee
/// under `TO`, its sender under `FROM` and its text under `MSGTXT`; a
/// band/mode report's station, band and mode under `STATION`, `BAND` and
/// `MODE`; a transaction's sender under `FROM` and its kind under
/// `TRANSACTION`; a greeting is its `HELLO` tag.
pub proof fn lemma_body_tags(m: MessageView)
    requires
        body_spec(m) is Ok,
    ensures
        ({
            let b = body_spec(m)->Ok_0;
            &&& (m matches MessageView::Chat { to, from, text } ==> occurs(b, tag_text("TO"@, to))
                && occurs(b, tag_text("FROM"@, from)) && occurs(b, tag_text("MSGTXT"@, text)))
            &&& (m matches MessageView::BandMode { station, band, mode } ==> occurs(
                b,
                tag_text("STATION"@, station),
            ) && occurs(b, tag_text("BAND"@, band)) && occurs(b, tag_text("MODE"@, mode)))
            &&& (m matches MessageView::Transaction { from, kind, .. } ==> occurs(
                b,
                tag_text("FROM"@, from),
            ) && occurs(b, tag_text("TRANSACTION"@, kind_name(kind))))
            &&& (m matches MessageView::Hello(s) ==> b == tag_text("HELLO"@, s))
        }),
{
    lemma_occurs_grow();
}

} // verus!
