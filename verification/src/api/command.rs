//! API commands: an ordered, extensible parameter list and its `CMD` encoding.
//! N3FJP's API is tagged text, not XML: values are not entity-escaped, so
//! values are checked to keep them inside their framing.
use vstd::prelude::*;
use crate::api::catalog::{
    kind_minimum, kind_name, kind_required, names_view, split_on, version_le, CommandKind,
    Version, lemma_split_none, lemma_split_nonempty, lemma_split_step,
};
use crate::error::Error;
use crate::network::message::{eq_lit, or_empty};
use crate::number::{parse_unsigned, parse_bounded_exec};
use crate::text::{
    chars_of, eq_ignore_case, eq_ignore_case_range, find_in, find_sub, is_ascii_alpha,
    is_ascii_alpha_exec, is_ascii_char, is_ascii_char_exec, is_ascii_control,
    is_ascii_control_exec, lemma_find_sub, lemma_trim_start_suffix, to_upper, trim,
    trim_bounds, trim_start, upper, vec_extend,
};
use crate::wire::{is_name, name_range};

verus! {

/// The value of an `ACTION` command.
#[derive(Clone, Copy, Debug, PartialEq, Eq, Structural)]
pub enum Action {
    Enter,
    Clear,
    CallTab,
    DupeCheck,
}

/// The wire text of an action.
pub open spec fn action_name(a: Action) -> Seq<char> {
    match a {
        Action::Enter => "ENTER"@,
        Action::Clear => "CLEAR"@,
        Action::CallTab => "CALLTAB"@,
        Action::DupeCheck => "DUPECHECK"@,
    }
}

impl Action {
    /// The wire text of this action.
    pub fn as_str(self) -> (r: &'static str)
        ensures
            r@ == action_name(self),
    {
        match self {
            Action::Enter => "ENTER",
            Action::Clear => "CLEAR",
            Action::CallTab => "CALLTAB",
            Action::DupeCheck => "DUPECHECK",
        }
    }
}

/// One command parameter.
#[derive(Clone, Debug, PartialEq, Eq)]
pub enum Parameter {
    Field { name: String, value: String },
    /// Bare flags such as INCLUDEALL have no closing tag in this protocol.
    Flag(String),
}

/// A parameter, with its texts as character sequences.
pub ghost enum ParameterView {
    Field { name: Seq<char>, value: Seq<char> },
    Flag(Seq<char>),
}

impl View for Parameter {
    type V = ParameterView;

    open spec fn view(&self) -> ParameterView {
        match self {
            Parameter::Field { name, value } => ParameterView::Field { name: name@, value: value@ },
            Parameter::Flag(n) => ParameterView::Flag(n@),
        }
    }
}

/// The views of a list of parameters.
pub open spec fn params_view(ps: Seq<Parameter>) -> Seq<ParameterView> {
    ps.map_values(|p: Parameter| p@)
}

/// Complete API command catalog with extensible, ordered parameters.
#[derive(Clone, Debug, PartialEq, Eq)]
pub struct Command {
    kind: CommandKind,
    parameters: Vec<Parameter>,
}

/// A command: its kind and its parameters in order.
pub ghost struct CommandView {
    pub kind: CommandKind,
    pub parameters: Seq<ParameterView>,
}

impl View for Command {
    type V = CommandView;

    closed spec fn view(&self) -> CommandView {
        CommandView { kind: self.kind, parameters: params_view(self.parameters@) }
    }
}

/// The name of a parameter.
pub open spec fn param_name(p: ParameterView) -> Seq<char> {
    match p {
        ParameterView::Field { name, .. } => name,
        ParameterView::Flag(n) => n,
    }
}

/// The value of the first field named `key` (ASCII case-insensitively).
pub open spec fn lookup(ps: Seq<ParameterView>, key: Seq<char>) -> Option<Seq<char>>
    decreases ps.len(),
{
    if ps.len() == 0 {
        None
    } else {
        match ps[0] {
            ParameterView::Field { name, value } => if eq_ignore_case(name, key) {
                Some(value)
            } else {
                lookup(ps.drop_first(), key)
            },
            ParameterView::Flag(_) => lookup(ps.drop_first(), key),
        }
    }
}

/// API text: printable ASCII without angle brackets.
pub open spec fn text_ok(v: Seq<char>) -> bool {
    forall|i: int|
        0 <= i < v.len() ==> is_ascii_char(#[trigger] v[i]) && !is_ascii_control(v[i]) && v[i]
            != '<' && v[i] != '>'
}

/// What checking API text gives.
pub open spec fn text_spec(v: Seq<char>) -> Result<(), Error> {
    if text_ok(v) {
        Ok(())
    } else {
        Err(Error::InvalidText)
    }
}

/// One ASCII line: no character beyond ASCII and no ASCII control.
pub open spec fn ascii_line(v: Seq<char>) -> bool {
    forall|i: int| 0 <= i < v.len() ==> is_ascii_char(#[trigger] v[i]) && !is_ascii_control(v[i])
}

/// An ADIF field descriptor: `NAME:LENGTH` or `NAME:LENGTH:T` with a one-letter type.
pub open spec fn descriptor_ok(parts: Seq<Seq<char>>) -> bool {
    2 <= parts.len() <= 3 && is_name(parts[0]) && (parts.len() == 3 ==> parts[2].len() == 1
        && is_ascii_alpha(parts[2][0]))
}

/// The ADIF fields of `rest` (`seen` when a field was read before it): the
/// record must end with `<EOR>` after at least one field.
pub open spec fn adif_fields(rest: Seq<char>, seen: bool) -> Result<(), Error>
    decreases rest.len(),
{
    if eq_ignore_case(rest, "<EOR>"@) && seen {
        Ok(())
    } else if rest.len() == 0 || rest[0] != '<' {
        Err(Error::InvalidAdif)
    } else {
        let tail = rest.skip(1);
        match find_sub(tail, seq!['>']) {
            None => Err(Error::InvalidAdif),
            Some(j) => {
                proof {
                    lemma_find_sub(tail, seq!['>']);
                }
                let parts = split_on(tail.take(j), ':');
                let after = tail.skip(j + 1);
                if !descriptor_ok(parts) {
                    Err(Error::InvalidAdif)
                } else {
                    match parse_unsigned(parts[1], 10) {
                        None => Err(Error::InvalidAdif),
                        Some(n) => if n > after.len() {
                            Err(Error::InvalidAdif)
                        } else if !text_ok(after.take(n as int)) {
                            Err(Error::InvalidText)
                        } else {
                            proof {
                                lemma_trim_start_suffix(after.skip(n as int));
                            }
                            adif_fields(trim_start(after.skip(n as int)), true)
                        },
                    }
                }
            },
        }
    }
}

/// What checking an embedded ADIF record gives: exactly one record on one ASCII line.
pub open spec fn adif_spec(record: Seq<char>) -> Result<(), Error> {
    if !ascii_line(record) {
        Err(Error::InvalidAdif)
    } else {
        adif_fields(trim(record), false)
    }
}

/// The check that a field value of `kind` named `name` must pass.
pub open spec fn value_check(kind: CommandKind, name: Seq<char>, value: Seq<char>) -> Result<
    (),
    Error,
> {
    if kind == CommandKind::AddAdifRecord && name == "VALUE"@ {
        adif_spec(value)
    } else {
        text_spec(value)
    }
}

/// The encoding of one parameter, given those before it.
pub open spec fn param_text(kind: CommandKind, earlier: Seq<ParameterView>, p: ParameterView) -> Result<
    Seq<char>,
    Error,
> {
    let n = param_name(p);
    if !is_name(n) || n == "CMD"@ || earlier.map_values(|q: ParameterView| param_name(q)).contains(
        n,
    ) {
        Err(Error::InvalidParameter)
    } else {
        match p {
            ParameterView::Flag(_) => if n != "INCLUDEALL"@ || !(kind == CommandKind::List || kind
                == CommandKind::Search) {
                Err(Error::UnsupportedFlag)
            } else {
                Ok(seq!['<'] + n + seq!['>'])
            },
            ParameterView::Field { value, .. } => match value_check(kind, n, value) {
                Err(e) => Err(e),
                Ok(_) => Ok(seq!['<'] + n + seq!['>'] + value + seq!['<', '/'] + n + seq!['>']),
            },
        }
    }
}

/// The encoding of the parameters, in order; the first refused one decides the error.
pub open spec fn params_spec(kind: CommandKind, ps: Seq<ParameterView>) -> Result<Seq<char>, Error>
    decreases ps.len(),
{
    if ps.len() == 0 {
        Ok(seq![])
    } else {
        match params_spec(kind, ps.drop_last()) {
            Err(e) => Err(e),
            Ok(t) => match param_text(kind, ps.drop_last(), ps.last()) {
                Err(e) => Err(e),
                Ok(x) => Ok(t + x),
            },
        }
    }
}

/// Some name of `req` has no field.
pub open spec fn missing_required(req: Seq<Seq<char>>, ps: Seq<ParameterView>) -> bool {
    exists|i: int| 0 <= i < req.len() && lookup(ps, #[trigger] req[i]) is None
}

/// The command-level checks after the parameters.
pub open spec fn checks_spec(c: CommandView) -> Result<(), Error> {
    let ps = c.parameters;
    if missing_required(kind_required(c.kind), ps) {
        Err(Error::MissingRequiredField)
    } else if c.kind == CommandKind::Action && !(lookup(ps, "VALUE"@) == Some("ENTER"@) || lookup(
        ps,
        "VALUE"@,
    ) == Some("CLEAR"@) || lookup(ps, "VALUE"@) == Some("CALLTAB"@) || lookup(ps, "VALUE"@)
        == Some("DUPECHECK"@)) {
        Err(Error::UnknownAction)
    } else if (c.kind == CommandKind::QsoInProgress || c.kind == CommandKind::UpdateAndLog)
        && or_empty(lookup(ps, "BAND"@)).len() == 0 && or_empty(lookup(ps, "FREQ"@)).len() == 0 {
        Err(Error::BandOrFreqRequired)
    } else if c.kind == CommandKind::Atno && lookup(ps, "COUNTRYWORKED"@) is None && lookup(
        ps,
        "DXCC"@,
    ) is None {
        Err(Error::CountryRequired)
    } else {
        Ok(())
    }
}

/// The text of an encoded command.
pub open spec fn encode_text(c: CommandView) -> Result<Seq<char>, Error> {
    match params_spec(c.kind, c.parameters) {
        Err(e) => Err(e),
        Ok(t) => match checks_spec(c) {
            Err(e) => Err(e),
            Ok(_) => Ok("<CMD><"@ + kind_name(c.kind) + ">"@ + t + "</CMD>\r\n"@),
        },
    }
}

/// Text as bytes, one per (ASCII) character.
pub open spec fn ascii_bytes(s: Seq<char>) -> Seq<u8> {
    s.map_values(|c: char| c as u8)
}

/// What encoding a command gives: its `CMD` record as ASCII bytes.
pub open spec fn encode_spec(c: CommandView) -> Result<Seq<u8>, Error> {
    match encode_text(c) {
        Err(e) => Err(e),
        Ok(t) => Ok(ascii_bytes(t)),
    }
}

/// Whether API text `v[from..to]` is printable ASCII without angle brackets.
fn text_ok_range(v: &[char], from: usize, to: usize) -> (b: bool)
    requires
        from <= to <= v@.len(),
    ensures
        b == text_ok(v@.subrange(from as int, to as int)),
{
    let ghost s = v@.subrange(from as int, to as int);
    let mut i = from;
    while i < to
        invariant
            from <= i <= to <= v@.len(),
            s == v@.subrange(from as int, to as int),
            forall|j: int|
                0 <= j < i - from ==> is_ascii_char(#[trigger] s[j]) && !is_ascii_control(s[j])
                    && s[j] != '<' && s[j] != '>',
        decreases to - i,
    {
        let c = v[i];
        if !is_ascii_char_exec(c) || is_ascii_control_exec(c) || c == '<' || c == '>' {
            assert(s[i - from] == c);
            return false;
        }
        i += 1;
    }
    true
}

/// Whether `v` is one ASCII line.
fn ascii_line_exec(v: &[char]) -> (b: bool)
    ensures
        b == ascii_line(v@),
{
    let mut i: usize = 0;
    while i < v.len()
        invariant
            i <= v@.len(),
            forall|j: int| 0 <= j < i ==> is_ascii_char(#[trigger] v@[j]) && !is_ascii_control(v@[j]),
        decreases v@.len() - i,
    {
        if !is_ascii_char_exec(v[i]) || is_ascii_control_exec(v[i]) {
            return false;
        }
        i += 1;
    }
    true
}

/// The descriptor `v[from..to]`: where its parts end, when it has two or three.
fn descriptor_parts(v: &[char], from: usize, to: usize) -> (r: Option<(usize, usize)>)
    requires
        from <= to <= v@.len(),
    ensures
        ({
            let parts = split_on(v@.subrange(from as int, to as int), ':');
            match r {
                Some((c1, c2)) => from <= c1 < c2 <= to && descriptor_ok(parts) && parts[0]
                    == v@.subrange(from as int, c1 as int) && parts[1] == v@.subrange(
                    c1 + 1,
                    c2 as int,
                ),
                None => !descriptor_ok(parts),
            }
        }),
{
    let ghost d = v@.subrange(from as int, to as int);
    let colon = [':'];
    assert(colon@ == seq![':']);
    let c1 = match find_in(v, &colon, from, to) {
        None => {
            proof {
                lemma_split_none(d, ':');
            }
            return None;
        },
        Some(c) => c,
    };
    proof {
        lemma_find_sub(d, seq![':']);
    }
    let ghost r1 = d.skip(c1 - from + 1);
    assert(d.take(c1 - from) =~= v@.subrange(from as int, c1 as int));
    assert(r1 =~= v@.subrange(c1 + 1, to as int));
    proof {
        lemma_split_step(d, ':', c1 - from);
    }
    let name_ok = name_range(v, from, c1);
    match find_in(v, &colon, c1 + 1, to) {
        None => {
            proof {
                lemma_split_none(r1, ':');
            }
            assert(split_on(d, ':') =~= seq![d.take(c1 - from), r1]);
            if name_ok {
                Some((c1, to))
            } else {
                None
            }
        },
        Some(c2) => {
            proof {
                lemma_find_sub(r1, seq![':']);
            }
            let ghost r2 = r1.skip(c2 - (c1 + 1) + 1);
            assert(r1.take(c2 - (c1 + 1)) =~= v@.subrange(c1 + 1, c2 as int));
            assert(r2 =~= v@.subrange(c2 + 1, to as int));
            proof {
                lemma_split_step(r1, ':', c2 - (c1 + 1));
            }
            match find_in(v, &colon, c2 + 1, to) {
                Some(c3) => {
                    proof {
                        lemma_find_sub(r2, seq![':']);
                        let r3 = r2.skip(c3 - (c2 + 1) + 1);
                        lemma_split_step(r2, ':', c3 - (c2 + 1));
                        lemma_split_nonempty(r3, ':');
                    }
                    None
                },
                None => {
                    proof {
                        lemma_split_none(r2, ':');
                    }
                    assert(split_on(d, ':') =~= seq![
                        d.take(c1 - from),
                        r1.take(c2 - (c1 + 1)),
                        r2,
                    ]);
                    if name_ok && to - c2 == 2 && is_ascii_alpha_exec(v[c2 + 1]) {
                        Some((c1, c2))
                    } else {
                        None
                    }
                },
            }
        },
    }
}

/// Check the ADIF fields of `v[pos..e]`.
#[verifier::rlimit(40)]
fn adif_fields_exec(v: &[char], pos: usize, e: usize, seen: bool) -> (r: Result<(), Error>)
    requires
        pos <= e <= v@.len(),
    ensures
        r == adif_fields(v@.subrange(pos as int, e as int), seen),
    decreases e - pos,
{
    let ghost rest = v@.subrange(pos as int, e as int);
    let eor = ['<', 'E', 'O', 'R', '>'];
    proof {
        reveal_strlit("<EOR>");
    }
    assert(eor@ =~= "<EOR>"@);
    if seen && eq_ignore_case_range(v, pos, e, &eor) {
        return Ok(());
    }
    if pos == e || v[pos] != '<' {
        return Err(Error::InvalidAdif);
    }
    let ghost tail = rest.skip(1);
    assert(tail =~= v@.subrange(pos + 1, e as int));
    let gt = ['>'];
    assert(gt@ == seq!['>']);
    let g = match find_in(v, &gt, pos + 1, e) {
        None => {
            return Err(Error::InvalidAdif);
        },
        Some(g) => g,
    };
    proof {
        lemma_find_sub(tail, seq!['>']);
    }
    let ghost j = g - (pos + 1);
    assert(tail.take(j) =~= v@.subrange(pos + 1, g as int));
    let ghost after = tail.skip(j + 1);
    assert(after =~= v@.subrange(g + 1, e as int));
    let (_c1, c2) = match descriptor_parts(v, pos + 1, g) {
        None => {
            return Err(Error::InvalidAdif);
        },
        Some(p) => p,
    };
    let avail = e - (g + 1);
    let n = match parse_bounded_exec(v, _c1 + 1, c2, 10, avail as u64) {
        None => {
            return Err(Error::InvalidAdif);
        },
        Some(n) => n as usize,
    };
    let vstart = g + 1;
    let vend = vstart + n;
    assert(after.take(n as int) =~= v@.subrange(vstart as int, vend as int));
    if !text_ok_range(v, vstart, vend) {
        return Err(Error::InvalidText);
    }
    assert(after.skip(n as int) =~= v@.subrange(vend as int, e as int));
    let (a2, _b2) = trim_bounds(v, vend, e);
    adif_fields_exec(v, a2, e, true)
}

/// Check API text: printable ASCII without angle brackets.
pub(crate) fn validate_text(value: &str) -> (r: Result<(), Error>)
    ensures
        r == text_spec(value@),
{
    let v = chars_of(value);
    assert(v@.subrange(0, v@.len() as int) =~= v@);
    if text_ok_range(&v, 0, v.len()) {
        Ok(())
    } else {
        Err(Error::InvalidText)
    }
}

fn validate_adif_chars(v: &[char]) -> (r: Result<(), Error>)
    ensures
        r == adif_spec(v@),
{
    if !ascii_line_exec(v) {
        return Err(Error::InvalidAdif);
    }
    assert(v@.subrange(0, v@.len() as int) =~= v@);
    let (a, e) = trim_bounds(v, 0, v.len());
    adif_fields_exec(v, a, e, false)
}

/// The API embeds ADIF verbatim. Check lengths and exactly one record so values
/// cannot escape VALUE/CMD framing. This is transport validation, not QSO scoring.
pub(crate) fn validate_adif(record: &str) -> (r: Result<(), Error>)
    ensures
        r == adif_spec(record@),
{
    let v = chars_of(record);
    validate_adif_chars(&v)
}

/// Once a prefix of the parameters fails, so does every longer prefix (with the same error).
proof fn lemma_params_error_persists(kind: CommandKind, ps: Seq<ParameterView>, k: int)
    requires
        0 <= k <= ps.len(),
        params_spec(kind, ps.take(k)) is Err,
    ensures
        params_spec(kind, ps) == params_spec(kind, ps.take(k)),
    decreases ps.len() - k,
{
    if k == ps.len() {
        assert(ps.take(k) =~= ps);
    } else {
        assert(ps.take(k + 1).drop_last() =~= ps.take(k));
        lemma_params_error_persists(kind, ps, k + 1);
    }
}

proof fn lemma_upper_lit_value()
    ensures
        upper("VALUE"@) == "VALUE"@,
        upper("CONTROL"@) == "CONTROL"@,
{
    reveal_strlit("VALUE");
    reveal_strlit("CONTROL");
    assert(upper("VALUE"@) =~= "VALUE"@);
    assert(upper("CONTROL"@) =~= "CONTROL"@);
}

impl Command {
    /// A command of `kind` without parameters.
    pub fn new(kind: CommandKind) -> (r: Self)
        ensures
            r@ == (CommandView { kind, parameters: seq![] }),
    {
        let r = Command { kind, parameters: Vec::new() };
        assert(params_view(r.parameters@) =~= Seq::<ParameterView>::empty());
        r
    }

    /// The catalog kind of this command.
    pub fn kind(&self) -> (k: CommandKind)
        ensures
            k == self@.kind,
    {
        self.kind
    }

    /// The parameters, in order.
    pub fn parameters(&self) -> (r: &[Parameter])
        ensures
            params_view(r@) == self@.parameters,
    {
        self.parameters.as_slice()
    }

    /// Append a field; its name is ASCII upper-cased.
    pub fn field(self, name: &str, value: &str) -> (r: Self)
        ensures
            r@ == (CommandView {
                kind: self@.kind,
                parameters: self@.parameters.push(
                    ParameterView::Field { name: upper(name@), value: value@ },
                ),
            }),
    {
        let mut c = self;
        let ghost before = c.parameters@;
        let n = to_upper(name);
        let v = value.to_owned();
        c.parameters.push(Parameter::Field { name: n, value: v });
        assert(params_view(c.parameters@) =~= params_view(before).push(
            ParameterView::Field { name: upper(name@), value: value@ },
        ));
        c
    }

    /// Append a bare flag; its name is ASCII upper-cased.
    pub fn flag(self, name: &str) -> (r: Self)
        ensures
            r@ == (CommandView {
                kind: self@.kind,
                parameters: self@.parameters.push(ParameterView::Flag(upper(name@))),
            }),
    {
        let mut c = self;
        let ghost before = c.parameters@;
        let n = to_upper(name);
        c.parameters.push(Parameter::Flag(n));
        assert(params_view(c.parameters@) =~= params_view(before).push(
            ParameterView::Flag(upper(name@)),
        ));
        c
    }

    /// `ACTION` with the given value.
    pub fn action(action: Action) -> (r: Self)
        ensures
            r@ == (CommandView {
                kind: CommandKind::Action,
                parameters: seq![ParameterView::Field { name: "VALUE"@, value: action_name(action) }],
            }),
    {
        proof {
            lemma_upper_lit_value();
        }
        let r = Self::new(CommandKind::Action).field("VALUE", action.as_str());
        assert(r@.parameters =~= seq![
            ParameterView::Field { name: "VALUE"@, value: action_name(action) },
        ]);
        r
    }

    /// `UPDATE` of a logger control (its name upper-cased) to a value.
    pub fn update(control: &str, value: &str) -> (r: Self)
        ensures
            r@ == (CommandView {
                kind: CommandKind::Update,
                parameters: seq![
                    ParameterView::Field { name: "CONTROL"@, value: upper(control@) },
                    ParameterView::Field { name: "VALUE"@, value: value@ },
                ],
            }),
    {
        proof {
            lemma_upper_lit_value();
        }
        let c = to_upper(control);
        let r = Self::new(CommandKind::Update).field("CONTROL", c.as_str()).field("VALUE", value);
        assert(r@.parameters =~= seq![
            ParameterView::Field { name: "CONTROL"@, value: upper(control@) },
            ParameterView::Field { name: "VALUE"@, value: value@ },
        ]);
        r
    }

    /// `ADDADIFRECORD` of one verbatim ADIF record.
    pub fn add_adif(record: &str) -> (r: Self)
        ensures
            r@ == (CommandView {
                kind: CommandKind::AddAdifRecord,
                parameters: seq![ParameterView::Field { name: "VALUE"@, value: record@ }],
            }),
    {
        proof {
            lemma_upper_lit_value();
        }
        let r = Self::new(CommandKind::AddAdifRecord).field("VALUE", record);
        assert(r@.parameters =~= seq![ParameterView::Field { name: "VALUE"@, value: record@ }]);
        r
    }

    /// The value of the first field named `key`, ignoring ASCII case.
    pub fn value(&self, key: &str) -> (r: Option<&str>)
        ensures
            match r {
                Some(v) => lookup(self@.parameters, key@) == Some(v@),
                None => lookup(self@.parameters, key@) is None,
            },
    {
        let ghost ps = self@.parameters;
        let k = chars_of(key);
        let mut i: usize = 0;
        assert(ps.skip(0) =~= ps);
        while i < self.parameters.len()
            invariant
                i <= self.parameters@.len(),
                ps == params_view(self.parameters@),
                k@ == key@,
                lookup(ps, key@) == lookup(ps.skip(i as int), key@),
            decreases self.parameters@.len() - i,
        {
            assert(ps.skip(i as int)[0] == self.parameters@[i as int]@);
            assert(ps.skip(i as int).drop_first() =~= ps.skip(i + 1));
            match &self.parameters[i] {
                Parameter::Field { name, value } => {
                    let n = chars_of(name.as_str());
                    assert(n@.subrange(0, n@.len() as int) =~= n@);
                    if eq_ignore_case_range(&n, 0, n.len(), &k) {
                        return Some(value.as_str());
                    }
                },
                Parameter::Flag(_) => {},
            }
            i += 1;
        }
        None
    }

    /// Whether a logger with API `version` knows this command.
    pub fn supported_by(&self, version: Version) -> (b: bool)
        ensures
            b == version_le(kind_minimum(self@.kind), version),
    {
        version.at_least(&self.kind.spec().minimum_version)
    }

    /// Whether parameter `i` repeats the name `n` of an earlier parameter.
    fn repeats_name(&self, i: usize, n: &[char]) -> (b: bool)
        requires
            i <= self.parameters@.len(),
        ensures
            b == self@.parameters.take(i as int).map_values(|q: ParameterView| param_name(q)).contains(n@),
    {
        let ghost names = self@.parameters.take(i as int).map_values(|q: ParameterView| param_name(q));
        let mut j: usize = 0;
        while j < i
            invariant
                j <= i <= self.parameters@.len(),
                names == self@.parameters.take(i as int).map_values(|q: ParameterView| param_name(q)),
                forall|t: int| 0 <= t < j ==> names[t] != n@,
            decreases i - j,
        {
            let other = match &self.parameters[j] {
                Parameter::Field { name, .. } => name,
                Parameter::Flag(name) => name,
            };
            let o = chars_of(other.as_str());
            assert(o@.subrange(0, o@.len() as int) =~= o@);
            assert(names[j as int] == o@);
            if crate::text::range_eq(&o, 0, o.len(), n) {
                return true;
            }
            j += 1;
        }
        false
    }

    /// Append parameter `i`'s encoding to `body`.
    #[verifier::rlimit(40)]
    fn encode_param(&self, i: usize, body: &mut Vec<char>) -> (r: Result<(), Error>)
        requires
            i < self.parameters@.len(),
        ensures
            match param_text(
                self@.kind,
                self@.parameters.take(i as int),
                self@.parameters[i as int],
            ) {
                Ok(x) => r is Ok && final(body)@ == old(body)@ + x,
                Err(e) => r == Err::<(), Error>(e),
            },
    {
        let ghost before = body@;
        let p = &self.parameters[i];
        let name = match p {
            Parameter::Field { name, .. } => name,
            Parameter::Flag(n) => n,
        };
        let nv = chars_of(name.as_str());
        assert(nv@.subrange(0, nv@.len() as int) =~= nv@);
        assert(param_name(self@.parameters[i as int]) == nv@);
        if !name_range(&nv, 0, nv.len()) || eq_lit(&nv, 0, nv.len(), "CMD") || self.repeats_name(
            i,
            &nv,
        ) {
            return Err(Error::InvalidParameter);
        }
        match p {
            Parameter::Flag(_) => {
                if !eq_lit(&nv, 0, nv.len(), "INCLUDEALL") || !(self.kind == CommandKind::List
                    || self.kind == CommandKind::Search) {
                    return Err(Error::UnsupportedFlag);
                }
                body.push('<');
                vec_extend(body, &nv, 0, nv.len());
                body.push('>');
                assert(body@ =~= before + (seq!['<'] + nv@ + seq!['>']));
                Ok(())
            },
            Parameter::Field { value, .. } => {
                let vv = chars_of(value.as_str());
                assert(vv@.subrange(0, vv@.len() as int) =~= vv@);
                if self.kind == CommandKind::AddAdifRecord && eq_lit(&nv, 0, nv.len(), "VALUE") {
                    validate_adif_chars(&vv)?;
                } else if !text_ok_range(&vv, 0, vv.len()) {
                    return Err(Error::InvalidText);
                }
                body.push('<');
                vec_extend(body, &nv, 0, nv.len());
                body.push('>');
                vec_extend(body, &vv, 0, vv.len());
                body.push('<');
                body.push('/');
                vec_extend(body, &nv, 0, nv.len());
                body.push('>');
                assert(body@ =~= before + (seq!['<'] + nv@ + seq!['>'] + vv@ + seq!['<', '/'] + nv@
                    + seq!['>']));
                Ok(())
            },
        }
    }

    /// The command-level checks after the parameters.
    fn checks(&self) -> (r: Result<(), Error>)
        ensures
            r == checks_spec(self@),
    {
        let ghost ps = self@.parameters;
        let spec = self.kind.spec();
        let req = spec.required_fields;
        let mut k: usize = 0;
        while k < req.len()
            invariant
                k <= req@.len(),
                names_view(req@) == kind_required(self@.kind),
                ps == self@.parameters,
                forall|t: int| 0 <= t < k ==> lookup(ps, #[trigger] kind_required(self@.kind)[t]) is Some,
            decreases req@.len() - k,
        {
            assert(kind_required(self@.kind)[k as int] == req@[k as int]@);
            if self.value(req[k]).is_none() {
                return Err(Error::MissingRequiredField);
            }
            k += 1;
        }
        assert(!missing_required(kind_required(self@.kind), ps));
        if self.kind == CommandKind::Action {
            let known = match self.value("VALUE") {
                Some(v) => {
                    let vv = chars_of(v);
                    assert(vv@.subrange(0, vv@.len() as int) =~= vv@);
                    eq_lit(&vv, 0, vv.len(), "ENTER") || eq_lit(&vv, 0, vv.len(), "CLEAR")
                        || eq_lit(&vv, 0, vv.len(), "CALLTAB") || eq_lit(
                        &vv,
                        0,
                        vv.len(),
                        "DUPECHECK",
                    )
                },
                None => false,
            };
            if !known {
                return Err(Error::UnknownAction);
            }
        }
        if self.kind == CommandKind::QsoInProgress || self.kind == CommandKind::UpdateAndLog {
            let band_empty = match self.value("BAND") {
                Some(b) => b.is_empty(),
                None => true,
            };
            let freq_empty = match self.value("FREQ") {
                Some(f) => f.is_empty(),
                None => true,
            };
            if band_empty && freq_empty {
                return Err(Error::BandOrFreqRequired);
            }
        }
        if self.kind == CommandKind::Atno && self.value("COUNTRYWORKED").is_none() && self.value(
            "DXCC",
        ).is_none() {
            return Err(Error::CountryRequired);
        }
        Ok(())
    }

    /// The `CMD` record of this command, as ASCII bytes.
    pub fn encode(&self) -> (r: Result<Vec<u8>, Error>)
        ensures
            match encode_spec(self@) {
                Ok(b) => r is Ok && r->Ok_0@ == b,
                Err(e) => r == Err::<Vec<u8>, Error>(e),
            },
    {
        let ghost ps = self@.parameters;
        let spec = self.kind.spec();
        let mut body: Vec<char> = Vec::new();
        crate::network::message::push_lit(&mut body, "<CMD><");
        crate::network::message::push_lit(&mut body, spec.name);
        crate::network::message::push_lit(&mut body, ">");
        let ghost head = body@;
        let mut i: usize = 0;
        assert(ps.take(0) =~= Seq::<ParameterView>::empty());
        assert(head + Seq::<char>::empty() =~= head);
        while i < self.parameters.len()
            invariant
                i <= self.parameters@.len(),
                ps == self@.parameters,
                params_spec(self@.kind, ps.take(i as int)) is Ok,
                body@ == head + params_spec(self@.kind, ps.take(i as int))->Ok_0,
            decreases self.parameters@.len() - i,
        {
            assert(ps.take(i + 1).drop_last() =~= ps.take(i as int));
            assert(ps.take(i + 1).last() == ps[i as int]);
            match self.encode_param(i, &mut body) {
                Ok(()) => {
                    assert(head + params_spec(self@.kind, ps.take(i + 1))->Ok_0 =~= body@);
                },
                Err(e) => {
                    proof {
                        lemma_params_error_persists(self@.kind, ps, i + 1);
                    }
                    assert(ps.take(ps.len() as int) =~= ps);
                    return Err(e);
                },
            }
            i += 1;
        }
        assert(ps.take(ps.len() as int) =~= ps);
        self.checks()?;
        crate::network::message::push_lit(&mut body, "</CMD>\r\n");
        let mut out: Vec<u8> = Vec::new();
        let mut k: usize = 0;
        while k < body.len()
            invariant
                k <= body@.len(),
                out@ == ascii_bytes(body@.take(k as int)),
            decreases body@.len() - k,
        {
            out.push(body[k] as u8);
            assert(ascii_bytes(body@.take(k + 1)) =~= ascii_bytes(body@.take(k as int)).push(
                body@[k as int] as u8,
            ));
            k += 1;
        }
        assert(body@.take(body@.len() as int) =~= body@);
        assert(body@ =~= encode_text(self@)->Ok_0);
        Ok(out)
    }
}

} // verus!
