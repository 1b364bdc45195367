//! The scored logger entry: the command sequence that fills N3FJP's entry
//! form and presses ENTER.
use vstd::prelude::*;
use crate::api::catalog::CommandKind;
use crate::api::command::{
    action_name, encode_spec, lookup, Action, Command, CommandView, ParameterView,
};
use crate::error::Error;
use crate::network::message::{eq_lit, or_empty};
use crate::text::{chars_of, starts_with, string_of, trim, trim_bounds, upper, upper_vec};
use crate::wire::FieldView;

verus! {

/// A scored logger entry, using N3FJP's normal ENTER path.
/// Controls carry contest-specific exchanges; discover them via VISIBLEFIELDS.
#[derive(Clone, Debug)]
pub struct Entry {
    pub call: String,
    pub band: String,
    pub mode: String,
    /// MHz, as expected by N3FJP. None explicitly clears stale frequency data.
    pub frequency_mhz: Option<String>,
    pub controls: Vec<(String, String)>,
}

/// A command with one `VALUE` field.
pub open spec fn value_command(kind: CommandKind, value: Seq<char>) -> CommandView {
    CommandView { kind, parameters: seq![ParameterView::Field { name: "VALUE"@, value }] }
}

/// `ACTION` with the given value.
pub open spec fn action_command(a: Action) -> CommandView {
    value_command(CommandKind::Action, action_name(a))
}

/// `UPDATE` of a control (upper-cased) to a value.
pub open spec fn update_command(control: Seq<char>, value: Seq<char>) -> CommandView {
    CommandView {
        kind: CommandKind::Update,
        parameters: seq![
            ParameterView::Field { name: "CONTROL"@, value: upper(control) },
            ParameterView::Field { name: "VALUE"@, value },
        ],
    }
}

/// The controls that the entry sets itself.
pub open spec fn reserved_control(c: Seq<char>) -> bool {
    c == "TXTENTRYCALL"@ || c == "TXTENTRYBAND"@ || c == "TXTENTRYMODE"@ || c
        == "TXTENTRYFREQUENCY"@
}

/// The `UPDATE` commands of the contest controls, in order: each control name
/// is upper-cased and must be a `TXTENTRY` control that is neither reserved
/// nor repeated.
pub open spec fn controls_spec(cs: Seq<FieldView>) -> Result<Seq<CommandView>, Error>
    decreases cs.len(),
{
    if cs.len() == 0 {
        Ok(seq![])
    } else {
        match controls_spec(cs.drop_last()) {
            Err(e) => Err(e),
            Ok(ups) => {
                let control = upper(cs.last().0);
                if !starts_with(control, "TXTENTRY"@) || reserved_control(control) || cs.drop_last().map_values(
                    |f: FieldView| upper(f.0),
                ).contains(control) {
                    Err(Error::InvalidControl)
                } else {
                    Ok(ups.push(update_command(control, cs.last().1)))
                }
            },
        }
    }
}

/// The first encoding error of a command list.
pub open spec fn first_encode_error(cs: Seq<CommandView>) -> Option<Error>
    decreases cs.len(),
{
    if cs.len() == 0 {
        None
    } else {
        match encode_spec(cs[0]) {
            Err(e) => Some(e),
            Ok(_) => first_encode_error(cs.drop_first()),
        }
    }
}

/// An entry, with texts as character sequences.
pub ghost struct EntryView {
    pub call: Seq<char>,
    pub band: Seq<char>,
    pub mode: Seq<char>,
    pub frequency_mhz: Option<Seq<char>>,
    pub controls: Seq<FieldView>,
}

impl View for Entry {
    type V = EntryView;

    open spec fn view(&self) -> EntryView {
        EntryView {
            call: self.call@,
            band: self.band@,
            mode: self.mode@,
            frequency_mhz: match self.frequency_mhz {
                Some(f) => Some(f@),
                None => None,
            },
            controls: crate::wire::fields_view(self.controls@),
        }
    }
}

/// The full command list of an entry, given its control commands.
pub open spec fn entry_spec_commands(e: EntryView, ups: Seq<CommandView>) -> Seq<CommandView> {
    seq![
        value_command(CommandKind::IgnoreRigPolls, "TRUE"@),
        action_command(Action::Clear),
        update_command("TXTENTRYCALL"@, e.call),
        action_command(Action::CallTab),
    ] + ups + seq![
        CommandView {
            kind: CommandKind::ChangeBm,
            parameters: seq![
                ParameterView::Field { name: "BAND"@, value: e.band },
                ParameterView::Field { name: "MODE"@, value: e.mode },
            ],
        },
        update_command("TXTENTRYFREQUENCY"@, or_empty(e.frequency_mhz)),
        action_command(Action::Enter),
        value_command(CommandKind::IgnoreRigPolls, "FALSE"@),
    ]
}

/// The command sequence of an entry: suspend rig polling, clear the form, set
/// the call and tab out, set the controls, band/mode and frequency, press
/// ENTER, and resume rig polling. `frequency_valid` tells whether the
/// frequency, when present, reads as a finite positive number of MHz.
pub open spec fn entry_spec(e: EntryView, frequency_valid: bool) -> Result<Seq<CommandView>, Error> {
    if trim(e.call).len() == 0 || trim(e.band).len() == 0 || trim(e.mode).len() == 0 {
        Err(Error::IncompleteEntry)
    } else if e.frequency_mhz is Some && !frequency_valid {
        Err(Error::InvalidFrequency)
    } else {
        match controls_spec(e.controls) {
            Err(x) => Err(x),
            Ok(ups) => {
                let cmds = entry_spec_commands(e, ups);
                match first_encode_error(cmds) {
                    Some(x) => Err(x),
                    None => Ok(cmds),
                }
            },
        }
    }
}

/// The views of a list of commands.
pub open spec fn commands_view(cs: Seq<Command>) -> Seq<CommandView> {
    cs.map_values(|c: Command| c@)
}

proof fn lemma_upper_lits()
    ensures
        upper("VALUE"@) == "VALUE"@,
        upper("BAND"@) == "BAND"@,
        upper("MODE"@) == "MODE"@,
        upper("TXTENTRYCALL"@) == "TXTENTRYCALL"@,
        upper("TXTENTRYFREQUENCY"@) == "TXTENTRYFREQUENCY"@,
{
    reveal_strlit("VALUE");
    reveal_strlit("BAND");
    reveal_strlit("MODE");
    reveal_strlit("TXTENTRYCALL");
    reveal_strlit("TXTENTRYFREQUENCY");
    assert(upper("VALUE"@) =~= "VALUE"@);
    assert(upper("BAND"@) =~= "BAND"@);
    assert(upper("MODE"@) =~= "MODE"@);
    assert(upper("TXTENTRYCALL"@) =~= "TXTENTRYCALL"@);
    assert(upper("TXTENTRYFREQUENCY"@) =~= "TXTENTRYFREQUENCY"@);
}

/// Upper-casing is idempotent.
proof fn lemma_upper_idempotent(s: Seq<char>)
    ensures
        upper(upper(s)) == upper(s),
{
    assert(upper(upper(s)) =~= upper(s));
}

/// Whether a text is empty once trimmed.
fn blank(s: &str) -> (b: bool)
    ensures
        b == (trim(s@).len() == 0),
{
    let v = chars_of(s);
    assert(v@.subrange(0, v@.len() as int) =~= v@);
    let (a, e) = trim_bounds(&v, 0, v.len());
    a == e
}

impl Entry {
    /// The contest-control `UPDATE`s, checked.
    fn control_commands(&self) -> (r: Result<Vec<Command>, Error>)
        ensures
            match controls_spec(self@.controls) {
                Ok(ups) => r is Ok && commands_view(r->Ok_0@) == ups,
                Err(e) => r == Err::<Vec<Command>, Error>(e),
            },
    {
        let ghost cs = self@.controls;
        let mut out: Vec<Command> = Vec::new();
        let mut seen: Vec<Vec<char>> = Vec::new();
        let mut i: usize = 0;
        assert(cs.take(0) =~= Seq::<FieldView>::empty());
        assert(commands_view(out@) =~= Seq::<CommandView>::empty());
        while i < self.controls.len()
            invariant
                i <= self.controls@.len(),
                cs == self@.controls,
                cs.len() == self.controls@.len(),
                controls_spec(cs.take(i as int)) is Ok,
                commands_view(out@) == controls_spec(cs.take(i as int))->Ok_0,
                seen@.len() == i,
                forall|t: int| 0 <= t < i ==> #[trigger] seen@[t]@ == upper(cs[t].0),
            decreases self.controls@.len() - i,
        {
            let ghost prefix = cs.take(i as int);
            assert(cs.take(i + 1).drop_last() =~= prefix);
            assert(cs.take(i + 1).last() == cs[i as int]);
            assert(cs[i as int] == (self.controls@[i as int].0@, self.controls@[i as int].1@));
            let raw = chars_of(self.controls[i].0.as_str());
            let control = upper_vec(&raw);
            let n = control.len();
            assert(control@.subrange(0, n as int) =~= control@);
            let reserved = eq_lit(&control, 0, n, "TXTENTRYCALL") || eq_lit(
                &control,
                0,
                n,
                "TXTENTRYBAND",
            ) || eq_lit(&control, 0, n, "TXTENTRYMODE") || eq_lit(
                &control,
                0,
                n,
                "TXTENTRYFREQUENCY",
            );
            let mut repeated = false;
            let mut j: usize = 0;
            let ghost names = prefix.map_values(|f: FieldView| upper(f.0));
            while j < i
                invariant
                    j <= i,
                    seen@.len() == i,
                    i < cs.len(),
                    names == cs.take(i as int).map_values(|f: FieldView| upper(f.0)),
                    forall|t: int| 0 <= t < i ==> #[trigger] seen@[t]@ == upper(cs[t].0),
                    repeated ==> names.contains(control@),
                    !repeated ==> forall|t: int| 0 <= t < j ==> names[t] != control@,
                decreases i - j,
            {
                let s = &seen[j];
                assert(names[j as int] == seen@[j as int]@);
                assert(s@.subrange(0, s@.len() as int) =~= s@);
                if crate::text::range_eq(s, 0, s.len(), &control) {
                    repeated = true;
                }
                j += 1;
            }
            if !crate::network::message::starts_lit(&control, 0, n, "TXTENTRY") || reserved
                || repeated {
                proof {
                    lemma_controls_error_persists(cs, i + 1);
                }
                assert(cs.take(cs.len() as int) =~= cs);
                return Err(Error::InvalidControl);
            }
            let cstr = string_of(&control, 0, n);
            let cmd = Command::update(cstr.as_str(), self.controls[i].1.as_str());
            let ghost before = out@;
            out.push(cmd);
            seen.push(control);
            assert(commands_view(out@) =~= commands_view(before).push(cmd@));
            proof {
                lemma_upper_idempotent(cs[i as int].0);
            }
            i += 1;
        }
        assert(cs.take(cs.len() as int) =~= cs);
        Ok(out)
    }

    /// Validate the complete sequence before any network mutation.
    /// `frequency_valid` tells whether `frequency_mhz`, when present, reads as a
    /// finite positive number of MHz.
    pub fn commands(&self, frequency_valid: bool) -> (r: Result<Vec<Command>, Error>)
        ensures
            match entry_spec(self@, frequency_valid) {
                Ok(cs) => r is Ok && commands_view(r->Ok_0@) == cs,
                Err(e) => r == Err::<Vec<Command>, Error>(e),
            },
    {
        proof {
            lemma_upper_lits();
        }
        if blank(self.call.as_str()) || blank(self.band.as_str()) || blank(self.mode.as_str()) {
            return Err(Error::IncompleteEntry);
        }
        if self.frequency_mhz.is_some() && !frequency_valid {
            return Err(Error::InvalidFrequency);
        }
        let mut ups = self.control_commands()?;
        let ghost ups_v = commands_view(ups@);
        let c0 = Command::new(CommandKind::IgnoreRigPolls).field("VALUE", "TRUE");
        assert(c0@.parameters =~= value_command(CommandKind::IgnoreRigPolls, "TRUE"@).parameters);
        let c1 = Command::action(Action::Clear);
        let c2 = Command::update("TXTENTRYCALL", self.call.as_str());
        let c3 = Command::action(Action::CallTab);
        let freq = match &self.frequency_mhz {
            Some(f) => f.as_str(),
            None => "",
        };
        proof {
            reveal_strlit("");
        }
        assert(freq@ == or_empty(self@.frequency_mhz));
        let c4 = Command::new(CommandKind::ChangeBm).field("BAND", self.band.as_str()).field(
            "MODE",
            self.mode.as_str(),
        );
        assert(c4@.parameters =~= seq![
            ParameterView::Field { name: "BAND"@, value: self@.band },
            ParameterView::Field { name: "MODE"@, value: self@.mode },
        ]);
        let c5 = Command::update("TXTENTRYFREQUENCY", freq);
        let c6 = Command::action(Action::Enter);
        let c7 = Command::new(CommandKind::IgnoreRigPolls).field("VALUE", "FALSE");
        assert(c7@.parameters =~= value_command(CommandKind::IgnoreRigPolls, "FALSE"@).parameters);
        let mut commands: Vec<Command> = Vec::new();
        commands.push(c0);
        commands.push(c1);
        commands.push(c2);
        commands.push(c3);
        commands.append(&mut ups);
        commands.push(c4);
        commands.push(c5);
        commands.push(c6);
        commands.push(c7);
        let ghost cmds = commands_view(commands@);
        assert(cmds =~= entry_spec_commands(self@, ups_v));
        let mut m: usize = 0;
        assert(cmds.skip(0) =~= cmds);
        while m < commands.len()
            invariant
                m <= commands@.len(),
                cmds == commands_view(commands@),
                first_encode_error(cmds) == first_encode_error(cmds.skip(m as int)),
                entry_spec(self@, frequency_valid) == (match first_encode_error(cmds) {
                    Some(x) => Err(x),
                    None => Ok(cmds),
                }),
            decreases commands@.len() - m,
        {
            assert(cmds.skip(m as int)[0] == commands@[m as int]@);
            assert(cmds.skip(m as int).drop_first() =~= cmds.skip(m + 1));
            match commands[m].encode() {
                Err(e) => {
                    return Err(e);
                },
                Ok(_) => {},
            }
            m += 1;
        }
        Ok(commands)
    }
}

/// Once a prefix of the controls fails, so does every longer prefix.
proof fn lemma_controls_error_persists(cs: Seq<FieldView>, k: int)
    requires
        0 <= k <= cs.len(),
        controls_spec(cs.take(k)) is Err,
    ensures
        controls_spec(cs) == controls_spec(cs.take(k)),
    decreases cs.len() - k,
{
    if k == cs.len() {
        assert(cs.take(k) =~= cs);
    } else {
        assert(cs.take(k + 1).drop_last() =~= cs.take(k));
        lemma_controls_error_persists(cs, k + 1);
    }
}

/// Every command that the contest controls give is an `UPDATE`.
proof fn lemma_controls_are_updates(cs: Seq<FieldView>)
    requires
        controls_spec(cs) is Ok,
    ensures
        forall|i: int|
            0 <= i < controls_spec(cs)->Ok_0.len() ==> (#[trigger] controls_spec(cs)->Ok_0[i]).kind
                == CommandKind::Update,
    decreases cs.len(),
{
    if cs.len() > 0 {
        lemma_controls_are_updates(cs.drop_last());
    }
}

/// An entry sets the logger's band and mode from its own band and mode: the
/// command list of an accepted entry holds a `CHANGEBM`, and each `CHANGEBM`
/// in it gives `BAND` as the entry's band and `MODE` as its mode. The call is
/// set through the `TXTENTRYCALL` control and the frequency (empty when
/// there is none) through `TXTENTRYFREQUENCY`; the list starts by suspending rig
/// polling and ends by pressing ENTER and resuming it.
pub proof fn lemma_entry_band_mode_call(e: EntryView, frequency_valid: bool)
    requires
        entry_spec(e, frequency_valid) is Ok,
    ensures
        ({
            let cs = entry_spec(e, frequency_valid)->Ok_0;
            &&& exists|i: int| 0 <= i < cs.len() && (#[trigger] cs[i]).kind == CommandKind::ChangeBm
            &&& forall|i: int|
                0 <= i < cs.len() && (#[trigger] cs[i]).kind == CommandKind::ChangeBm ==> lookup(
                    cs[i].parameters,
                    "BAND"@,
                ) == Some(e.band) && lookup(cs[i].parameters, "MODE"@) == Some(e.mode)
            &&& exists|i: int|
                0 <= i < cs.len() && (#[trigger] cs[i]).kind == CommandKind::Update && lookup(
                    cs[i].parameters,
                    "CONTROL"@,
                ) == Some("TXTENTRYCALL"@) && lookup(cs[i].parameters, "VALUE"@) == Some(e.call)
            &&& exists|i: int|
                0 <= i < cs.len() && (#[trigger] cs[i]).kind == CommandKind::Update && lookup(
                    cs[i].parameters,
                    "CONTROL"@,
                ) == Some("TXTENTRYFREQUENCY"@) && lookup(cs[i].parameters, "VALUE"@) == Some(
                    or_empty(e.frequency_mhz),
                )
            &&& cs.len() >= 3
            &&& cs[0].kind == CommandKind::IgnoreRigPolls && lookup(cs[0].parameters, "VALUE"@) == Some("TRUE"@)
            &&& cs[cs.len() - 2].kind == CommandKind::Action && lookup(cs[cs.len() - 2].parameters, "VALUE"@)
                == Some("ENTER"@)
            &&& cs.last().kind == CommandKind::IgnoreRigPolls && lookup(cs.last().parameters, "VALUE"@)
                == Some("FALSE"@)
        }),
{
    lemma_upper_lits();
    reveal_strlit("BAND");
    reveal_strlit("MODE");
    reveal_strlit("VALUE");
    reveal_strlit("CONTROL");
    let ups = controls_spec(e.controls)->Ok_0;
    lemma_controls_are_updates(e.controls);
    let cs = entry_spec_commands(e, ups);
    assert(entry_spec(e, frequency_valid)->Ok_0 == cs);
    let k: int = 4 + ups.len() as int;
    assert(cs[k].kind == CommandKind::ChangeBm);
    assert(upper("BAND"@) != upper("MODE"@)) by {
        assert(upper("BAND"@)[0] != upper("MODE"@)[0]);
    }
    assert forall|i: int| 0 <= i < cs.len() && (#[trigger] cs[i]).kind == CommandKind::ChangeBm implies i == k by {
        if 4 <= i < k {
            assert(cs[i] == ups[i - 4]);
        }
    }
    let p = cs[k].parameters;
    assert(p.drop_first()[0] == p[1]);
    assert(lookup(p, "BAND"@) == Some(e.band));
    assert(lookup(p.drop_first(), "MODE"@) == Some(e.mode));
    assert(lookup(p, "MODE"@) == Some(e.mode));
    assert(cs[2].kind == CommandKind::Update);
    assert(upper("CONTROL"@) != upper("VALUE"@)) by {
        assert(upper("CONTROL"@)[0] != upper("VALUE"@)[0]);
    }
    let q = cs[2].parameters;
    assert(q.drop_first()[0] == q[1]);
    assert(lookup(q, "CONTROL"@) == Some(upper("TXTENTRYCALL"@)));
    assert(lookup(q.drop_first(), "VALUE"@) == Some(e.call));
    assert(lookup(q, "VALUE"@) == Some(e.call));
    let f = cs[k + 1].parameters;
    assert(f.drop_first()[0] == f[1]);
    assert(lookup(f, "CONTROL"@) == Some(upper("TXTENTRYFREQUENCY"@)));
    assert(lookup(f.drop_first(), "VALUE"@) == Some(or_empty(e.frequency_mhz)));
    assert(lookup(f, "VALUE"@) == Some(or_empty(e.frequency_mhz)));
    assert(cs[k + 1].kind == CommandKind::Update);
}

} // verus!
