//! The decisions of the streaming SSTV receivers: where the next VIS header
//! is looked for, which detected header starts a transmission, when an
//! unresolved automatic lock is dropped, when a complete transmission is
//! decoded, and how much buffered audio is kept while searching. Tone
//! detection and image decoding, on floating-point audio, are the caller's.
use vstd::prelude::*;
use super::sstv::{vis_mode, vis_mode_spec, VisMode, VIS_CODE_MARTIN_M1};

verus! {

/// What the multi-mode receiver knows of its buffered audio, in samples.
#[derive(Debug, Clone, Copy, PartialEq, Eq, Structural)]
pub struct ReceiverState {
    /// Where the accepted transmission starts in the buffer.
    pub transmission_start: Option<usize>,
    /// The mode of the accepted transmission.
    pub active_mode: Option<VisMode>,
    /// The only mode that is accepted, when one is selected.
    pub selected_mode: Option<VisMode>,
    /// Whether the caller scans for the tuning offset itself.
    pub auto_target: bool,
    /// Where the next header window starts.
    pub search_from: usize,
    /// How many samples are buffered.
    pub buffered: usize,
    /// The last VIS code detected since the last reset or dropped lock.
    pub last_vis: Option<u8>,
    /// Samples received since an automatic lock found a VIS code that
    /// resolved to no accepted mode.
    pub unresolved_auto_samples: Option<usize>,
    /// Whether an unresolved automatic lock was dropped and not yet reported.
    pub auto_reacquired: bool,
}

/// What the caller does next with its buffer.
#[derive(Debug, Clone, Copy, PartialEq, Eq, Structural)]
pub enum ReceiverAction {
    /// Nothing until more audio arrives.
    Wait,
    /// Decode samples `start..end` in `mode`, then clear the buffer.
    Decode { mode: VisMode, start: usize, end: usize },
    /// Drop this many samples from the front of the buffer.
    Trim(usize),
}

/// The state after a reset: nothing buffered or detected; the selected mode
/// and the automatic targeting stay.
pub open spec fn reset_spec(s: ReceiverState) -> ReceiverState {
    ReceiverState {
        transmission_start: None,
        active_mode: None,
        selected_mode: s.selected_mode,
        auto_target: s.auto_target,
        search_from: 0,
        buffered: 0,
        last_vis: None,
        unresolved_auto_samples: None,
        auto_reacquired: false,
    }
}

/// The state after `pushed` samples arrive: they are buffered, and an
/// unresolved automatic lock counts them (saturating).
pub open spec fn push_spec(s: ReceiverState, pushed: nat) -> ReceiverState {
    ReceiverState {
        buffered: (s.buffered + pushed) as usize,
        unresolved_auto_samples: match s.unresolved_auto_samples {
            Some(n) => Some(if n + pushed > usize::MAX { usize::MAX } else { (n + pushed) as usize }),
            None => None,
        },
        ..s
    }
}

/// Where the next header window starts, while no transmission is accepted
/// and a whole window of `header` samples is buffered there.
pub open spec fn scan_at_spec(s: ReceiverState, header: nat) -> Option<usize> {
    if s.transmission_start is None && s.search_from + header <= s.buffered {
        Some(s.search_from)
    } else {
        None
    }
}

/// Whether a detected VIS code starts a transmission: it names a mode that
/// the codec decodes, and no other mode is selected.
pub open spec fn accepts(s: ReceiverState, vis: u8) -> bool {
    match vis_mode_spec(vis) {
        Some(m) => s.selected_mode is None || s.selected_mode == Some(m),
        None => false,
    }
}

/// The state after the header window at `search_from` was examined: no
/// header moves the window on by `step`; an accepted header starts the
/// transmission there; any other header is passed over whole, and under
/// automatic targeting starts the count of an unresolved lock.
pub open spec fn header_step_spec(s: ReceiverState, detected: Option<u8>, header: nat, step: nat) -> ReceiverState {
    match detected {
        None => ReceiverState { search_from: (s.search_from + step) as usize, ..s },
        Some(vis) => if accepts(s, vis) {
            ReceiverState {
                last_vis: Some(vis),
                transmission_start: Some(s.search_from),
                active_mode: vis_mode_spec(vis),
                unresolved_auto_samples: None,
                ..s
            }
        } else {
            ReceiverState {
                last_vis: Some(vis),
                unresolved_auto_samples: if s.auto_target && s.unresolved_auto_samples is None {
                    Some(0)
                } else {
                    s.unresolved_auto_samples
                },
                search_from: (s.search_from + header) as usize,
                ..s
            }
        },
    }
}

/// Whether an unresolved automatic lock has reached the timeout.
pub open spec fn timed_out(s: ReceiverState, timeout: nat) -> bool {
    match s.unresolved_auto_samples {
        Some(n) => n >= timeout,
        None => false,
    }
}

/// The state after the timeout check: a timed-out lock is dropped (its VIS
/// code forgotten) and reported.
pub open spec fn drop_spec(s: ReceiverState, timeout: nat) -> ReceiverState {
    if timed_out(s, timeout) {
        ReceiverState { last_vis: None, unresolved_auto_samples: None, auto_reacquired: true, ..s }
    } else {
        s
    }
}

/// After scanning: the timeout check; then an accepted transmission whose
/// `mode_samples` and `guard` samples are all buffered is decoded and the
/// state reset; while none is accepted, the buffer is trimmed to its last
/// `keep` samples and the search position moves back by as many (not below
/// 0). The flag tells whether a lock was dropped.
pub open spec fn settle_spec(s: ReceiverState, mode_samples: nat, guard: nat, keep: nat, timeout: nat) -> (
    ReceiverState,
    ReceiverAction,
    bool,
) {
    let d = drop_spec(s, timeout);
    let dropped = timed_out(s, timeout);
    match (d.transmission_start, d.active_mode) {
        (Some(start), Some(mode)) => if d.buffered >= start + mode_samples + guard {
            (
                reset_spec(d),
                ReceiverAction::Decode { mode, start, end: (start + mode_samples + guard) as usize },
                dropped,
            )
        } else {
            (d, ReceiverAction::Wait, dropped)
        },
        _ => if d.buffered > keep {
            let drain = d.buffered - keep;
            (
                ReceiverState {
                    buffered: keep as usize,
                    search_from: if d.search_from >= drain { (d.search_from - drain) as usize } else { 0 },
                    ..d
                },
                ReceiverAction::Trim(drain as usize),
                dropped,
            )
        } else {
            (d, ReceiverAction::Wait, dropped)
        },
    }
}

impl ReceiverState {
    /// A receiver with nothing buffered, no selected mode and no automatic targeting.
    pub fn new() -> (r: Self)
        ensures
            r == reset_spec(r),
            r.selected_mode is None,
            !r.auto_target,
    {
        ReceiverState {
            transmission_start: None,
            active_mode: None,
            selected_mode: None,
            auto_target: false,
            search_from: 0,
            buffered: 0,
            last_vis: None,
            unresolved_auto_samples: None,
            auto_reacquired: false,
        }
    }

    /// Forgets the buffer and every detection.
    pub fn reset(&mut self)
        ensures
            *final(self) == reset_spec(*old(self)),
    {
        self.transmission_start = None;
        self.active_mode = None;
        self.search_from = 0;
        self.buffered = 0;
        self.last_vis = None;
        self.unresolved_auto_samples = None;
        self.auto_reacquired = false;
    }

    /// Selects the only accepted mode (or none); a change resets the receiver.
    pub fn set_selected_mode(&mut self, mode: Option<VisMode>)
        ensures
            *final(self) == if old(self).selected_mode == mode {
                *old(self)
            } else {
                (ReceiverState { selected_mode: mode, ..reset_spec(*old(self)) })
            },
    {
        if self.selected_mode != mode {
            self.reset();
            self.selected_mode = mode;
        }
    }

    /// Turns automatic targeting on or off; a change resets the receiver.
    pub fn set_auto_target(&mut self, enabled: bool)
        ensures
            *final(self) == if old(self).auto_target == enabled {
                *old(self)
            } else {
                (ReceiverState { auto_target: enabled, ..reset_spec(*old(self)) })
            },
    {
        if self.auto_target != enabled {
            self.reset();
            self.auto_target = enabled;
        }
    }

    /// Reports whether an unresolved lock was dropped, once.
    pub fn take_auto_reacquired(&mut self) -> (r: bool)
        ensures
            r == old(self).auto_reacquired,
            *final(self) == (ReceiverState { auto_reacquired: false, ..*old(self) }),
    {
        let r = self.auto_reacquired;
        self.auto_reacquired = false;
        r
    }
}

/// Counts `pushed` newly buffered samples.
pub fn receiver_push(s: &ReceiverState, pushed: usize) -> (r: ReceiverState)
    requires
        s.buffered + pushed <= usize::MAX,
    ensures
        r == push_spec(*s, pushed as nat),
{
    ReceiverState {
        buffered: s.buffered + pushed,
        unresolved_auto_samples: match s.unresolved_auto_samples {
            Some(n) => Some(n.saturating_add(pushed)),
            None => None,
        },
        ..*s
    }
}

/// Where the next header window of `header` samples starts, if one is to be
/// examined now.
pub fn receiver_scan_at(s: &ReceiverState, header: usize) -> (r: Option<usize>)
    ensures
        r == scan_at_spec(*s, header as nat),
{
    if s.transmission_start.is_none() && s.search_from <= s.buffered && header <= s.buffered
        - s.search_from {
        Some(s.search_from)
    } else {
        None
    }
}

/// Takes in what tone detection found in the window at `search_from`.
pub fn receiver_header(s: &ReceiverState, detected: Option<u8>, header: usize, step: usize) -> (r:
    ReceiverState)
    requires
        s.search_from + header <= usize::MAX,
        s.search_from + step <= usize::MAX,
    ensures
        r == header_step_spec(*s, detected, header as nat, step as nat),
{
    match detected {
        None => ReceiverState { search_from: s.search_from + step, ..*s },
        Some(vis) => {
            let mode = vis_mode(vis);
            let accepted = match mode {
                Some(m) => match s.selected_mode {
                    None => true,
                    Some(sel) => sel == m,
                },
                None => false,
            };
            if accepted {
                ReceiverState {
                    last_vis: Some(vis),
                    transmission_start: Some(s.search_from),
                    active_mode: mode,
                    unresolved_auto_samples: None,
                    ..*s
                }
            } else {
                ReceiverState {
                    last_vis: Some(vis),
                    unresolved_auto_samples: if s.auto_target && s.unresolved_auto_samples.is_none() {
                        Some(0)
                    } else {
                        s.unresolved_auto_samples
                    },
                    search_from: s.search_from + header,
                    ..*s
                }
            }
        },
    }
}

/// Decides what follows a scan: the lock timeout, then decode, trim or wait.
/// `mode_samples` is the length of the active mode's transmission.
pub fn receiver_settle(s: &ReceiverState, mode_samples: usize, guard: usize, keep: usize, timeout: usize) -> (r: (
    ReceiverState,
    ReceiverAction,
    bool,
))
    ensures
        r == settle_spec(*s, mode_samples as nat, guard as nat, keep as nat, timeout as nat),
{
    let dropped = match s.unresolved_auto_samples {
        Some(n) => n >= timeout,
        None => false,
    };
    let d = if dropped {
        ReceiverState { last_vis: None, unresolved_auto_samples: None, auto_reacquired: true, ..*s }
    } else {
        *s
    };
    match (d.transmission_start, d.active_mode) {
        (Some(start), Some(mode)) => {
            let end = match start.checked_add(mode_samples) {
                Some(a) => a.checked_add(guard),
                None => None,
            };
            match end {
                Some(end) => {
                    if d.buffered >= end {
                        let mut r = d;
                        r.reset();
                        (r, ReceiverAction::Decode { mode, start, end }, dropped)
                    } else {
                        (d, ReceiverAction::Wait, dropped)
                    }
                },
                None => (d, ReceiverAction::Wait, dropped),
            }
        },
        _ => {
            if d.buffered > keep {
                let drain = d.buffered - keep;
                (
                    ReceiverState { buffered: keep, search_from: d.search_from.saturating_sub(drain), ..d },
                    ReceiverAction::Trim(drain),
                    dropped,
                )
            } else {
                (d, ReceiverAction::Wait, dropped)
            }
        },
    }
}

/// What the Martin M1 receiver knows of its buffered audio, in samples.
#[derive(Debug, Clone, Copy, PartialEq, Eq, Structural)]
pub struct MartinState {
    /// Where the image after an accepted header starts in the buffer.
    pub image_start: Option<usize>,
    /// Where the next header window starts.
    pub search_from: usize,
    /// How many samples are buffered.
    pub buffered: usize,
    /// The last VIS code detected since the last reset.
    pub last_vis: Option<u8>,
}

/// The Martin M1 receiver with nothing buffered or detected.
pub open spec fn martin_reset_spec() -> MartinState {
    MartinState { image_start: None, search_from: 0, buffered: 0, last_vis: None }
}

/// Where the next Martin M1 header window starts, while no image is
/// accepted and a whole window is buffered there.
pub open spec fn martin_scan_at_spec(s: MartinState, header: nat) -> Option<usize> {
    if s.image_start is None && s.search_from + header <= s.buffered {
        Some(s.search_from)
    } else {
        None
    }
}

/// The Martin M1 receiver after the window at `search_from` was examined:
/// no header moves it on by `step`; a Martin M1 header starts the image
/// right after the header; another header is passed over whole.
pub open spec fn martin_header_spec(s: MartinState, detected: Option<u8>, header: nat, step: nat) -> MartinState {
    match detected {
        None => MartinState { search_from: (s.search_from + step) as usize, ..s },
        Some(vis) => if vis == VIS_CODE_MARTIN_M1 {
            MartinState { last_vis: Some(vis), image_start: Some((s.search_from + header) as usize), ..s }
        } else {
            MartinState { last_vis: Some(vis), search_from: (s.search_from + header) as usize, ..s }
        },
    }
}

/// After scanning: an image whose `image_samples` are all buffered is
/// decoded and the receiver reset; while no header is accepted, the buffer
/// is trimmed to its last `keep` samples and the search position moves back
/// by as many (not below 0).
pub open spec fn martin_settle_spec(s: MartinState, image_samples: nat, keep: nat) -> (MartinState, ReceiverAction) {
    match s.image_start {
        Some(start) => if s.buffered >= start + image_samples {
            (
                martin_reset_spec(),
                ReceiverAction::Decode { mode: VisMode::MartinM1, start, end: (start + image_samples) as usize },
            )
        } else {
            (s, ReceiverAction::Wait)
        },
        None => if s.buffered > keep {
            let drain = s.buffered - keep;
            (
                MartinState {
                    buffered: keep as usize,
                    search_from: if s.search_from >= drain { (s.search_from - drain) as usize } else { 0 },
                    ..s
                },
                ReceiverAction::Trim(drain as usize),
            )
        } else {
            (s, ReceiverAction::Wait)
        },
    }
}

impl MartinState {
    /// A Martin M1 receiver with nothing buffered or detected.
    pub fn new() -> (r: Self)
        ensures
            r == martin_reset_spec(),
    {
        MartinState { image_start: None, search_from: 0, buffered: 0, last_vis: None }
    }
}

/// Counts `pushed` newly buffered samples.
pub fn martin_push(s: &MartinState, pushed: usize) -> (r: MartinState)
    requires
        s.buffered + pushed <= usize::MAX,
    ensures
        r == (MartinState { buffered: (s.buffered + pushed) as usize, ..*s }),
{
    MartinState { buffered: s.buffered + pushed, ..*s }
}

/// Where the next Martin M1 header window of `header` samples starts, if one
/// is to be examined now.
pub fn martin_scan_at(s: &MartinState, header: usize) -> (r: Option<usize>)
    ensures
        r == martin_scan_at_spec(*s, header as nat),
{
    if s.image_start.is_none() && s.search_from <= s.buffered && header <= s.buffered - s.search_from {
        Some(s.search_from)
    } else {
        None
    }
}

/// Takes in what tone detection found in the Martin M1 window at `search_from`.
pub fn martin_header(s: &MartinState, detected: Option<u8>, header: usize, step: usize) -> (r: MartinState)
    requires
        s.search_from + header <= usize::MAX,
        s.search_from + step <= usize::MAX,
    ensures
        r == martin_header_spec(*s, detected, header as nat, step as nat),
{
    match detected {
        None => MartinState { search_from: s.search_from + step, ..*s },
        Some(vis) => if vis == VIS_CODE_MARTIN_M1 {
            MartinState { last_vis: Some(vis), image_start: Some(s.search_from + header), ..*s }
        } else {
            MartinState { last_vis: Some(vis), search_from: s.search_from + header, ..*s }
        },
    }
}

/// Decides what follows a Martin M1 scan: decode, trim or wait.
pub fn martin_settle(s: &MartinState, image_samples: usize, keep: usize) -> (r: (MartinState, ReceiverAction))
    ensures
        r == martin_settle_spec(*s, image_samples as nat, keep as nat),
{
    match s.image_start {
        Some(start) => match start.checked_add(image_samples) {
            Some(end) => {
                if s.buffered >= end {
                    (MartinState::new(), ReceiverAction::Decode { mode: VisMode::MartinM1, start, end })
                } else {
                    (*s, ReceiverAction::Wait)
                }
            },
            None => (*s, ReceiverAction::Wait),
        },
        None => {
            if s.buffered > keep {
                let drain = s.buffered - keep;
                (
                    MartinState { buffered: keep, search_from: s.search_from.saturating_sub(drain), ..*s },
                    ReceiverAction::Trim(drain),
                )
            } else {
                (*s, ReceiverAction::Wait)
            }
        },
    }
}

/// A detected header starts a transmission exactly when its code selects a
/// codec mode and that mode is the selected one, or none is selected: the
/// transmission then starts where the header window starts, in that mode.
/// Any other header leaves the receiver searching, one header further on.
/// Either way the detected code is remembered.
pub proof fn lemma_header_acceptance(s: ReceiverState, vis: u8, header: nat, step: nat)
    requires
        s.transmission_start is None,
        s.search_from + header <= usize::MAX,
    ensures
        ({
            let r = header_step_spec(s, Some(vis), header, step);
            &&& r.last_vis == Some(vis)
            &&& r.selected_mode == s.selected_mode
            &&& (vis_mode_spec(vis) matches Some(m) ==> ((s.selected_mode is None
                || s.selected_mode == Some(m)) ==> r.transmission_start == Some(s.search_from)
                && r.active_mode == Some(m) && r.search_from == s.search_from))
            &&& (vis_mode_spec(vis) is None || (s.selected_mode is Some && s.selected_mode
                != vis_mode_spec(vis))) ==> r.transmission_start is None && r.search_from
                == s.search_from + header
        }),
{
}

/// With no mode selected, every header whose code selects a codec mode
/// starts a transmission; with one selected, no other mode ever does.
pub proof fn lemma_selected_mode_filters(s: ReceiverState, vis: u8, header: nat, step: nat)
    requires
        s.transmission_start is None,
    ensures
        s.selected_mode is None && vis_mode_spec(vis) is Some ==> header_step_spec(
            s,
            Some(vis),
            header,
            step,
        ).active_mode == vis_mode_spec(vis),
        header_step_spec(s, Some(vis), header, step).transmission_start is Some ==> (s.selected_mode
            is None || header_step_spec(s, Some(vis), header, step).active_mode == s.selected_mode),
{
}

/// A window without a header moves the search on by `step` and changes
/// nothing else.
pub proof fn lemma_no_header_steps(s: ReceiverState, header: nat, step: nat)
    ensures
        header_step_spec(s, None, header, step) == (ReceiverState {
            search_from: (s.search_from + step) as usize,
            ..s
        }),
{
}

/// What settling decides: a decode covers exactly the transmission and its
/// guard, all of it buffered, and leaves a receiver with nothing buffered;
/// a complete transmission is always decoded; a trim keeps the last `keep`
/// samples; an unresolved automatic lock is dropped exactly when it has
/// counted `timeout` samples, and then forgotten and reported (a decode in
/// the same step resets the report with everything else).
pub proof fn lemma_settle_decisions(s: ReceiverState, mode_samples: nat, guard: nat, keep: nat, timeout: nat)
    ensures
        ({
            let (r, a, dropped) = settle_spec(s, mode_samples, guard, keep, timeout);
            &&& dropped == (s.unresolved_auto_samples matches Some(n) && n >= timeout)
            &&& (dropped && a !is Decode ==> r.auto_reacquired && r.last_vis is None)
            &&& (dropped ==> r.unresolved_auto_samples is None)
            &&& (!dropped && a !is Decode ==> r.auto_reacquired == s.auto_reacquired)
            &&& r.selected_mode == s.selected_mode
            &&& r.auto_target == s.auto_target
            &&& (a matches ReceiverAction::Decode { mode, start, end } ==> {
                &&& s.transmission_start == Some(start)
                &&& s.active_mode == Some(mode)
                &&& end == start + mode_samples + guard
                &&& end <= s.buffered
                &&& r.buffered == 0
                &&& r.transmission_start is None
            })
            &&& (s.transmission_start matches Some(start) && s.active_mode is Some && start
                + mode_samples + guard <= s.buffered ==> a is Decode)
            &&& (a matches ReceiverAction::Trim(n) ==> {
                &&& s.transmission_start is None || s.active_mode is None
                &&& n + keep == s.buffered
                &&& r.buffered == keep
            })
            &&& (a is Wait ==> r.buffered == s.buffered)
        }),
{
}

/// A Martin M1 header starts the image right after the header window; any
/// other header is passed over whole.
pub proof fn lemma_martin_header(s: MartinState, vis: u8, header: nat, step: nat)
    requires
        s.image_start is None,
        s.search_from + header <= usize::MAX,
    ensures
        vis == 0x2c ==> martin_header_spec(s, Some(vis), header, step).image_start == Some(
            (s.search_from + header) as usize,
        ),
        vis != 0x2c ==> martin_header_spec(s, Some(vis), header, step).image_start is None
            && martin_header_spec(s, Some(vis), header, step).search_from == s.search_from + header,
        martin_header_spec(s, Some(vis), header, step).last_vis == Some(vis),
{
}

/// A Martin M1 decode covers exactly the image, all of it buffered.
pub proof fn lemma_martin_settle(s: MartinState, image_samples: nat, keep: nat)
    ensures
        ({
            let (r, a) = martin_settle_spec(s, image_samples, keep);
            &&& (a matches ReceiverAction::Decode { mode, start, end } ==> mode == VisMode::MartinM1
                && s.image_start == Some(start) && end == start + image_samples && end <= s.buffered
                && r.buffered == 0)
            &&& (a matches ReceiverAction::Trim(n) ==> s.image_start is None && n + keep == s.buffered
                && r.buffered == keep)
        }),
{
}

} // verus!
