//! Application state and the decisions taken on each key press.
//!
//! The terminal loop lives outside the library: it reads a key, hands it
//! to `App::handle_key`, and performs the `Action` returned (running
//! xrandr, reading or writing profile files), reporting what came back
//! with `App::complete`. Time is passed in as milliseconds.

use vstd::prelude::*;
use crate::command::{build_command, command_args, materialize, materialize_spec, preview_command, preview_spec};
use crate::config::{
    LayoutConfig, LayoutConfigView, PersistedOutput, PersistedOutputView, from_outputs_spec,
    name_error_message, persisted_view, to_pending, to_pending_spec, validate_profile_name,
    validate_spec,
};
use crate::model::{
    Output, OutputView, PendingChange, PendingChangeView, Reflection, RelativePosition, Rotation,
    empty_change, visible_change,
};
use crate::pending::{PendingMap, PendingSeq, insert_spec, lookup};
use crate::text::{push_str, strs_view};
use crate::model::{ModeView, reflection_name, rotation_name, relative_name, reflection_next, rotation_next};
use crate::num::{milli_2dp, micro_2dp, push_milli_2dp, push_micro_2dp};

verus! {

broadcast use vstd::string::group_string_axioms;

/// Which pane currently has keyboard focus.
#[derive(Debug, Clone, Copy, PartialEq, Eq, Structural)]
pub enum Focus {
    Output,
    Mode,
}

/// What an input modal edits.
#[derive(Debug, Clone, Copy, PartialEq, Eq, Structural)]
pub enum InputTarget {
    Scale,
    /// Reserved for a `--scale-from` modal.
    ScaleFrom,
    Gamma,
    /// `--brightness <factor>`.
    Brightness,
    SameAs,
    /// Absolute `--pos <x>x<y>`.
    Position,
    /// `--panning <w>x<h>`.
    Panning,
    /// Name of a profile to save the current state to.
    ProfileName,
}

/// How an input modal's text is read when submitted.
#[derive(Debug, Clone, Copy, PartialEq, Eq, Structural)]
pub enum InputKind {
    /// Reserved for single-number inputs.
    ParseF32,
    ParseScale,
    ParseGamma,
    ParseBrightness,
    ParseName,
    ParsePosition,
    ParsePanning,
    ParseProfileName,
}

/// A text-entry dialog.
#[derive(Debug, PartialEq)]
pub struct InputModal {
    pub title: &'static str,
    pub prompt: String,
    pub buffer: String,
    pub error: Option<String>,
    pub target: InputTarget,
    /// When the caret last blinked, in milliseconds.
    pub cursor_blink_at: u64,
    pub on_submit_kind: InputKind,
}

pub struct InputModalView {
    pub title: Seq<char>,
    pub prompt: Seq<char>,
    pub buffer: Seq<char>,
    pub error: Option<Seq<char>>,
    pub target: InputTarget,
    pub cursor_blink_at: u64,
    pub on_submit_kind: InputKind,
}

pub open spec fn opt_string_view(o: Option<String>) -> Option<Seq<char>> {
    match o {
        Some(s) => Some(s@),
        None => None,
    }
}

impl View for InputModal {
    type V = InputModalView;

    open spec fn view(&self) -> InputModalView {
        InputModalView {
            title: self.title@,
            prompt: self.prompt@,
            buffer: self.buffer@,
            error: opt_string_view(self.error),
            target: self.target,
            cursor_blink_at: self.cursor_blink_at,
            on_submit_kind: self.on_submit_kind,
        }
    }
}

impl Clone for InputModal {
    fn clone(&self) -> (r: Self)
        ensures
            r@ == self@,
    {
        InputModal {
            title: self.title,
            prompt: self.prompt.clone(),
            buffer: self.buffer.clone(),
            error: match &self.error {
                Some(e) => Some(e.clone()),
                None => None,
            },
            target: self.target,
            cursor_blink_at: self.cursor_blink_at,
            on_submit_kind: self.on_submit_kind,
        }
    }
}

impl InputModal {
    /// The caret is always shown inside an input modal.
    pub fn cursor_visible(&self, now: u64) -> (b: bool)
        ensures
            b,
    {
        true
    }
}

/// Modal dialogs.
#[derive(Debug, PartialEq)]
pub enum ModalKind {
    Help,
    /// Raw-only EDID view.
    Edid(usize),
    /// EDID view with the parsed summary lines.
    EdidParsed(usize, Vec<String>),
    Input(InputModal),
    QuitConfirm,
    /// A one-shot error message.
    Error(String),
    /// Profile selection list with the cursor position.
    ProfileList { profiles: Vec<String>, selected: usize },
}

pub enum ModalView {
    Help,
    Edid(usize),
    EdidParsed(usize, Seq<Seq<char>>),
    Input(InputModalView),
    QuitConfirm,
    Error(Seq<char>),
    ProfileList { profiles: Seq<Seq<char>>, selected: usize },
}

impl View for ModalKind {
    type V = ModalView;

    open spec fn view(&self) -> ModalView {
        match self {
            ModalKind::Help => ModalView::Help,
            ModalKind::Edid(i) => ModalView::Edid(*i),
            ModalKind::EdidParsed(i, l) => ModalView::EdidParsed(*i, strs_view(l@)),
            ModalKind::Input(m) => ModalView::Input(m@),
            ModalKind::QuitConfirm => ModalView::QuitConfirm,
            ModalKind::Error(s) => ModalView::Error(s@),
            ModalKind::ProfileList { profiles, selected } => ModalView::ProfileList {
                profiles: strs_view(profiles@),
                selected: *selected,
            },
        }
    }
}

pub fn clone_strings(v: &Vec<String>) -> (r: Vec<String>)
    ensures
        strs_view(r@) == strs_view(v@),
{
    let mut r: Vec<String> = Vec::new();
    let mut i: usize = 0;
    while i < v.len()
        invariant
            i <= v.len(),
            strs_view(r@) == strs_view(v@.take(i as int)),
        decreases v.len() - i,
    {
        let ghost before = strs_view(r@);
        let c = v[i].clone();
        assert(c@ == v@[i as int]@);
        r.push(c);
        assert(strs_view(r@) =~= before.push(c@));
        assert(strs_view(v@.take(i + 1)) =~= strs_view(v@.take(i as int)).push(v@[i as int]@));
        i += 1;
    }
    assert(v@.take(v.len() as int) =~= v@);
    r
}

impl Clone for ModalKind {
    fn clone(&self) -> (r: Self)
        ensures
            r@ == self@,
    {
        match self {
            ModalKind::Help => ModalKind::Help,
            ModalKind::Edid(i) => ModalKind::Edid(*i),
            ModalKind::EdidParsed(i, l) => ModalKind::EdidParsed(*i, clone_strings(l)),
            ModalKind::Input(m) => ModalKind::Input(m.clone()),
            ModalKind::QuitConfirm => ModalKind::QuitConfirm,
            ModalKind::Error(s) => ModalKind::Error(s.clone()),
            ModalKind::ProfileList { profiles, selected } => ModalKind::ProfileList {
                profiles: clone_strings(profiles),
                selected: *selected,
            },
        }
    }
}

pub open spec fn opt_modal_view(m: Option<ModalKind>) -> Option<ModalView> {
    match m {
        Some(k) => Some(k@),
        None => None,
    }
}

/// State of the user interface.
pub struct App {
    pub outputs: Vec<Output>,
    pub pending: PendingMap,
    pub selected_output: usize,
    pub selected_mode: usize,
    pub focus: Focus,
    pub modal: Option<ModalKind>,
    /// Transient status message and when it was set (milliseconds).
    pub status_message: Option<(String, u64)>,
    pub should_quit: bool,
    pub tick: u64,
    /// The last applied command line.
    pub last_preview: String,
    /// Name of the most recently applied profile, if any.
    pub last_applied_profile: Option<String>,
    /// Scroll offset (in lines) of the help modal.
    pub help_scroll: u16,
}

pub struct AppView {
    pub outputs: Seq<OutputView>,
    pub pending: PendingSeq,
    pub selected_output: usize,
    pub selected_mode: usize,
    pub focus: Focus,
    pub modal: Option<ModalView>,
    pub status_message: Option<(Seq<char>, u64)>,
    pub should_quit: bool,
    pub tick: u64,
    pub last_preview: Seq<char>,
    pub last_applied_profile: Option<Seq<char>>,
    pub help_scroll: u16,
}

pub open spec fn outputs_view(v: Seq<Output>) -> Seq<OutputView> {
    v.map_values(|o: Output| o@)
}

pub open spec fn status_view(s: Option<(String, u64)>) -> Option<(Seq<char>, u64)> {
    match s {
        Some((m, t)) => Some((m@, t)),
        None => None,
    }
}

impl View for App {
    type V = AppView;

    open spec fn view(&self) -> AppView {
        AppView {
            outputs: outputs_view(self.outputs@),
            pending: self.pending@,
            selected_output: self.selected_output,
            selected_mode: self.selected_mode,
            focus: self.focus,
            modal: opt_modal_view(self.modal),
            status_message: status_view(self.status_message),
            should_quit: self.should_quit,
            tick: self.tick,
            last_preview: self.last_preview@,
            last_applied_profile: opt_string_view(self.last_applied_profile),
            help_scroll: self.help_scroll,
        }
    }
}

/// A fresh interface over `outputs`: nothing staged, first output
/// selected, output list focused, no modal or message.
pub open spec fn new_app(outputs: Seq<OutputView>) -> AppView {
    AppView {
        outputs,
        pending: Seq::empty(),
        selected_output: 0,
        selected_mode: 0,
        focus: Focus::Output,
        modal: None,
        status_message: None,
        should_quit: false,
        tick: 0,
        last_preview: Seq::empty(),
        last_applied_profile: None,
        help_scroll: 0,
    }
}

/// Some staged change is visible (what `has_pending` answers).
pub open spec fn has_pending_spec(p: PendingSeq) -> bool {
    exists|i: int| 0 <= i < p.len() && visible_change(#[trigger] p[i].1)
}

/// The message set at `now`.
pub open spec fn flashed(a: AppView, msg: Seq<char>, now: u64) -> AppView {
    AppView { status_message: Some((msg, now)), ..a }
}

/// The status message while it is under two seconds old.
pub open spec fn current_status_spec(a: AppView, now: u64) -> Option<Seq<char>> {
    match a.status_message {
        Some((m, t)) => if now < t || now - t < 2000 {
            Some(m)
        } else {
            None
        },
        None => None,
    }
}

/// Number of modes of the selected output (0 when none is selected).
pub open spec fn mode_count(a: AppView) -> nat {
    if a.selected_output < a.outputs.len() {
        a.outputs[a.selected_output as int].available_modes.len()
    } else {
        0
    }
}

/// The state after re-reading the outputs: selections are pulled back
/// into range (the output to the last one, the mode to the first).
pub open spec fn refreshed(a: AppView, outs: Seq<OutputView>) -> AppView {
    let so = if a.selected_output >= outs.len() {
        if outs.len() == 0 {
            0
        } else {
            (outs.len() - 1) as usize
        }
    } else {
        a.selected_output
    };
    let b = AppView { outputs: outs, selected_output: so, ..a };
    AppView {
        selected_mode: if a.selected_mode >= mode_count(b) {
            0
        } else {
            a.selected_mode
        },
        ..b
    }
}

impl App {
    pub fn new(outputs: Vec<Output>) -> (app: Self)
        ensures
            app@ == new_app(outputs_view(outputs@)),
    {
        App {
            outputs,
            pending: PendingMap::new(),
            selected_output: 0,
            selected_mode: 0,
            focus: Focus::Output,
            modal: None,
            status_message: None,
            should_quit: false,
            tick: 0,
            last_preview: String::new(),
            last_applied_profile: None,
            help_scroll: 0,
        }
    }

    /// Replace the outputs with freshly read ones, keeping the selections
    /// in range.
    pub fn refresh(&mut self, outs: Vec<Output>)
        ensures
            final(self)@ == refreshed(old(self)@, outputs_view(outs@)),
    {
        self.outputs = outs;
        if self.selected_output >= self.outputs.len() {
            self.selected_output = if self.outputs.len() == 0 {
                0
            } else {
                self.outputs.len() - 1
            };
        }
        let n = if self.selected_output < self.outputs.len() {
            self.outputs[self.selected_output].available_modes.len()
        } else {
            0
        };
        proof {
            if self.selected_output < self.outputs.len() {
                assert(outputs_view(self.outputs@)[self.selected_output as int]
                    == self.outputs@[self.selected_output as int]@);
            }
        }
        if self.selected_mode >= n {
            self.selected_mode = 0;
        }
    }

    /// The output currently selected, if any, to change in place.
    pub fn selected_output_mut(&mut self) -> (r: Option<&mut Output>)
        ensures
            match r {
                Some(o) => {
                    &&& old(self).selected_output < old(self).outputs.len()
                    &&& *o == old(self).outputs@[old(self).selected_output as int]
                    &&& final(self).outputs@ == old(self).outputs@.update(old(self).selected_output as int, *final(o))
                    &&& final(self).selected_output == old(self).selected_output
                },
                None => {
                    &&& old(self).selected_output >= old(self).outputs.len()
                    &&& final(self)@ == old(self)@
                },
            },
    {
        let i = self.selected_output;
        if i < self.outputs.len() {
            Some(&mut self.outputs[i])
        } else {
            None
        }
    }

    /// The output currently selected, if any.
    pub fn selected_output(&self) -> (r: Option<&Output>)
        ensures
            match r {
                Some(o) => self.selected_output < self@.outputs.len() && o@
                    == self@.outputs[self.selected_output as int],
                None => self.selected_output >= self@.outputs.len(),
            },
    {
        if self.selected_output < self.outputs.len() {
            Some(&self.outputs[self.selected_output])
        } else {
            None
        }
    }

    /// Show a transient status message from `now` on.
    pub fn flash(&mut self, msg: String, now: u64)
        ensures
            final(self)@ == flashed(old(self)@, msg@, now),
    {
        self.status_message = Some((msg, now));
    }

    /// The status message if it is still within its two-second window.
    pub fn current_status(&self, now: u64) -> (r: Option<&str>)
        ensures
            match current_status_spec(self@, now) {
                Some(m) => r matches Some(s) && s@ == m,
                None => r is None,
            },
    {
        match &self.status_message {
            Some((s, t)) => if now < *t || now - *t < 2000 {
                Some(s.as_str())
            } else {
                None
            },
            None => None,
        }
    }

    /// True if the user has staged any user-visible changes.
    pub fn has_pending(&self) -> (b: bool)
        ensures
            b == has_pending_spec(self@.pending),
    {
        let n = self.pending.len();
        let mut i: usize = 0;
        while i < n
            invariant
                i <= n,
                n == self@.pending.len(),
                forall|k: int| 0 <= k < i ==> !visible_change(#[trigger] self@.pending[k].1),
            decreases n - i,
        {
            let (_, c) = self.pending.entry_at(i);
            if c.has_visible_change() {
                assert(visible_change(self@.pending[i as int].1));
                return true;
            }
            i += 1;
        }
        false
    }

    /// Count a frame.
    pub fn on_tick(&mut self)
        ensures
            final(self)@ == (AppView { tick: (old(self).tick + 1) as u64, ..old(self)@ }) || (
            old(self).tick == u64::MAX && final(self)@ == (AppView { tick: 0, ..old(self)@ })),
    {
        self.tick = if self.tick == u64::MAX {
            0
        } else {
            self.tick + 1
        };
    }
}

/// Public constructor used after querying xrandr.
pub fn build_app(outputs: Vec<Output>) -> (app: App)
    ensures
        app@ == new_app(outputs_view(outputs@)),
{
    App::new(outputs)
}


/// The change staged for `name`, or an empty one.
pub open spec fn staged(p: PendingSeq, name: Seq<char>) -> PendingChangeView {
    match lookup(p, name) {
        Some(c) => c,
        None => empty_change(),
    }
}

/// The name of the selected output (meaningful when one is selected).
pub open spec fn sel_name(a: AppView) -> Seq<char> {
    a.outputs[a.selected_output as int].name
}

pub open spec fn has_selection(a: AppView) -> bool {
    a.selected_output < a.outputs.len()
}

/// `q`: ask for confirmation when visible changes are staged, else quit.
pub open spec fn op_quit(a: AppView) -> AppView {
    if has_pending_spec(a.pending) {
        AppView { modal: Some(ModalView::QuitConfirm), ..a }
    } else {
        AppView { should_quit: true, ..a }
    }
}

/// `r`: drop every staged change (with a message) when any are staged.
pub open spec fn op_reset(a: AppView, now: u64) -> AppView {
    if a.pending.len() > 0 {
        flashed(AppView { pending: Seq::empty(), ..a }, "Pending changes cleared"@, now)
    } else {
        a
    }
}

/// An empty input modal.
pub open spec fn input_modal(
    title: Seq<char>,
    prompt: Seq<char>,
    target: InputTarget,
    kind: InputKind,
    now: u64,
) -> InputModalView {
    InputModalView {
        title,
        prompt,
        buffer: Seq::empty(),
        error: None,
        target,
        cursor_blink_at: now,
        on_submit_kind: kind,
    }
}

/// Move the cursor of the focused list by `delta`, wrapping around; moving
/// in the output list resets the mode cursor.
pub open spec fn op_move(a: AppView, delta: int) -> AppView {
    match a.focus {
        Focus::Output => if a.outputs.len() == 0 {
            a
        } else {
            AppView {
                selected_output: ((a.selected_output + delta) % (a.outputs.len() as int)) as usize,
                selected_mode: 0,
                ..a
            }
        },
        Focus::Mode => if mode_count(a) == 0 {
            a
        } else {
            AppView {
                selected_mode: ((a.selected_mode + delta) % (mode_count(a) as int)) as usize,
                ..a
            }
        },
    }
}

/// Stepping by one from `c` modulo `l` is stepping from `c % l`.
pub proof fn lemma_wrap_step(c: int, l: int)
    requires
        l > 0,
        c >= 0,
    ensures
        (c + 1) % l == ((c % l) + 1) % l,
        (c - 1) % l == ((c % l) + l - 1) % l,
        (c % l) == 0 ==> (c - 1) % l == l - 1,
        (c % l) > 0 ==> (c - 1) % l == (c % l) - 1,
{
    vstd::arithmetic::div_mod::lemma_mod_bound(c, l);
    vstd::arithmetic::div_mod::lemma_small_mod((l - 1) as nat, l as nat);
    if c % l > 0 {
        vstd::arithmetic::div_mod::lemma_small_mod((c % l - 1) as nat, l as nat);
        vstd::arithmetic::div_mod::lemma_mod_add_multiples_vanish(c % l - 1, l);
    } else {
        vstd::arithmetic::div_mod::lemma_mod_add_multiples_vanish(-1, l);
    }
    vstd::arithmetic::div_mod::lemma_add_mod_noop_right(1, c, l);
    vstd::arithmetic::div_mod::lemma_add_mod_noop_right(l - 1, c, l);
    vstd::arithmetic::div_mod::lemma_mod_add_multiples_vanish(c - 1, l);
    assert(l - 1 + c == l + (c - 1));
}

impl App {
    /// Open an empty input modal.
    pub fn open_input(
        &mut self,
        title: &'static str,
        prompt: &str,
        target: InputTarget,
        kind: InputKind,
        now: u64,
    )
        ensures
            final(self)@ == (AppView {
                modal: Some(ModalView::Input(input_modal(title@, prompt@, target, kind, now))),
                ..old(self)@
            }),
    {
        self.modal = Some(
            ModalKind::Input(
                InputModal {
                    title,
                    prompt: String::from_str(prompt),
                    buffer: String::new(),
                    error: None,
                    target,
                    cursor_blink_at: now,
                    on_submit_kind: kind,
                },
            ),
        );
    }

    /// `q`.
    pub fn quit_key(&mut self)
        ensures
            final(self)@ == op_quit(old(self)@),
    {
        if self.has_pending() {
            self.modal = Some(ModalKind::QuitConfirm);
        } else {
            self.should_quit = true;
        }
    }

    /// `r`.
    pub fn reset_key(&mut self, now: u64)
        ensures
            final(self)@ == op_reset(old(self)@, now),
    {
        if !self.pending.is_empty() {
            self.pending.clear();
            self.flash(String::from_str("Pending changes cleared"), now);
        }
    }

    /// Move the cursor of the focused list by one (`forward`) or back one.
    pub fn move_selection(&mut self, forward: bool)
        ensures
            final(self)@ == op_move(
                old(self)@,
                if forward {
                    1
                } else {
                    -1
                },
            ),
    {
        match self.focus {
            Focus::Output => {
                let len = self.outputs.len();
                if len == 0 {
                    return;
                }
                let cur = self.selected_output % len;
                self.selected_output = if forward {
                    (cur + 1) % len
                } else {
                    if cur == 0 {
                        len - 1
                    } else {
                        cur - 1
                    }
                };
                self.selected_mode = 0;
                proof {
                    lemma_wrap_step(old(self).selected_output as int, len as int);
                }
            },
            Focus::Mode => {
                let len = if self.selected_output < self.outputs.len() {
                    self.outputs[self.selected_output].available_modes.len()
                } else {
                    0
                };
                proof {
                    if self.selected_output < self.outputs.len() {
                        assert(outputs_view(self.outputs@)[self.selected_output as int]
                            == self.outputs@[self.selected_output as int]@);
                    }
                }
                if len == 0 {
                    return;
                }
                let cur = self.selected_mode % len;
                self.selected_mode = if forward {
                    (cur + 1) % len
                } else {
                    if cur == 0 {
                        len - 1
                    } else {
                        cur - 1
                    }
                };
                proof {
                    lemma_wrap_step(old(self).selected_mode as int, len as int);
                }
            },
        }
    }
}


/// `a` with the change staged for the selected output set to `c`.
pub open spec fn with_staged(a: AppView, c: PendingChangeView) -> AppView {
    AppView { pending: insert_spec(a.pending, sel_name(a), c), ..a }
}

pub open spec fn cur_staged(a: AppView) -> PendingChangeView {
    staged(a.pending, sel_name(a))
}

/// `Enter`: stage the highlighted mode of the selected output (which also
/// cancels a staged `off`).
pub open spec fn op_stage_mode(a: AppView, now: u64) -> AppView {
    if !has_selection(a) || a.selected_mode >= a.outputs[a.selected_output as int].available_modes.len() {
        a
    } else {
        let m = a.outputs[a.selected_output as int].available_modes[a.selected_mode as int];
        flashed(
            with_staged(a, PendingChangeView { mode: Some(m), off: None, ..cur_staged(a) }),
            "Staged "@ + sel_name(a) + " -> "@ + m.name + " @ "@ + milli_2dp(m.refresh_rate as int)
                + "Hz"@,
            now,
        )
    }
}

/// `m`: the selected output becomes the only primary one in the list and
/// `primary` is staged for it.
pub open spec fn op_primary(a: AppView, now: u64) -> AppView {
    if !has_selection(a) {
        a
    } else {
        let n = sel_name(a);
        flashed(
            with_staged(
                AppView {
                    outputs: a.outputs.map_values(|o: OutputView| OutputView { is_primary: o.name == n, ..o }),
                    ..a
                },
                PendingChangeView { primary: Some(true), ..cur_staged(a) },
            ),
            n + " will become primary"@,
            now,
        )
    }
}

/// `d`: stage `--off` (dropping a staged mode).
pub open spec fn op_off(a: AppView, now: u64) -> AppView {
    if !has_selection(a) {
        a
    } else {
        flashed(
            with_staged(a, PendingChangeView { off: Some(true), mode: None, ..cur_staged(a) }),
            sel_name(a) + " will be turned off"@,
            now,
        )
    }
}

/// `p`: stage `--auto`.
pub open spec fn op_on(a: AppView, now: u64) -> AppView {
    if !has_selection(a) {
        a
    } else {
        flashed(
            with_staged(a, PendingChangeView { off: Some(false), ..cur_staged(a) }),
            sel_name(a) + " will be turned on (--auto)"@,
            now,
        )
    }
}

/// The selected output with its reflection set to `r`.
pub open spec fn set_sel_reflection(a: AppView, r: Reflection) -> AppView {
    AppView {
        outputs: a.outputs.update(
            a.selected_output as int,
            OutputView { reflection: r, ..a.outputs[a.selected_output as int] },
        ),
        ..a
    }
}

/// The selected output with its rotation set to `r`.
pub open spec fn set_sel_rotation(a: AppView, r: Rotation) -> AppView {
    AppView {
        outputs: a.outputs.update(
            a.selected_output as int,
            OutputView { rotation: r, ..a.outputs[a.selected_output as int] },
        ),
        ..a
    }
}

/// `x`: cycle the reflection of the selected output and stage it.
pub open spec fn op_reflect(a: AppView, now: u64) -> AppView {
    if !has_selection(a) {
        a
    } else {
        let next = reflection_next(a.outputs[a.selected_output as int].reflection);
        flashed(
            with_staged(set_sel_reflection(a, next), PendingChangeView { reflection: Some(next), ..cur_staged(a) }),
            sel_name(a) + " reflection -> "@ + reflection_name(next),
            now,
        )
    }
}

/// `X`: reset the reflection of the selected output to normal and stage it.
pub open spec fn op_reflect_reset(a: AppView, now: u64) -> AppView {
    if !has_selection(a) {
        a
    } else {
        flashed(
            with_staged(
                set_sel_reflection(a, Reflection::Normal),
                PendingChangeView { reflection: Some(Reflection::Normal), ..cur_staged(a) },
            ),
            sel_name(a) + " reflection -> "@ + reflection_name(Reflection::Normal),
            now,
        )
    }
}

/// `R`: cycle the rotation of the selected output and stage it.
pub open spec fn op_rotate(a: AppView, now: u64) -> AppView {
    if !has_selection(a) {
        a
    } else {
        let next = rotation_next(a.outputs[a.selected_output as int].rotation);
        flashed(
            with_staged(set_sel_rotation(a, next), PendingChangeView { rotation: Some(next), ..cur_staged(a) }),
            sel_name(a) + " rotation -> "@ + rotation_name(next),
            now,
        )
    }
}

/// `v` clamped to `[lo, hi]`.
pub open spec fn clamp(v: int, lo: int, hi: int) -> int {
    if v < lo {
        lo
    } else if v > hi {
        hi
    } else {
        v
    }
}

/// `[` and `]`: step both scale factors of the selected output (1.0 when
/// unset) by `delta` millionths, clamped to 0.1..=2.0, and stage them.
pub open spec fn op_step_scale(a: AppView, delta: int, now: u64) -> AppView {
    if !has_selection(a) {
        a
    } else {
        let o = a.outputs[a.selected_output as int];
        let (cx, cy) = match o.scale {
            Some(p) => p,
            None => (1_000_000i64, 1_000_000i64),
        };
        let sx = clamp(cx + delta, 100_000, 2_000_000) as i64;
        let sy = clamp(cy + delta, 100_000, 2_000_000) as i64;
        flashed(
            with_staged(
                AppView {
                    outputs: a.outputs.update(
                        a.selected_output as int,
                        OutputView { scale: Some((sx, sy)), ..o },
                    ),
                    ..a
                },
                PendingChangeView { scale: Some((sx, sy)), ..cur_staged(a) },
            ),
            sel_name(a) + " scale -> "@ + micro_2dp(sx as int) + seq!['x'] + micro_2dp(sy as int),
            now,
        )
    }
}

impl App {
    fn sel_name_exec(&self) -> (n: String)
        requires
            has_selection(self@),
        ensures
            n@ == sel_name(self@),
    {
        assert(outputs_view(self.outputs@)[self.selected_output as int]
            == self.outputs@[self.selected_output as int]@);
        self.outputs[self.selected_output].name.clone()
    }

    fn stage_for(&mut self, name: &String, c: PendingChange)
        ensures
            final(self)@ == (AppView { pending: insert_spec(old(self)@.pending, name@, c@), ..old(self)@ }),
    {
        self.pending.insert(name.clone(), c);
    }

    pub(crate) fn set_output(&mut self, i: usize, o: Output)
        requires
            i < old(self).outputs.len(),
        ensures
            final(self)@ == (AppView { outputs: old(self)@.outputs.update(i as int, o@), ..old(self)@ }),
    {
        self.outputs.set(i, o);
        assert(outputs_view(self.outputs@) =~= outputs_view(old(self).outputs@).update(i as int, o@));
    }

    /// `Enter`: stage the highlighted mode.
    pub fn stage_mode(&mut self, now: u64)
        ensures
            final(self)@ == op_stage_mode(old(self)@, now),
    {
        if self.selected_output >= self.outputs.len() {
            return;
        }
        let name = self.sel_name_exec();
        let i = self.selected_output;
        assert(outputs_view(self.outputs@)[i as int] == self.outputs@[i as int]@);
        if self.selected_mode >= self.outputs[i].available_modes.len() {
            return;
        }
        let m = self.outputs[i].available_modes[self.selected_mode].clone();
        assert(self@.outputs[i as int].available_modes[self.selected_mode as int] == m@);
        let mut msg = String::from_str("Staged ");
        push_str(&mut msg, name.as_str());
        push_str(&mut msg, " -> ");
        push_str(&mut msg, m.name.as_str());
        push_str(&mut msg, " @ ");
        push_milli_2dp(&mut msg, m.refresh_rate);
        push_str(&mut msg, "Hz");
        let mut c = self.pending.get_or_default(name.as_str());
        c.mode = Some(m);
        c.off = None;
        self.stage_for(&name, c);
        self.flash(msg, now);
    }

    /// `m`: make the selected output primary.
    pub fn make_primary(&mut self, now: u64)
        ensures
            final(self)@ == op_primary(old(self)@, now),
    {
        if self.selected_output >= self.outputs.len() {
            return;
        }
        let name = self.sel_name_exec();
        let ghost a = self@;
        let mut k: usize = 0;
        while k < self.outputs.len()
            invariant
                k <= self.outputs.len(),
                self.outputs.len() == a.outputs.len(),
                name@ == sel_name(a),
                self@ == (AppView { outputs: self@.outputs, ..a }),
                forall|j: int| 0 <= j < k ==> #[trigger] self@.outputs[j] == (OutputView { is_primary: a.outputs[j].name == name@, ..a.outputs[j] }),
                forall|j: int| k <= j < self.outputs.len() ==> #[trigger] self@.outputs[j] == a.outputs[j],
            decreases self.outputs.len() - k,
        {
            assert(self@.outputs[k as int] == self.outputs@[k as int]@);
            let mut o = self.outputs[k].clone();
            assert(o@ == a.outputs[k as int]);
            o.is_primary = o.name == name;
            self.set_output(k, o);
            assert(self.outputs@.len() == self@.outputs.len());
            k += 1;
        }
        assert(self@.outputs =~= a.outputs.map_values(|o: OutputView| OutputView { is_primary: o.name == name@, ..o }));
        let mut c = self.pending.get_or_default(name.as_str());
        c.primary = Some(true);
        self.stage_for(&name, c);
        let mut msg = name.clone();
        push_str(&mut msg, " will become primary");
        self.flash(msg, now);
    }

    /// `d`: stage `--off`.
    pub fn stage_off(&mut self, now: u64)
        ensures
            final(self)@ == op_off(old(self)@, now),
    {
        if self.selected_output >= self.outputs.len() {
            return;
        }
        let name = self.sel_name_exec();
        let mut c = self.pending.get_or_default(name.as_str());
        c.off = Some(true);
        c.mode = None;
        self.stage_for(&name, c);
        let mut msg = name.clone();
        push_str(&mut msg, " will be turned off");
        self.flash(msg, now);
    }

    /// `p`: stage `--auto`.
    pub fn stage_on(&mut self, now: u64)
        ensures
            final(self)@ == op_on(old(self)@, now),
    {
        if self.selected_output >= self.outputs.len() {
            return;
        }
        let name = self.sel_name_exec();
        let mut c = self.pending.get_or_default(name.as_str());
        c.off = Some(false);
        self.stage_for(&name, c);
        let mut msg = name.clone();
        push_str(&mut msg, " will be turned on (--auto)");
        self.flash(msg, now);
    }

    /// `x` (cycle) and `X` (reset): set and stage the reflection.
    pub fn set_reflection(&mut self, cycle: bool, now: u64)
        ensures
            final(self)@ == if cycle {
                op_reflect(old(self)@, now)
            } else {
                op_reflect_reset(old(self)@, now)
            },
    {
        if self.selected_output >= self.outputs.len() {
            return;
        }
        let name = self.sel_name_exec();
        let i = self.selected_output;
        let mut o = self.outputs[i].clone();
        assert(o@ == self@.outputs[i as int]);
        let next = if cycle {
            o.reflection.next()
        } else {
            Reflection::Normal
        };
        let ghost c0 = cur_staged(self@);
        let mut c = self.pending.get_or_default(name.as_str());
        o.reflection = next;
        self.set_output(i, o);
        c.reflection = Some(next);
        self.stage_for(&name, c);
        let mut msg = name.clone();
        push_str(&mut msg, " reflection -> ");
        push_str(&mut msg, next.as_str());
        self.flash(msg, now);
    }

    /// `R`: cycle and stage the rotation.
    pub fn cycle_rotation(&mut self, now: u64)
        ensures
            final(self)@ == op_rotate(old(self)@, now),
    {
        if self.selected_output >= self.outputs.len() {
            return;
        }
        let name = self.sel_name_exec();
        let i = self.selected_output;
        let mut o = self.outputs[i].clone();
        assert(o@ == self@.outputs[i as int]);
        let next = o.rotation.next();
        let mut c = self.pending.get_or_default(name.as_str());
        o.rotation = next;
        self.set_output(i, o);
        c.rotation = Some(next);
        self.stage_for(&name, c);
        let mut msg = name.clone();
        push_str(&mut msg, " rotation -> ");
        push_str(&mut msg, next.as_str());
        self.flash(msg, now);
    }

    /// `[` (down) and `]` (up): step the scale by 0.1.
    pub fn step_scale(&mut self, up: bool, now: u64)
        ensures
            final(self)@ == op_step_scale(
                old(self)@,
                if up {
                    100_000
                } else {
                    -100_000
                },
                now,
            ),
    {
        if self.selected_output >= self.outputs.len() {
            return;
        }
        let name = self.sel_name_exec();
        let i = self.selected_output;
        let mut o = self.outputs[i].clone();
        assert(o@ == self@.outputs[i as int]);
        let (cx, cy) = match o.scale {
            Some(p) => p,
            None => (1_000_000i64, 1_000_000i64),
        };
        let sx = step_clamped(cx, up);
        let sy = step_clamped(cy, up);
        let mut c = self.pending.get_or_default(name.as_str());
        o.scale = Some((sx, sy));
        self.set_output(i, o);
        c.scale = Some((sx, sy));
        self.stage_for(&name, c);
        let mut msg = name.clone();
        push_str(&mut msg, " scale -> ");
        push_micro_2dp(&mut msg, sx);
        crate::text::push_char(&mut msg, 'x');
        push_micro_2dp(&mut msg, sy);
        assert(msg@ =~= name@ + " scale -> "@ + micro_2dp(sx as int) + seq!['x'] + micro_2dp(sy as int));
        self.flash(msg, now);
    }
}

fn step_clamped(v: i64, up: bool) -> (r: i64)
    ensures
        r == clamp(
            v + if up {
                100_000
            } else {
                -100_000
            },
            100_000,
            2_000_000,
        ),
{
    let w: i128 = if up {
        v as i128 + 100_000
    } else {
        v as i128 - 100_000
    };
    if w < 100_000 {
        100_000
    } else if w > 2_000_000 {
        2_000_000
    } else {
        w as i64
    }
}


/// Direction of a neighbour in the list of connected outputs.
#[derive(Debug, Clone, Copy, PartialEq, Eq, Structural)]
pub enum NeighbourDir {
    Left,
    Right,
    Above,
    Below,
}

/// Index of the last connected output before `i`, or -1.
pub open spec fn prev_connected(outs: Seq<OutputView>, i: int) -> int
    decreases i,
{
    if i <= 0 {
        -1
    } else if outs[i - 1].connected {
        i - 1
    } else {
        prev_connected(outs, i - 1)
    }
}

/// Index of the first connected output after `i`, or `outs.len()`.
pub open spec fn next_connected(outs: Seq<OutputView>, i: int) -> int
    decreases outs.len() - i,
{
    if i + 1 >= outs.len() {
        outs.len() as int
    } else if outs[i + 1].connected {
        i + 1
    } else {
        next_connected(outs, i + 1)
    }
}

/// The neighbour of the selected output among the connected outputs, to
/// the left (previous) or right (next). The list has one dimension, so
/// above and below place against the previous connected output, or the
/// next one when there is none before. An unconnected selection has no
/// neighbour.
pub open spec fn neighbour_spec(a: AppView, dir: NeighbourDir) -> Option<int> {
    if !has_selection(a) || !a.outputs[a.selected_output as int].connected {
        None
    } else {
        match dir {
            NeighbourDir::Left => {
                let j = prev_connected(a.outputs, a.selected_output as int);
                if j >= 0 {
                    Some(j)
                } else {
                    None
                }
            },
            NeighbourDir::Right => {
                let j = next_connected(a.outputs, a.selected_output as int);
                if j < a.outputs.len() {
                    Some(j)
                } else {
                    None
                }
            },
            NeighbourDir::Above | NeighbourDir::Below => {
                let j = prev_connected(a.outputs, a.selected_output as int);
                let k = next_connected(a.outputs, a.selected_output as int);
                if j >= 0 {
                    Some(j)
                } else if k < a.outputs.len() {
                    Some(k)
                } else {
                    None
                }
            },
        }
    }
}

proof fn lemma_prev_connected(outs: Seq<OutputView>, i: int)
    requires
        0 <= i <= outs.len(),
    ensures
        -1 <= prev_connected(outs, i) < i,
        prev_connected(outs, i) >= 0 ==> outs[prev_connected(outs, i)].connected,
    decreases i,
{
    if i > 0 && !outs[i - 1].connected {
        lemma_prev_connected(outs, i - 1);
    }
}

proof fn lemma_next_connected(outs: Seq<OutputView>, i: int)
    requires
        0 <= i < outs.len(),
    ensures
        i < next_connected(outs, i) <= outs.len(),
        next_connected(outs, i) < outs.len() ==> outs[next_connected(outs, i)].connected,
    decreases outs.len() - i,
{
    if i + 1 < outs.len() && !outs[i + 1].connected {
        lemma_next_connected(outs, i + 1);
    }
}

/// `H`, `L`, `K`, `J`: stage placement of the selected output relative to
/// its neighbour in that direction, or say there is none.
pub open spec fn op_place(a: AppView, dir: NeighbourDir, pos: RelativePosition, now: u64) -> AppView {
    match neighbour_spec(a, dir) {
        None => flashed(a, "No neighbour in that direction"@, now),
        Some(t) => {
            let other = a.outputs[t].name;
            flashed(
                with_staged(a, PendingChangeView { relative_to: Some(Some((other, pos))), ..cur_staged(a) }),
                sel_name(a) + " will be placed "@ + relative_name(pos) + seq![' '] + other,
                now,
            )
        },
    }
}

/// The lines of the EDID popup for output `i`: the decoded summary, or
/// none when there is no EDID or it does not decode.
pub open spec fn edid_lines(a: AppView, i: int) -> Seq<Seq<char>> {
    if 0 <= i < a.outputs.len() {
        match a.outputs[i].edid {
            Some(b) => match crate::edid::edid_parse_spec(b) {
                Some(info) => crate::edid::summary_spec(info),
                None => Seq::empty(),
            },
            None => Seq::empty(),
        }
    } else {
        Seq::empty()
    }
}

/// `e`: open the EDID popup for the selected output.
pub open spec fn op_edid(a: AppView) -> AppView {
    AppView {
        modal: Some(ModalView::EdidParsed(a.selected_output, edid_lines(a, a.selected_output as int))),
        ..a
    }
}

impl App {
    /// Locate the neighbour in the connected list relative to the selected
    /// output.
    pub fn neighbour(&self, dir: NeighbourDir) -> (r: Option<usize>)
        ensures
            match neighbour_spec(self@, dir) {
                Some(j) => r == Some(j as usize),
                None => r is None,
            },
    {
        let me = self.selected_output;
        if me >= self.outputs.len() {
            return None;
        }
        assert(self@.outputs[me as int] == self.outputs@[me as int]@);
        if !self.outputs[me].connected {
            return None;
        }
        match dir {
            NeighbourDir::Left => self.prev_connected_exec(me),
            NeighbourDir::Right => self.next_connected_exec(me),
            NeighbourDir::Above | NeighbourDir::Below => match self.prev_connected_exec(me) {
                Some(j) => Some(j),
                None => self.next_connected_exec(me),
            },
        }
    }

    fn prev_connected_exec(&self, me: usize) -> (r: Option<usize>)
        requires
            me < self.outputs.len(),
        ensures
            match r {
                Some(j) => j == prev_connected(self@.outputs, me as int) && j >= 0,
                None => prev_connected(self@.outputs, me as int) < 0,
            },
    {
        let mut i = me;
        proof {
            lemma_prev_connected(self@.outputs, me as int);
        }
        while i > 0
            invariant
                i <= me < self.outputs.len(),
                prev_connected(self@.outputs, me as int) == prev_connected(self@.outputs, i as int),
            decreases i,
        {
            assert(self@.outputs[i - 1] == self.outputs@[i - 1]@);
            if self.outputs[i - 1].connected {
                return Some(i - 1);
            }
            i -= 1;
        }
        None
    }

    fn next_connected_exec(&self, me: usize) -> (r: Option<usize>)
        requires
            me < self.outputs.len(),
        ensures
            match r {
                Some(j) => j == next_connected(self@.outputs, me as int) && j < self@.outputs.len(),
                None => next_connected(self@.outputs, me as int) >= self@.outputs.len(),
            },
    {
        let mut i = me;
        proof {
            lemma_next_connected(self@.outputs, me as int);
        }
        while i + 1 < self.outputs.len()
            invariant
                me <= i < self.outputs.len(),
                next_connected(self@.outputs, me as int) == next_connected(self@.outputs, i as int),
            decreases self.outputs.len() - i,
        {
            assert(self@.outputs[i + 1] == self.outputs@[i + 1]@);
            if self.outputs[i + 1].connected {
                return Some(i + 1);
            }
            i += 1;
        }
        None
    }

    /// Stage placement relative to the neighbour in direction `dir`.
    pub fn place_relative(&mut self, dir: NeighbourDir, pos: RelativePosition, now: u64)
        ensures
            final(self)@ == op_place(old(self)@, dir, pos, now),
    {
        let target = match self.neighbour(dir) {
            Some(i) => i,
            None => {
                self.flash(String::from_str("No neighbour in that direction"), now);
                return;
            },
        };
        proof {
            lemma_prev_connected(self@.outputs, self.selected_output as int);
            if self.selected_output < self.outputs.len() {
                lemma_next_connected(self@.outputs, self.selected_output as int);
            }
        }
        let ghost j = neighbour_spec(self@, dir)->0;
        assert(0 <= j < self@.outputs.len());
        assert(j == target as int);
        let me = self.sel_name_exec();
        assert(self@.outputs[target as int] == self.outputs@[target as int]@);
        let other = self.outputs[target].name.clone();
        let ghost a = self@;
        assert(other@ == a.outputs[j].name);
        let mut c = self.pending.get_or_default(me.as_str());
        c.relative_to = Some(Some((other.clone(), pos)));
        assert(c@ == (PendingChangeView { relative_to: Some(Some((a.outputs[j].name, pos))), ..cur_staged(a) }));
        self.stage_for(&me, c);
        let mut msg = me.clone();
        push_str(&mut msg, " will be placed ");
        push_str(&mut msg, pos.as_str());
        crate::text::push_char(&mut msg, ' ');
        push_str(&mut msg, other.as_str());
        assert(msg@ =~= sel_name(a) + " will be placed "@ + relative_name(pos) + seq![' '] + a.outputs[j].name);
        self.flash(msg, now);
        assert(self@ == op_place(a, dir, pos, now));
    }

    /// `e`: open the EDID popup with the decoded summary.
    pub fn open_edid(&mut self)
        ensures
            final(self)@ == op_edid(old(self)@),
    {
        let idx = self.selected_output;
        let parsed: Vec<String> = if idx < self.outputs.len() {
            assert(self@.outputs[idx as int] == self.outputs@[idx as int]@);
            match &self.outputs[idx].edid {
                Some(b) => match crate::edid::EdidInfo::parse(b.as_slice()) {
                    Some(info) => info.summary_lines(),
                    None => Vec::new(),
                },
                None => Vec::new(),
            }
        } else {
            Vec::new()
        };
        assert(strs_view(parsed@) =~= edid_lines(self@, idx as int));
        self.modal = Some(ModalKind::EdidParsed(idx, parsed));
    }
}


/// What follows a successful run of xrandr.
#[derive(Debug, PartialEq)]
pub enum AfterRun {
    /// The staged changes were applied; `preview` is their command line.
    Staged { preview: String },
    /// A saved profile was applied from `path`.
    Profile { name: String, path: String, preview: String },
}

pub enum AfterRunView {
    Staged { preview: Seq<char> },
    Profile { name: Seq<char>, path: Seq<char>, preview: Seq<char> },
}

impl View for AfterRun {
    type V = AfterRunView;

    open spec fn view(&self) -> AfterRunView {
        match self {
            AfterRun::Staged { preview } => AfterRunView::Staged { preview: preview@ },
            AfterRun::Profile { name, path, preview } => AfterRunView::Profile {
                name: name@,
                path: path@,
                preview: preview@,
            },
        }
    }
}

/// Outside work the caller performs after a decision.
#[derive(Debug, PartialEq)]
pub enum Action {
    Nothing,
    /// Run `xrandr` with these arguments, then report `Outcome::XrandrRan`.
    RunXrandr { args: Vec<String>, then: AfterRun },
    /// Re-read the outputs, then report `Outcome::Refreshed`.
    Refresh { close_modal: bool },
    /// List the saved profiles, then report `Outcome::ProfilesListed`.
    ListProfiles,
    /// Re-read the outputs before saving profile `name`, then report
    /// `Outcome::SaveQueried`.
    QueryForSave { name: String, input: InputModal },
    /// Write `config` as profile `name`, then report `Outcome::ProfileWritten`.
    WriteProfile { name: String, config: LayoutConfig },
    /// Delete profile `name`, then report `Outcome::ProfileDeleted`.
    DeleteProfile { name: String, profiles: Vec<String>, selected: usize },
    /// Load profile `name`, then report `Outcome::ProfileLoaded`.
    LoadProfile { name: String },
}

pub enum ActionView {
    Nothing,
    RunXrandr { args: Seq<Seq<char>>, then: AfterRunView },
    Refresh { close_modal: bool },
    ListProfiles,
    QueryForSave { name: Seq<char>, input: InputModalView },
    WriteProfile { name: Seq<char>, config: LayoutConfigView },
    DeleteProfile { name: Seq<char>, profiles: Seq<Seq<char>>, selected: usize },
    LoadProfile { name: Seq<char> },
}

impl View for Action {
    type V = ActionView;

    open spec fn view(&self) -> ActionView {
        match self {
            Action::Nothing => ActionView::Nothing,
            Action::RunXrandr { args, then } => ActionView::RunXrandr {
                args: strs_view(args@),
                then: then@,
            },
            Action::Refresh { close_modal } => ActionView::Refresh { close_modal: *close_modal },
            Action::ListProfiles => ActionView::ListProfiles,
            Action::QueryForSave { name, input } => ActionView::QueryForSave {
                name: name@,
                input: input@,
            },
            Action::WriteProfile { name, config } => ActionView::WriteProfile {
                name: name@,
                config: config@,
            },
            Action::DeleteProfile { name, profiles, selected } => ActionView::DeleteProfile {
                name: name@,
                profiles: strs_view(profiles@),
                selected: *selected,
            },
            Action::LoadProfile { name } => ActionView::LoadProfile { name: name@ },
        }
    }
}

/// What the caller reports back after performing an `Action`.
#[derive(Debug, PartialEq)]
#[allow(inconsistent_fields)]
pub enum Outcome {
    XrandrRan { then: AfterRun, result: Result<(), String> },
    Refreshed { close_modal: bool, result: Result<Vec<Output>, String> },
    ProfilesListed(Result<Vec<String>, String>),
    SaveQueried { name: String, input: InputModal, result: Result<Vec<Output>, String> },
    /// The path written, or the error.
    ProfileWritten(Result<String, String>),
    ProfileDeleted { name: String, profiles: Vec<String>, selected: usize, result: Result<(), String> },
    /// The profile path, and the layout read (`None` when the file is gone).
    ProfileLoaded { name: String, path: String, result: Result<Option<LayoutConfig>, String> },
}

#[allow(inconsistent_fields)]
pub enum OutcomeView {
    XrandrRan { then: AfterRunView, result: Result<(), Seq<char>> },
    Refreshed { close_modal: bool, result: Result<Seq<OutputView>, Seq<char>> },
    ProfilesListed(Result<Seq<Seq<char>>, Seq<char>>),
    SaveQueried { name: Seq<char>, input: InputModalView, result: Result<Seq<OutputView>, Seq<char>> },
    ProfileWritten(Result<Seq<char>, Seq<char>>),
    ProfileDeleted {
        name: Seq<char>,
        profiles: Seq<Seq<char>>,
        selected: usize,
        result: Result<(), Seq<char>>,
    },
    ProfileLoaded {
        name: Seq<char>,
        path: Seq<char>,
        result: Result<Option<LayoutConfigView>, Seq<char>>,
    },
}

pub open spec fn err_view<T>(r: Result<T, String>) -> Seq<char> {
    match r {
        Err(e) => e@,
        Ok(_) => Seq::empty(),
    }
}

impl View for Outcome {
    type V = OutcomeView;

    open spec fn view(&self) -> OutcomeView {
        match self {
            Outcome::XrandrRan { then, result } => OutcomeView::XrandrRan {
                then: then@,
                result: match result {
                    Ok(_) => Ok(()),
                    Err(e) => Err(e@),
                },
            },
            Outcome::Refreshed { close_modal, result } => OutcomeView::Refreshed {
                close_modal: *close_modal,
                result: match result {
                    Ok(v) => Ok(outputs_view(v@)),
                    Err(e) => Err(e@),
                },
            },
            Outcome::ProfilesListed(r) => OutcomeView::ProfilesListed(
                match r {
                    Ok(v) => Ok(strs_view(v@)),
                    Err(e) => Err(e@),
                },
            ),
            Outcome::SaveQueried { name, input, result } => OutcomeView::SaveQueried {
                name: name@,
                input: input@,
                result: match result {
                    Ok(v) => Ok(outputs_view(v@)),
                    Err(e) => Err(e@),
                },
            },
            Outcome::ProfileWritten(r) => OutcomeView::ProfileWritten(
                match r {
                    Ok(p) => Ok(p@),
                    Err(e) => Err(e@),
                },
            ),
            Outcome::ProfileDeleted { name, profiles, selected, result } => OutcomeView::ProfileDeleted {
                name: name@,
                profiles: strs_view(profiles@),
                selected: *selected,
                result: match result {
                    Ok(_) => Ok(()),
                    Err(e) => Err(e@),
                },
            },
            Outcome::ProfileLoaded { name, path, result } => OutcomeView::ProfileLoaded {
                name: name@,
                path: path@,
                result: match result {
                    Ok(Some(c)) => Ok(Some(c@)),
                    Ok(None) => Ok(None),
                    Err(e) => Err(e@),
                },
            },
        }
    }
}

/// `a` with `e` shown in an error modal.
pub open spec fn with_error(a: AppView, e: Seq<char>) -> AppView {
    AppView { modal: Some(ModalView::Error(e)), ..a }
}

/// `a`: apply every staged change in one xrandr call, or say there is
/// nothing to apply when no visible change is staged.
pub open spec fn op_apply_pending(a: AppView, now: u64) -> (AppView, ActionView) {
    if !has_pending_spec(a.pending) {
        (flashed(a, "No pending changes to apply"@, now), ActionView::Nothing)
    } else {
        let args = command_args(a.pending);
        (a, ActionView::RunXrandr { args, then: AfterRunView::Staged { preview: preview_spec(args) } })
    }
}

/// Each output with its staged change merged in.
pub open spec fn snapshot(a: AppView) -> Seq<OutputView> {
    a.outputs.map_values(|o: OutputView| materialize_spec(o, staged(a.pending, o.name)))
}

/// Index of the first output named `n`, or `outs.len()`.
pub open spec fn output_index_from(outs: Seq<OutputView>, n: Seq<char>, i: int) -> int
    decreases outs.len() - i,
{
    if 0 <= i < outs.len() && outs[i].name != n {
        output_index_from(outs, n, i + 1)
    } else {
        i
    }
}

/// An output of that name is known and not connected.
pub open spec fn is_disconnected(outs: Seq<OutputView>, n: Seq<char>) -> bool {
    let i = output_index_from(outs, n, 0);
    0 <= i < outs.len() && !outs[i].connected
}

/// The staged changes that apply a saved profile: one per saved output,
/// except those of outputs that are currently disconnected.
pub open spec fn profile_pending(ps: Seq<PersistedOutputView>, outs: Seq<OutputView>) -> PendingSeq
    decreases ps.len(),
{
    if ps.len() == 0 {
        Seq::empty()
    } else {
        let prev = profile_pending(ps.drop_last(), outs);
        let p = ps.last();
        if is_disconnected(outs, p.name) {
            prev
        } else {
            insert_spec(prev, p.name, to_pending_spec(p))
        }
    }
}

/// A string as `{:?}` shows it for the ASCII range: quoted, with `"`, `\`
/// and control characters escaped.
pub open spec fn str_debug(s: Seq<char>) -> Seq<char> {
    seq!['"'] + str_debug_body(s) + seq!['"']
}

pub open spec fn char_escape(c: char) -> Seq<char> {
    let u = c as u32;
    if c == '\0' {
        seq!['\\', '0']
    } else if c == '\t' {
        seq!['\\', 't']
    } else if c == '\n' {
        seq!['\\', 'n']
    } else if c == '\r' {
        seq!['\\', 'r']
    } else if c == '"' {
        seq!['\\', '"']
    } else if c == '\\' {
        seq!['\\', '\\']
    } else if u < 0x20 || u == 0x7f {
        seq!['\\', 'u', '{'] + crate::num::hex(u as nat) + seq!['}']
    } else {
        seq![c]
    }
}

pub open spec fn str_debug_body(s: Seq<char>) -> Seq<char>
    decreases s.len(),
{
    if s.len() == 0 {
        Seq::empty()
    } else {
        str_debug_body(s.drop_last()) + char_escape(s.last())
    }
}

/// The state after an applied profile: nothing staged, its command line
/// kept, its name shown, a message, and a refresh that closes the modal.
pub open spec fn profile_applied(a: AppView, name: Seq<char>, path: Seq<char>, preview: Seq<char>, now: u64) -> (AppView, ActionView) {
    (
        flashed(
            AppView {
                pending: Seq::empty(),
                last_preview: preview,
                last_applied_profile: Some(name),
                ..a
            },
            "Applied profile "@ + name + " ("@ + path + ")"@,
            now,
        ),
        ActionView::Refresh { close_modal: true },
    )
}

/// The state and next action after an outcome is reported.
pub open spec fn complete_spec(a: AppView, o: OutcomeView, now: u64) -> (AppView, ActionView) {
    match o {
        OutcomeView::XrandrRan { then, result } => match result {
            Err(e) => (with_error(a, e), ActionView::Nothing),
            Ok(_) => match then {
                AfterRunView::Staged { preview } => (
                    flashed(
                        AppView { last_preview: preview, pending: Seq::empty(), ..a },
                        "Applied successfully"@,
                        now,
                    ),
                    ActionView::Refresh { close_modal: false },
                ),
                AfterRunView::Profile { name, path, preview } => profile_applied(a, name, path, preview, now),
            },
        },
        OutcomeView::Refreshed { close_modal, result } => match result {
            Err(e) => (with_error(a, e), ActionView::Nothing),
            Ok(outs) => {
                let b = refreshed(a, outs);
                (if close_modal {
                    AppView { modal: None, ..b }
                } else {
                    b
                }, ActionView::Nothing)
            },
        },
        OutcomeView::ProfilesListed(result) => match result {
            Err(e) => (with_error(a, e), ActionView::Nothing),
            Ok(names) => if names.len() == 0 {
                (flashed(a, "No saved profiles yet \u{2013} press W to export one"@, now), ActionView::Nothing)
            } else {
                (AppView { modal: Some(ModalView::ProfileList { profiles: names, selected: 0 }), ..a }, ActionView::Nothing)
            },
        },
        OutcomeView::SaveQueried { name, input, result } => match result {
            Err(e) => (with_error(a, "refreshing xrandr state before save failed: "@ + e), ActionView::Nothing),
            Ok(fresh) => {
                let b = AppView { outputs: fresh, ..a };
                match validate_spec(name) {
                    Err(e) => (
                        AppView {
                            modal: Some(ModalView::Input(InputModalView { error: Some(name_error_message(e)), ..input })),
                            ..b
                        },
                        ActionView::Nothing,
                    ),
                    Ok(_) => (
                        AppView { modal: None, ..b },
                        ActionView::WriteProfile { name, config: from_outputs_spec(snapshot(b)) },
                    ),
                }
            },
        },
        OutcomeView::ProfileWritten(result) => match result {
            Ok(path) => (flashed(a, "Profile saved to "@ + path, now), ActionView::Nothing),
            Err(e) => (with_error(a, e), ActionView::Nothing),
        },
        OutcomeView::ProfileDeleted { name, profiles, selected, result } => match result {
            Err(e) => (with_error(a, e), ActionView::Nothing),
            Ok(_) => {
                let names = if selected < profiles.len() {
                    profiles.remove(selected as int)
                } else {
                    profiles
                };
                let msg = "Deleted profile "@ + name;
                if names.len() == 0 {
                    (flashed(AppView { modal: None, ..a }, msg, now), ActionView::Nothing)
                } else {
                    let n = if selected < names.len() {
                        selected
                    } else {
                        (names.len() - 1) as usize
                    };
                    (
                        flashed(AppView { modal: Some(ModalView::ProfileList { profiles: names, selected: n }), ..a }, msg, now),
                        ActionView::Nothing,
                    )
                }
            },
        },
        OutcomeView::ProfileLoaded { name, path, result } => match result {
            Err(e) => (with_error(a, e), ActionView::Nothing),
            Ok(None) => (
                with_error(a, "profile "@ + str_debug(name) + " disappeared (was: "@ + path + ")"@),
                ActionView::Nothing,
            ),
            Ok(Some(cfg)) => {
                let p = profile_pending(cfg.outputs, a.outputs);
                if p.len() == 0 {
                    profile_applied(a, name, path, Seq::empty(), now)
                } else {
                    let args = command_args(p);
                    (a, ActionView::RunXrandr {
                        args,
                        then: AfterRunView::Profile { name, path, preview: preview_spec(args) },
                    })
                }
            },
        },
    }
}


fn push_escaped(s: &mut String, c: char)
    ensures
        final(s)@ == old(s)@ + char_escape(c),
{
    let u = c as u32;
    let ghost start = s@;
    if c == '\0' {
        crate::text::push_char(s, '\\');
        crate::text::push_char(s, '0');
    } else if c == '\t' {
        crate::text::push_char(s, '\\');
        crate::text::push_char(s, 't');
    } else if c == '\n' {
        crate::text::push_char(s, '\\');
        crate::text::push_char(s, 'n');
    } else if c == '\r' {
        crate::text::push_char(s, '\\');
        crate::text::push_char(s, 'r');
    } else if c == '"' {
        crate::text::push_char(s, '\\');
        crate::text::push_char(s, '"');
    } else if c == '\\' {
        crate::text::push_char(s, '\\');
        crate::text::push_char(s, '\\');
    } else if u < 0x20 || u == 0x7f {
        crate::text::push_char(s, '\\');
        crate::text::push_char(s, 'u');
        crate::text::push_char(s, '{');
        crate::num::push_hex(s, u as u64);
        crate::text::push_char(s, '}');
    } else {
        crate::text::push_char(s, c);
    }
    assert(s@ =~= start + char_escape(c));
}

/// Appends `t` quoted and escaped as `{:?}` shows it.
pub fn push_str_debug(s: &mut String, t: &str)
    ensures
        final(s)@ == old(s)@ + str_debug(t@),
{
    let c = crate::text::chars_of(t);
    crate::text::push_char(s, '"');
    let ghost start = s@;
    let mut i: usize = 0;
    assert(c@.take(0) =~= Seq::<char>::empty());
    assert(start + str_debug_body(Seq::empty()) =~= start);
    while i < c.len()
        invariant
            i <= c.len(),
            s@ == start + str_debug_body(c@.take(i as int)),
        decreases c.len() - i,
    {
        push_escaped(s, c[i]);
        assert(c@.take(i + 1).drop_last() =~= c@.take(i as int));
        i += 1;
    }
    assert(c@.take(c.len() as int) =~= c@);
    crate::text::push_char(s, '"');
    assert(s@ =~= old(s)@ + str_debug(t@));
}

fn output_index(outs: &Vec<Output>, n: &String) -> (i: usize)
    ensures
        i == output_index_from(outputs_view(outs@), n@, 0),
        i <= outs.len(),
{
    let mut i: usize = 0;
    while i < outs.len()
        invariant
            i <= outs.len(),
            output_index_from(outputs_view(outs@), n@, 0) == output_index_from(outputs_view(outs@), n@, i as int),
        decreases outs.len() - i,
    {
        assert(outputs_view(outs@)[i as int] == outs@[i as int]@);
        if outs[i].name == *n {
            return i;
        }
        i += 1;
    }
    i
}

/// The staged changes that apply the saved outputs `ps` to `outs`.
pub fn build_profile_pending(ps: &Vec<PersistedOutput>, outs: &Vec<Output>) -> (m: PendingMap)
    ensures
        m@ == profile_pending(persisted_view(ps@), outputs_view(outs@)),
{
    let ghost pv = persisted_view(ps@);
    let mut m = PendingMap::new();
    let mut i: usize = 0;
    assert(pv.take(0) =~= Seq::<PersistedOutputView>::empty());
    while i < ps.len()
        invariant
            i <= ps.len(),
            pv == persisted_view(ps@),
            m@ == profile_pending(pv.take(i as int), outputs_view(outs@)),
        decreases ps.len() - i,
    {
        let p = &ps[i];
        proof {
            assert(pv.take(i + 1).drop_last() =~= pv.take(i as int));
            assert(pv.take(i + 1).last() == p@);
        }
        let k = output_index(outs, &p.name);
        let skip = k < outs.len() && !outs[k].connected;
        proof {
            if k < outs.len() {
                assert(outputs_view(outs@)[k as int] == outs@[k as int]@);
            }
        }
        if !skip {
            m.insert(p.name.clone(), to_pending(p));
        }
        i += 1;
    }
    assert(pv.take(ps.len() as int) =~= pv);
    m
}

impl App {
    /// `a`: apply every staged change (see `op_apply_pending`).
    pub fn apply_pending(&mut self, now: u64) -> (act: Action)
        ensures
            (final(self)@, act@) == op_apply_pending(old(self)@, now),
    {
        if !self.has_pending() {
            self.flash(String::from_str("No pending changes to apply"), now);
            return Action::Nothing;
        }
        let args = build_command(&self.pending);
        let preview = preview_command(&self.pending);
        Action::RunXrandr { args, then: AfterRun::Staged { preview } }
    }

    /// Each output with its staged change merged in.
    pub fn snapshot(&self) -> (v: Vec<Output>)
        ensures
            outputs_view(v@) == snapshot(self@),
    {
        let mut v: Vec<Output> = Vec::new();
        let mut k: usize = 0;
        while k < self.outputs.len()
            invariant
                k <= self.outputs.len(),
                outputs_view(v@) == snapshot(self@).take(k as int),
            decreases self.outputs.len() - k,
        {
            let o = &self.outputs[k];
            let c = self.pending.get_or_default(o.name.as_str());
            let m = materialize(o, &c);
            assert(self@.outputs[k as int] == o@);
            let ghost before = outputs_view(v@);
            v.push(m);
            assert(outputs_view(v@) =~= before.push(m@));
            assert(snapshot(self@).take(k + 1) =~= snapshot(self@).take(k as int).push(m@));
            k += 1;
        }
        assert(snapshot(self@).take(self.outputs.len() as int) =~= snapshot(self@));
        v
    }
}


impl App {
    fn show_error(&mut self, e: String)
        ensures
            final(self)@ == with_error(old(self)@, e@),
    {
        self.modal = Some(ModalKind::Error(e));
    }

    fn finish_profile(&mut self, name: String, path: String, preview: String, now: u64) -> (act: Action)
        ensures
            (final(self)@, act@) == profile_applied(old(self)@, name@, path@, preview@, now),
    {
        self.pending.clear();
        self.last_preview = preview;
        let mut msg = String::from_str("Applied profile ");
        push_str(&mut msg, name.as_str());
        push_str(&mut msg, " (");
        push_str(&mut msg, path.as_str());
        push_str(&mut msg, ")");
        self.last_applied_profile = Some(name);
        self.flash(msg, now);
        Action::Refresh { close_modal: true }
    }

    fn complete_run(&mut self, then: AfterRun, result: Result<(), String>, now: u64) -> (act: Action)
        ensures
            (final(self)@, act@) == complete_spec(
                old(self)@,
                OutcomeView::XrandrRan {
                    then: then@,
                    result: match result {
                        Ok(_) => Ok(()),
                        Err(e) => Err(e@),
                    },
                },
                now,
            ),
    {
        match result {
            Err(e) => {
                self.show_error(e);
                Action::Nothing
            },
            Ok(_) => match then {
                AfterRun::Staged { preview } => {
                    self.last_preview = preview;
                    self.pending.clear();
                    self.flash(String::from_str("Applied successfully"), now);
                    Action::Refresh { close_modal: false }
                },
                AfterRun::Profile { name, path, preview } => self.finish_profile(name, path, preview, now),
            },
        }
    }

    fn complete_refresh(&mut self, close_modal: bool, result: Result<Vec<Output>, String>, now: u64) -> (act: Action)
        ensures
            (final(self)@, act@) == complete_spec(
                old(self)@,
                OutcomeView::Refreshed {
                    close_modal,
                    result: match result {
                        Ok(v) => Ok(outputs_view(v@)),
                        Err(e) => Err(e@),
                    },
                },
                now,
            ),
    {
        match result {
            Err(e) => {
                self.show_error(e);
                Action::Nothing
            },
            Ok(outs) => {
                self.refresh(outs);
                if close_modal {
                    self.modal = None;
                }
                Action::Nothing
            },
        }
    }

    fn complete_list(&mut self, result: Result<Vec<String>, String>, now: u64) -> (act: Action)
        ensures
            (final(self)@, act@) == complete_spec(
                old(self)@,
                OutcomeView::ProfilesListed(
                    match result {
                        Ok(v) => Ok(strs_view(v@)),
                        Err(e) => Err(e@),
                    },
                ),
                now,
            ),
    {
        match result {
            Err(e) => {
                self.show_error(e);
                Action::Nothing
            },
            Ok(names) => {
                if names.len() == 0 {
                    self.flash(String::from_str("No saved profiles yet \u{2013} press W to export one"), now);
                } else {
                    self.modal = Some(ModalKind::ProfileList { profiles: names, selected: 0 });
                }
                Action::Nothing
            },
        }
    }

    fn complete_save_queried(&mut self, name: String, input: InputModal, result: Result<Vec<Output>, String>, now: u64) -> (act: Action)
        ensures
            (final(self)@, act@) == complete_spec(
                old(self)@,
                OutcomeView::SaveQueried {
                    name: name@,
                    input: input@,
                    result: match result {
                        Ok(v) => Ok(outputs_view(v@)),
                        Err(e) => Err(e@),
                    },
                },
                now,
            ),
    {
        match result {
            Err(e) => {
                let mut msg = String::from_str("refreshing xrandr state before save failed: ");
                push_str(&mut msg, e.as_str());
                self.modal = Some(ModalKind::Error(msg));
                Action::Nothing
            },
            Ok(fresh) => {
                self.outputs = fresh;
                match validate_profile_name(name.as_str()) {
                    Err(e) => {
                        let mut input = input;
                        input.error = Some(e.message());
                        self.modal = Some(ModalKind::Input(input));
                        Action::Nothing
                    },
                    Ok(_) => {
                        self.modal = None;
                        let snap = self.snapshot();
                        let config = LayoutConfig::from_outputs(snap.as_slice());
                        Action::WriteProfile { name, config }
                    },
                }
            },
        }
    }

    fn complete_deleted(&mut self, name: String, profiles: Vec<String>, selected: usize, result: Result<(), String>, now: u64) -> (act: Action)
        ensures
            (final(self)@, act@) == complete_spec(
                old(self)@,
                OutcomeView::ProfileDeleted {
                    name: name@,
                    profiles: strs_view(profiles@),
                    selected,
                    result: match result {
                        Ok(_) => Ok(()),
                        Err(e) => Err(e@),
                    },
                },
                now,
            ),
    {
        match result {
            Err(e) => {
                self.show_error(e);
                Action::Nothing
            },
            Ok(_) => {
                let ghost pv = strs_view(profiles@);
                let mut names = profiles;
                if selected < names.len() {
                    let _ = names.remove(selected);
                    assert(strs_view(names@) =~= pv.remove(selected as int));
                }
                let mut msg = String::from_str("Deleted profile ");
                push_str(&mut msg, name.as_str());
                if names.len() == 0 {
                    self.modal = None;
                } else {
                    let n = if selected < names.len() {
                        selected
                    } else {
                        names.len() - 1
                    };
                    self.modal = Some(ModalKind::ProfileList { profiles: names, selected: n });
                }
                self.flash(msg, now);
                Action::Nothing
            },
        }
    }

    fn complete_loaded(&mut self, name: String, path: String, result: Result<Option<LayoutConfig>, String>, now: u64) -> (act: Action)
        ensures
            (final(self)@, act@) == complete_spec(
                old(self)@,
                OutcomeView::ProfileLoaded {
                    name: name@,
                    path: path@,
                    result: match result {
                        Ok(Some(c)) => Ok(Some(c@)),
                        Ok(None) => Ok(None),
                        Err(e) => Err(e@),
                    },
                },
                now,
            ),
    {
        match result {
            Err(e) => {
                self.show_error(e);
                Action::Nothing
            },
            Ok(None) => {
                let mut msg = String::from_str("profile ");
                push_str_debug(&mut msg, name.as_str());
                push_str(&mut msg, " disappeared (was: ");
                push_str(&mut msg, path.as_str());
                push_str(&mut msg, ")");
                self.show_error(msg);
                Action::Nothing
            },
            Ok(Some(cfg)) => {
                let p = build_profile_pending(&cfg.outputs, &self.outputs);
                if p.is_empty() {
                    let r = self.finish_profile(name, path, String::new(), now);
                    r
                } else {
                    let args = build_command(&p);
                    let preview = preview_command(&p);
                    Action::RunXrandr { args, then: AfterRun::Profile { name, path, preview } }
                }
            },
        }
    }

    /// Take in the result of an `Action` and decide what follows.
    pub fn complete(&mut self, outcome: Outcome, now: u64) -> (act: Action)
        ensures
            (final(self)@, act@) == complete_spec(old(self)@, outcome@, now),
    {
        match outcome {
            Outcome::XrandrRan { then, result } => self.complete_run(then, result, now),
            Outcome::Refreshed { close_modal, result } => self.complete_refresh(close_modal, result, now),
            Outcome::ProfilesListed(result) => self.complete_list(result, now),
            Outcome::SaveQueried { name, input, result } => self.complete_save_queried(name, input, result, now),
            Outcome::ProfileWritten(result) => match result {
                Ok(path) => {
                    let mut msg = String::from_str("Profile saved to ");
                    push_str(&mut msg, path.as_str());
                    self.flash(msg, now);
                    Action::Nothing
                },
                Err(e) => {
                    self.modal = Some(ModalKind::Error(e));
                    Action::Nothing
                },
            },
            Outcome::ProfileDeleted { name, profiles, selected, result } => self.complete_deleted(name, profiles, selected, result, now),
            Outcome::ProfileLoaded { name, path, result } => self.complete_loaded(name, path, result, now),
        }
    }
}


/// What `f32::from_str`'s error says: an empty string, or anything else.
pub open spec fn float_error(s: Seq<char>) -> Seq<char> {
    if s.len() == 0 {
        "cannot parse float from empty string"@
    } else {
        "invalid float literal"@
    }
}

/// A number as the scale and gamma dialogs read it: float text in
/// millionths (see `parse_float_micro_spec`).
pub open spec fn read_factor(s: Seq<char>) -> Option<i64> {
    crate::float_text::parse_float_micro_spec(s)
}

pub open spec fn in_range(v: i64, lo: int, hi: int) -> bool {
    lo <= v <= hi
}

/// Whether some output is named `n`.
pub open spec fn has_output_named(outs: Seq<OutputView>, n: Seq<char>) -> bool {
    exists|i: int| 0 <= i < outs.len() && #[trigger] outs[i].name == n
}

/// The effect of submitting an input dialog: the state (a change is
/// always staged for the selected output, possibly empty), and either the
/// action to perform or the error to show in the dialog.
pub open spec fn submit_spec(a: AppView, input: InputModalView, now: u64) -> (AppView, Result<ActionView, Seq<char>>) {
    if !has_selection(a) {
        (a, Err("no output selected"@))
    } else {
        let name = sel_name(a);
        let c = cur_staged(a);
        let b = with_staged(a, c);
        let buf = crate::text::trim(input.buffer);
        let done = |c2: PendingChangeView| (flashed(with_staged(a, c2), name + " updated"@, now), Ok(ActionView::Nothing));
        if buf.len() == 0 {
            (b, Err("empty input"@))
        } else {
            match input.on_submit_kind {
                InputKind::ParseF32 => match read_factor(buf) {
                    Some(_) => done(c),
                    None => (b, Err("not a number"@)),
                },
                InputKind::ParseScale => match crate::text::split_once(buf, 'x') {
                    Some((xs, ys)) => match (read_factor(xs), read_factor(ys)) {
                        (None, _) => (b, Err("invalid x factor"@)),
                        (Some(_), None) => (b, Err("invalid y factor"@)),
                        (Some(sx), Some(sy)) => if in_range(sx, 100_000, 8_000_000) && in_range(sy, 100_000, 8_000_000) {
                            done(PendingChangeView { scale: Some((sx, sy)), ..c })
                        } else {
                            (b, Err("scale must be in 0.1..=8.0"@))
                        },
                    },
                    None => match read_factor(buf) {
                        None => (b, Err("invalid scale"@)),
                        Some(v) => if in_range(v, 100_000, 8_000_000) {
                            done(PendingChangeView { scale: Some((v, v)), ..c })
                        } else {
                            (b, Err("scale must be in 0.1..=8.0"@))
                        },
                    },
                },
                InputKind::ParseGamma => {
                    let parts = crate::text::split_char(buf, ':');
                    if parts.len() != 3 {
                        (b, Err("gamma must be R:G:B"@))
                    } else {
                        match (read_factor(parts[0]), read_factor(parts[1]), read_factor(parts[2])) {
                            (None, _, _) => (b, Err(float_error(parts[0]))),
                            (Some(_), None, _) => (b, Err(float_error(parts[1]))),
                            (Some(_), Some(_), None) => (b, Err(float_error(parts[2]))),
                            (Some(r), Some(g), Some(bl)) => if in_range(r, 100_000, 10_000_000) && in_range(g, 100_000, 10_000_000) && in_range(bl, 100_000, 10_000_000) {
                                done(PendingChangeView { gamma: Some((r, g, bl)), ..c })
                            } else {
                                (b, Err("gamma components must be in 0.1..=10.0"@))
                            },
                        }
                    }
                },
                InputKind::ParseBrightness => match read_factor(buf) {
                    None => (b, Err("invalid brightness"@)),
                    Some(v) => if in_range(v, 0, 10_000_000) {
                        done(PendingChangeView { brightness: Some(v), ..c })
                    } else {
                        (b, Err("brightness must be in 0.0..=10.0"@))
                    },
                },
                InputKind::ParseName => if !has_output_named(a.outputs, buf) {
                    (b, Err("unknown output: "@ + buf))
                } else {
                    done(PendingChangeView { relative_to: Some(Some((buf, RelativePosition::SameAs))), ..c })
                },
                InputKind::ParsePosition => match crate::text::split_once(buf, 'x') {
                    None => (b, Err("expected <x>x<y>"@)),
                    Some((xs, ys)) => match (crate::num::parse_i32_spec(xs), crate::num::parse_i32_spec(ys)) {
                        (None, _) => (b, Err("invalid x"@)),
                        (Some(_), None) => (b, Err("invalid y"@)),
                        (Some(x), Some(y)) => done(PendingChangeView { position: Some((x, y)), relative_to: Some(None), ..c }),
                    },
                },
                InputKind::ParsePanning => match crate::text::split_once(buf, 'x') {
                    None => (b, Err("expected <w>x<h>"@)),
                    Some((ws, hs)) => match (crate::num::parse_u32_spec(ws), crate::num::parse_u32_spec(hs)) {
                        (None, _) => (b, Err("invalid width"@)),
                        (Some(_), None) => (b, Err("invalid height"@)),
                        (Some(w), Some(h)) => if w == 0 || h == 0 {
                            (b, Err("panning dimensions must be > 0"@))
                        } else {
                            done(PendingChangeView { panning: Some((w, h)), ..c })
                        },
                    },
                },
                InputKind::ParseProfileName => (b, Ok(ActionView::QueryForSave { name: buf, input })),
            }
        }
    }
}

fn read_factor_exec(s: &[char]) -> (r: Option<i64>)
    ensures
        r == read_factor(s@),
{
    crate::float_text::parse_float_micro(s)
}

fn float_error_exec(s: &[char]) -> (m: String)
    ensures
        m@ == float_error(s@),
{
    if s.len() == 0 {
        String::from_str("cannot parse float from empty string")
    } else {
        String::from_str("invalid float literal")
    }
}

impl App {
    fn has_output_named_exec(&self, n: &[char]) -> (b: bool)
        ensures
            b == has_output_named(self@.outputs, n@),
    {
        let mut i: usize = 0;
        while i < self.outputs.len()
            invariant
                i <= self.outputs.len(),
                forall|k: int| 0 <= k < i ==> #[trigger] self@.outputs[k].name != n@,
            decreases self.outputs.len() - i,
        {
            assert(self@.outputs[i as int] == self.outputs@[i as int]@);
            let c = crate::text::chars_of(self.outputs[i].name.as_str());
            if crate::text::chars_eq(c.as_slice(), n) {
                assert(self@.outputs[i as int].name == n@);
                return true;
            }
            i += 1;
        }
        false
    }

    fn submit_done(&mut self, name: &String, c: PendingChange, now: u64) -> (r: Result<Action, String>)
        ensures
            final(self)@ == flashed(
                AppView { pending: insert_spec(old(self)@.pending, name@, c@), ..old(self)@ },
                name@ + " updated"@,
                now,
            ),
            r matches Ok(act) && act@ == ActionView::Nothing,
    {
        self.stage_for(name, c);
        let mut msg = name.clone();
        push_str(&mut msg, " updated");
        self.flash(msg, now);
        Ok(Action::Nothing)
    }

    /// Submit an input dialog (see `submit_spec`).
    pub fn submit_input(&mut self, input: &InputModal, now: u64) -> (r: Result<Action, String>)
        ensures
            (final(self)@, match r {
                Ok(act) => Ok(act@),
                Err(e) => Err(e@),
            }) == submit_spec(old(self)@, input@, now),
    {
        if self.selected_output >= self.outputs.len() {
            return Err(String::from_str("no output selected"));
        }
        let name = self.sel_name_exec();
        let ghost a = self@;
        self.pending.keys_are_unique();
        let c = self.pending.get_or_default(name.as_str());
        let c_keep = c.clone();
        self.stage_for(&name, c_keep);
        proof {
            crate::pending::law_insert_lookup(a.pending, name@, c@, name@);
            assert forall|c2: PendingChangeView| insert_spec(insert_spec(a.pending, name@, c@), name@, c2)
                == #[trigger] insert_spec(a.pending, name@, c2) by {
                crate::pending::law_insert_twice(a.pending, name@, c@, c2);
            }
        }
        let raw = crate::text::chars_of(input.buffer.as_str());
        let buf = crate::text::trim_chars(raw.as_slice());
        if buf.len() == 0 {
            return Err(String::from_str("empty input"));
        }
        let mut c = c;
        match input.on_submit_kind {
            InputKind::ParseF32 => match read_factor_exec(buf.as_slice()) {
                Some(_) => self.submit_done(&name, c, now),
                None => Err(String::from_str("not a number")),
            },
            InputKind::ParseScale => match crate::text::split_once_char(buf.as_slice(), 'x') {
                Some((xs, ys)) => match (read_factor_exec(xs.as_slice()), read_factor_exec(ys.as_slice())) {
                    (None, _) => Err(String::from_str("invalid x factor")),
                    (Some(_), None) => Err(String::from_str("invalid y factor")),
                    (Some(sx), Some(sy)) => if 100_000 <= sx && sx <= 8_000_000 && 100_000 <= sy && sy <= 8_000_000 {
                        c.scale = Some((sx, sy));
                        self.submit_done(&name, c, now)
                    } else {
                        Err(String::from_str("scale must be in 0.1..=8.0"))
                    },
                },
                None => match read_factor_exec(buf.as_slice()) {
                    None => Err(String::from_str("invalid scale")),
                    Some(v) => if 100_000 <= v && v <= 8_000_000 {
                        c.scale = Some((v, v));
                        self.submit_done(&name, c, now)
                    } else {
                        Err(String::from_str("scale must be in 0.1..=8.0"))
                    },
                },
            },
            InputKind::ParseGamma => {
                let parts = crate::text::split_on_char(buf.as_slice(), ':');
                if parts.len() != 3 {
                    return Err(String::from_str("gamma must be R:G:B"));
                }
                assert(crate::text::views(parts@)[0] == parts@[0]@);
                assert(crate::text::views(parts@)[1] == parts@[1]@);
                assert(crate::text::views(parts@)[2] == parts@[2]@);
                let r = match read_factor_exec(parts[0].as_slice()) {
                    Some(v) => v,
                    None => {
                        return Err(float_error_exec(parts[0].as_slice()));
                    },
                };
                let g = match read_factor_exec(parts[1].as_slice()) {
                    Some(v) => v,
                    None => {
                        return Err(float_error_exec(parts[1].as_slice()));
                    },
                };
                let bl = match read_factor_exec(parts[2].as_slice()) {
                    Some(v) => v,
                    None => {
                        return Err(float_error_exec(parts[2].as_slice()));
                    },
                };
                if 100_000 <= r && r <= 10_000_000 && 100_000 <= g && g <= 10_000_000 && 100_000 <= bl && bl <= 10_000_000 {
                    c.gamma = Some((r, g, bl));
                    self.submit_done(&name, c, now)
                } else {
                    Err(String::from_str("gamma components must be in 0.1..=10.0"))
                }
            },
            InputKind::ParseBrightness => match read_factor_exec(buf.as_slice()) {
                None => Err(String::from_str("invalid brightness")),
                Some(v) => if 0 <= v && v <= 10_000_000 {
                    c.brightness = Some(v);
                    self.submit_done(&name, c, now)
                } else {
                    Err(String::from_str("brightness must be in 0.0..=10.0"))
                },
            },
            InputKind::ParseName => {
                if !self.has_output_named_exec(buf.as_slice()) {
                    let mut m = String::from_str("unknown output: ");
                    crate::text::push_chars(&mut m, buf.as_slice());
                    return Err(m);
                }
                c.relative_to = Some(Some((crate::text::string_of(buf.as_slice()), RelativePosition::SameAs)));
                self.submit_done(&name, c, now)
            },
            InputKind::ParsePosition => match crate::text::split_once_char(buf.as_slice(), 'x') {
                None => Err(String::from_str("expected <x>x<y>")),
                Some((xs, ys)) => match (crate::num::parse_i32(xs.as_slice()), crate::num::parse_i32(ys.as_slice())) {
                    (None, _) => Err(String::from_str("invalid x")),
                    (Some(_), None) => Err(String::from_str("invalid y")),
                    (Some(x), Some(y)) => {
                        c.position = Some((x, y));
                        c.relative_to = Some(None);
                        self.submit_done(&name, c, now)
                    },
                },
            },
            InputKind::ParsePanning => match crate::text::split_once_char(buf.as_slice(), 'x') {
                None => Err(String::from_str("expected <w>x<h>")),
                Some((ws, hs)) => match (crate::num::parse_u32(ws.as_slice()), crate::num::parse_u32(hs.as_slice())) {
                    (None, _) => Err(String::from_str("invalid width")),
                    (Some(_), None) => Err(String::from_str("invalid height")),
                    (Some(w), Some(h)) => if w == 0 || h == 0 {
                        Err(String::from_str("panning dimensions must be > 0"))
                    } else {
                        c.panning = Some((w, h));
                        self.submit_done(&name, c, now)
                    },
                },
            },
            InputKind::ParseProfileName => Ok(Action::QueryForSave {
                name: crate::text::string_of(buf.as_slice()),
                input: input.clone(),
            }),
        }
    }
}

} // verus!
