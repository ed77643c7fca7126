//! Key presses: what each key does in the main view and in each dialog.

use vstd::prelude::*;
use crate::app::{
    Action, ActionView, App, AppView, Focus, InputKind, InputModal, InputModalView, InputTarget,
    ModalKind, ModalView, NeighbourDir, input_modal, op_apply_pending, op_edid, op_move, op_off,
    op_on, op_place, op_primary, op_quit, op_reflect, op_reflect_reset, op_reset, op_rotate,
    op_stage_mode, op_step_scale, submit_spec,
};
use crate::model::RelativePosition;

verus! {

broadcast use vstd::string::group_string_axioms;

/// A key, as far as the interface tells keys apart.
#[derive(Debug, Clone, Copy, PartialEq, Eq, Structural)]
pub enum KeyCode {
    Char(char),
    Up,
    Down,
    Left,
    Right,
    Tab,
    Enter,
    Esc,
    Backspace,
    PageUp,
    PageDown,
    Home,
    /// Any key the interface does not use.
    Other,
}

/// A key press: the key, and whether Control was held.
#[derive(Debug, Clone, Copy, PartialEq, Eq, Structural)]
pub struct KeyEvent {
    pub code: KeyCode,
    pub ctrl: bool,
}

/// `a` with no dialog open.
pub open spec fn closed(a: AppView) -> AppView {
    AppView { modal: None, ..a }
}

/// `a` with the input dialog `i` open.
pub open spec fn with_input(a: AppView, i: InputModalView) -> AppView {
    AppView { modal: Some(ModalView::Input(i)), ..a }
}

/// Keys of the help dialog: scroll it, or close it.
pub open spec fn help_key(a: AppView, k: KeyCode) -> AppView {
    match k {
        KeyCode::Esc | KeyCode::Char('q') | KeyCode::Char('?') => closed(a),
        KeyCode::Char('j') | KeyCode::Down => AppView { help_scroll: a.help_scroll.saturating_add(1), ..a },
        KeyCode::Char('k') | KeyCode::Up => AppView { help_scroll: a.help_scroll.saturating_sub(1), ..a },
        KeyCode::PageDown | KeyCode::Char(' ') => AppView { help_scroll: a.help_scroll.saturating_add(10), ..a },
        KeyCode::PageUp => AppView { help_scroll: a.help_scroll.saturating_sub(10), ..a },
        KeyCode::Home => AppView { help_scroll: 0, ..a },
        _ => a,
    }
}

/// Keys of the quit confirmation: apply and quit, discard and quit, or
/// go back.
pub open spec fn quit_confirm_key(a: AppView, k: KeyCode, now: u64) -> (AppView, ActionView) {
    match k {
        KeyCode::Char('y') | KeyCode::Char('Y') => {
            let (b, act) = op_apply_pending(a, now);
            (AppView { should_quit: true, ..b }, act)
        },
        KeyCode::Char('n') | KeyCode::Char('N') => (
            AppView { pending: Seq::empty(), should_quit: true, ..a },
            ActionView::Nothing,
        ),
        KeyCode::Char('c') | KeyCode::Char('C') | KeyCode::Esc => (closed(a), ActionView::Nothing),
        _ => (a, ActionView::Nothing),
    }
}

/// Keys of the profile list: move the cursor (wrapping), delete or load
/// the highlighted profile, or close the list.
pub open spec fn list_key(a: AppView, profiles: Seq<Seq<char>>, selected: usize, k: KeyCode) -> (AppView, ActionView) {
    let n = profiles.len() as int;
    let moved = |s: int| (
        AppView { modal: Some(ModalView::ProfileList { profiles, selected: s as usize }), ..a },
        ActionView::Nothing,
    );
    match k {
        KeyCode::Esc | KeyCode::Char('q') => (closed(a), ActionView::Nothing),
        KeyCode::Char('j') | KeyCode::Down => if n == 0 {
            (a, ActionView::Nothing)
        } else {
            moved((selected + 1) % n)
        },
        KeyCode::Char('k') | KeyCode::Up => if n == 0 {
            (a, ActionView::Nothing)
        } else {
            moved((selected + n - 1) % n)
        },
        KeyCode::Char('d') => if selected < n {
            (a, ActionView::DeleteProfile { name: profiles[selected as int], profiles, selected })
        } else {
            (a, ActionView::Nothing)
        },
        KeyCode::Enter => if selected < n {
            (a, ActionView::LoadProfile { name: profiles[selected as int] })
        } else {
            (a, ActionView::Nothing)
        },
        _ => (a, ActionView::Nothing),
    }
}

/// Keys of an input dialog: edit the text, submit it, or cancel. A
/// refused submission shows its error in the dialog; saving a profile
/// keeps the dialog open until the outputs have been re-read.
pub open spec fn input_key(a: AppView, input: InputModalView, k: KeyCode, now: u64) -> (AppView, ActionView) {
    match k {
        KeyCode::Esc => (closed(a), ActionView::Nothing),
        KeyCode::Enter => {
            let (b, r) = submit_spec(a, input, now);
            match r {
                Err(e) => (with_input(b, InputModalView { error: Some(e), ..input }), ActionView::Nothing),
                Ok(act) => if act is QueryForSave {
                    (b, act)
                } else {
                    (closed(b), act)
                },
            }
        },
        KeyCode::Backspace => (
            with_input(a, InputModalView { buffer: if input.buffer.len() == 0 {
                input.buffer
            } else {
                input.buffer.drop_last()
            }, ..input }),
            ActionView::Nothing,
        ),
        KeyCode::Char(c) => (with_input(a, InputModalView { buffer: input.buffer.push(c), ..input }), ActionView::Nothing),
        _ => (a, ActionView::Nothing),
    }
}

/// A key while a dialog is open: the dialog takes it.
pub open spec fn modal_key_spec(a: AppView, k: KeyCode, now: u64) -> (AppView, ActionView) {
    match a.modal {
        None => (a, ActionView::Nothing),
        Some(m) => match m {
            ModalView::Help => (help_key(a, k), ActionView::Nothing),
            ModalView::Edid(_) | ModalView::EdidParsed(_, _) | ModalView::Error(_) => (
                if k == KeyCode::Esc || k == KeyCode::Char('q') {
                    closed(a)
                } else {
                    a
                },
                ActionView::Nothing,
            ),
            ModalView::QuitConfirm => quit_confirm_key(a, k, now),
            ModalView::ProfileList { profiles, selected } => list_key(a, profiles, selected, k),
            ModalView::Input(i) => input_key(a, i, k, now),
        },
    }
}

/// `a` with an empty input dialog open.
pub open spec fn asking(a: AppView, title: Seq<char>, prompt: Seq<char>, target: InputTarget, kind: InputKind, now: u64) -> AppView {
    with_input(a, input_modal(title, prompt, target, kind, now))
}

/// A key in the main view (no dialog open, Control not held).
pub open spec fn main_key_spec(a: AppView, k: KeyCode, now: u64) -> (AppView, ActionView) {
    match k {
        KeyCode::Char('q') => (op_quit(a), ActionView::Nothing),
        KeyCode::Char('?') => (AppView { help_scroll: 0, modal: Some(ModalView::Help), ..a }, ActionView::Nothing),
        KeyCode::Char('a') => op_apply_pending(AppView { last_applied_profile: None, ..a }, now),
        KeyCode::Char('r') => (op_reset(a, now), ActionView::Nothing),
        KeyCode::Char('W') => (
            asking(a, "export"@, "Enter profile name (saved to ~/.config/vrandr/profiles/<name>.toml):"@,
                InputTarget::ProfileName, InputKind::ParseProfileName, now),
            ActionView::Nothing,
        ),
        KeyCode::Char('T') => (a, ActionView::ListProfiles),
        KeyCode::Char('j') | KeyCode::Down => (op_move(a, 1), ActionView::Nothing),
        KeyCode::Char('k') | KeyCode::Up => (op_move(a, -1), ActionView::Nothing),
        KeyCode::Char('h') | KeyCode::Left => (AppView { focus: Focus::Output, ..a }, ActionView::Nothing),
        KeyCode::Char('l') | KeyCode::Right => (AppView { focus: Focus::Mode, ..a }, ActionView::Nothing),
        KeyCode::Tab => (
            AppView { focus: if a.focus == Focus::Output {
                Focus::Mode
            } else {
                Focus::Output
            }, ..a },
            ActionView::Nothing,
        ),
        KeyCode::Enter => (op_stage_mode(a, now), ActionView::Nothing),
        KeyCode::Char('m') => (op_primary(a, now), ActionView::Nothing),
        KeyCode::Char('d') => (op_off(a, now), ActionView::Nothing),
        KeyCode::Char('p') => (op_on(a, now), ActionView::Nothing),
        KeyCode::Char('x') => (op_reflect(a, now), ActionView::Nothing),
        KeyCode::Char('X') => (op_reflect_reset(a, now), ActionView::Nothing),
        KeyCode::Char('R') => (op_rotate(a, now), ActionView::Nothing),
        KeyCode::Char('[') => (op_step_scale(a, -100_000, now), ActionView::Nothing),
        KeyCode::Char(']') => (op_step_scale(a, 100_000, now), ActionView::Nothing),
        KeyCode::Char('s') => (
            asking(a, "scale"@, "Enter scale, e.g. 0.8 or 0.8x0.6:"@, InputTarget::Scale, InputKind::ParseScale, now),
            ActionView::Nothing,
        ),
        KeyCode::Char('g') => (
            asking(a, "gamma"@, "Enter gamma R:G:B, e.g. 1.0:0.8:0.8:"@, InputTarget::Gamma, InputKind::ParseGamma, now),
            ActionView::Nothing,
        ),
        KeyCode::Char('b') => (
            asking(a, "brightness"@, "Enter brightness, e.g. 0.8:"@, InputTarget::Brightness, InputKind::ParseBrightness, now),
            ActionView::Nothing,
        ),
        KeyCode::Char('e') => (op_edid(a), ActionView::Nothing),
        KeyCode::Char('H') => (op_place(a, NeighbourDir::Left, RelativePosition::LeftOf, now), ActionView::Nothing),
        KeyCode::Char('L') => (op_place(a, NeighbourDir::Right, RelativePosition::RightOf, now), ActionView::Nothing),
        KeyCode::Char('K') => (op_place(a, NeighbourDir::Above, RelativePosition::Above, now), ActionView::Nothing),
        KeyCode::Char('J') => (op_place(a, NeighbourDir::Below, RelativePosition::Below, now), ActionView::Nothing),
        KeyCode::Char('P') => (
            asking(a, "clone"@, "Enter output to clone (--same-as):"@, InputTarget::SameAs, InputKind::ParseName, now),
            ActionView::Nothing,
        ),
        KeyCode::Char('O') => (
            asking(a, "position"@, "Enter absolute position, e.g. 1920x0:"@, InputTarget::Position, InputKind::ParsePosition, now),
            ActionView::Nothing,
        ),
        KeyCode::Char('N') => (
            asking(a, "panning"@, "Enter panning area, e.g. 1920x1080:"@, InputTarget::Panning, InputKind::ParsePanning, now),
            ActionView::Nothing,
        ),
        _ => (a, ActionView::Nothing),
    }
}

/// The state and action after a key press: an open dialog takes every
/// key; otherwise keys held with Control do nothing.
pub open spec fn key_spec(a: AppView, k: KeyEvent, now: u64) -> (AppView, ActionView) {
    if a.modal is Some {
        modal_key_spec(a, k.code, now)
    } else if k.ctrl {
        (a, ActionView::Nothing)
    } else {
        main_key_spec(a, k.code, now)
    }
}

/// Stepping back by one modulo `n`, computed without overflow.
proof fn lemma_wrap_back(s: int, n: int)
    requires
        n > 0,
        s >= 0,
    ensures
        (s + n - 1) % n == if s % n == 0 {
            n - 1
        } else {
            s % n - 1
        },
{
    vstd::arithmetic::div_mod::lemma_add_mod_noop(s, n - 1, n);
    vstd::arithmetic::div_mod::lemma_mod_twice(s, n);
    vstd::arithmetic::div_mod::lemma_add_mod_noop(s % n, n - 1, n);
    vstd::arithmetic::div_mod::lemma_mod_bound(s, n);
    vstd::arithmetic::div_mod::lemma_small_mod((n - 1) as nat, n as nat);
    if s % n > 0 {
        vstd::arithmetic::div_mod::lemma_small_mod((s % n - 1) as nat, n as nat);
        vstd::arithmetic::div_mod::lemma_mod_add_multiples_vanish(s % n - 1, n);
        assert(s % n + n - 1 == n + (s % n - 1));
    }
}

impl App {
    fn help_key_exec(&mut self, k: KeyCode)
        ensures
            final(self)@ == help_key(old(self)@, k),
    {
        match k {
            KeyCode::Esc | KeyCode::Char('q') | KeyCode::Char('?') => {
                self.modal = None;
            },
            KeyCode::Char('j') | KeyCode::Down => {
                self.help_scroll = self.help_scroll.saturating_add(1);
            },
            KeyCode::Char('k') | KeyCode::Up => {
                self.help_scroll = self.help_scroll.saturating_sub(1);
            },
            KeyCode::PageDown | KeyCode::Char(' ') => {
                self.help_scroll = self.help_scroll.saturating_add(10);
            },
            KeyCode::PageUp => {
                self.help_scroll = self.help_scroll.saturating_sub(10);
            },
            KeyCode::Home => {
                self.help_scroll = 0;
            },
            _ => {},
        }
    }

    fn list_key_exec(&mut self, profiles: Vec<String>, selected: usize, k: KeyCode) -> (act: Action)
        ensures
            (final(self)@, act@) == list_key(old(self)@, crate::text::strs_view(profiles@), selected, k),
    {
        let n = profiles.len();
        let ghost pv = crate::text::strs_view(profiles@);
        match k {
            KeyCode::Esc | KeyCode::Char('q') => {
                self.modal = None;
                Action::Nothing
            },
            KeyCode::Char('j') | KeyCode::Down => {
                if n == 0 {
                    return Action::Nothing;
                }
                let s = (selected % n + 1) % n;
                proof {
                    crate::app::lemma_wrap_step(selected as int, n as int);
                }
                self.modal = Some(ModalKind::ProfileList { profiles, selected: s });
                Action::Nothing
            },
            KeyCode::Char('k') | KeyCode::Up => {
                if n == 0 {
                    return Action::Nothing;
                }
                let cur = selected % n;
                let s = if cur == 0 {
                    n - 1
                } else {
                    cur - 1
                };
                proof {
                    lemma_wrap_back(selected as int, n as int);
                }
                self.modal = Some(ModalKind::ProfileList { profiles, selected: s });
                Action::Nothing
            },
            KeyCode::Char('d') => {
                if selected < n {
                    let name = profiles[selected].clone();
                    Action::DeleteProfile { name, profiles, selected }
                } else {
                    Action::Nothing
                }
            },
            KeyCode::Enter => {
                if selected < n {
                    let name = profiles[selected].clone();
                    Action::LoadProfile { name }
                } else {
                    Action::Nothing
                }
            },
            _ => Action::Nothing,
        }
    }

    fn input_key_exec(&mut self, input: InputModal, k: KeyCode, now: u64) -> (act: Action)
        ensures
            (final(self)@, act@) == input_key(old(self)@, input@, k, now),
    {
        let mut input = input;
        match k {
            KeyCode::Esc => {
                self.modal = None;
                Action::Nothing
            },
            KeyCode::Enter => {
                let r = self.submit_input(&input, now);
                match r {
                    Err(e) => {
                        input.error = Some(e);
                        self.modal = Some(ModalKind::Input(input));
                        Action::Nothing
                    },
                    Ok(act) => {
                        match &act {
                            Action::QueryForSave { .. } => {},
                            _ => {
                                self.modal = None;
                            },
                        }
                        act
                    },
                }
            },
            KeyCode::Backspace => {
                let cs = crate::text::chars_of(input.buffer.as_str());
                if cs.len() > 0 {
                    let kept = crate::text::slice_take(cs.as_slice(), cs.len() - 1);
                    input.buffer = crate::text::string_of(kept.as_slice());
                }
                self.modal = Some(ModalKind::Input(input));
                Action::Nothing
            },
            KeyCode::Char(c) => {
                crate::text::push_char(&mut input.buffer, c);
                self.modal = Some(ModalKind::Input(input));
                Action::Nothing
            },
            _ => Action::Nothing,
        }
    }

    /// A key while a dialog is open (see `modal_key_spec`).
    pub fn handle_modal_key(&mut self, k: KeyCode, now: u64) -> (act: Action)
        ensures
            (final(self)@, act@) == modal_key_spec(old(self)@, k, now),
    {
        let m = match &self.modal {
            Some(m) => m.clone(),
            None => {
                return Action::Nothing;
            },
        };
        match m {
            ModalKind::Help => {
                self.help_key_exec(k);
                Action::Nothing
            },
            ModalKind::Edid(_) | ModalKind::EdidParsed(_, _) | ModalKind::Error(_) => {
                if k == KeyCode::Esc || k == KeyCode::Char('q') {
                    self.modal = None;
                }
                Action::Nothing
            },
            ModalKind::QuitConfirm => match k {
                KeyCode::Char('y') | KeyCode::Char('Y') => {
                    let act = self.apply_pending(now);
                    self.should_quit = true;
                    act
                },
                KeyCode::Char('n') | KeyCode::Char('N') => {
                    self.pending.clear();
                    self.should_quit = true;
                    Action::Nothing
                },
                KeyCode::Char('c') | KeyCode::Char('C') | KeyCode::Esc => {
                    self.modal = None;
                    Action::Nothing
                },
                _ => Action::Nothing,
            },
            ModalKind::ProfileList { profiles, selected } => self.list_key_exec(profiles, selected, k),
            ModalKind::Input(input) => self.input_key_exec(input, k, now),
        }
    }

    fn ask(
        &mut self,
        title: &'static str,
        prompt: &'static str,
        target: InputTarget,
        kind: InputKind,
        now: u64,
    ) -> (act: Action)
        ensures
            final(self)@ == asking(old(self)@, title@, prompt@, target, kind, now),
            act@ == ActionView::Nothing,
    {
        self.open_input(title, prompt, target, kind, now);
        Action::Nothing
    }

    /// A key in the main view (see `main_key_spec`).
    #[verifier::rlimit(40)]
    pub fn handle_main_key(&mut self, k: KeyCode, now: u64) -> (act: Action)
        ensures
            (final(self)@, act@) == main_key_spec(old(self)@, k, now),
    {
        match k {
            KeyCode::Char('q') => {
                self.quit_key();
                Action::Nothing
            },
            KeyCode::Char('?') => {
                self.help_scroll = 0;
                self.modal = Some(ModalKind::Help);
                Action::Nothing
            },
            KeyCode::Char('a') => {
                self.last_applied_profile = None;
                self.apply_pending(now)
            },
            KeyCode::Char('r') => {
                self.reset_key(now);
                Action::Nothing
            },
            KeyCode::Char('W') => self.ask(
                "export",
                "Enter profile name (saved to ~/.config/vrandr/profiles/<name>.toml):",
                InputTarget::ProfileName,
                InputKind::ParseProfileName,
                now,
            ),
            KeyCode::Char('T') => Action::ListProfiles,
            KeyCode::Char('j') | KeyCode::Down => {
                self.move_selection(true);
                Action::Nothing
            },
            KeyCode::Char('k') | KeyCode::Up => {
                self.move_selection(false);
                Action::Nothing
            },
            KeyCode::Char('h') | KeyCode::Left => {
                self.focus = Focus::Output;
                Action::Nothing
            },
            KeyCode::Char('l') | KeyCode::Right => {
                self.focus = Focus::Mode;
                Action::Nothing
            },
            KeyCode::Tab => {
                self.focus = match self.focus {
                    Focus::Output => Focus::Mode,
                    Focus::Mode => Focus::Output,
                };
                Action::Nothing
            },
            KeyCode::Enter => {
                self.stage_mode(now);
                Action::Nothing
            },
            KeyCode::Char('m') => {
                self.make_primary(now);
                Action::Nothing
            },
            KeyCode::Char('d') => {
                self.stage_off(now);
                Action::Nothing
            },
            KeyCode::Char('p') => {
                self.stage_on(now);
                Action::Nothing
            },
            KeyCode::Char('x') => {
                self.set_reflection(true, now);
                Action::Nothing
            },
            KeyCode::Char('X') => {
                self.set_reflection(false, now);
                Action::Nothing
            },
            KeyCode::Char('R') => {
                self.cycle_rotation(now);
                Action::Nothing
            },
            KeyCode::Char('[') => {
                self.step_scale(false, now);
                Action::Nothing
            },
            KeyCode::Char(']') => {
                self.step_scale(true, now);
                Action::Nothing
            },
            KeyCode::Char('s') => self.ask(
                "scale",
                "Enter scale, e.g. 0.8 or 0.8x0.6:",
                InputTarget::Scale,
                InputKind::ParseScale,
                now,
            ),
            KeyCode::Char('g') => self.ask(
                "gamma",
                "Enter gamma R:G:B, e.g. 1.0:0.8:0.8:",
                InputTarget::Gamma,
                InputKind::ParseGamma,
                now,
            ),
            KeyCode::Char('b') => self.ask(
                "brightness",
                "Enter brightness, e.g. 0.8:",
                InputTarget::Brightness,
                InputKind::ParseBrightness,
                now,
            ),
            KeyCode::Char('e') => {
                self.open_edid();
                Action::Nothing
            },
            KeyCode::Char('H') => {
                self.place_relative(NeighbourDir::Left, RelativePosition::LeftOf, now);
                Action::Nothing
            },
            KeyCode::Char('L') => {
                self.place_relative(NeighbourDir::Right, RelativePosition::RightOf, now);
                Action::Nothing
            },
            KeyCode::Char('K') => {
                self.place_relative(NeighbourDir::Above, RelativePosition::Above, now);
                Action::Nothing
            },
            KeyCode::Char('J') => {
                self.place_relative(NeighbourDir::Below, RelativePosition::Below, now);
                Action::Nothing
            },
            KeyCode::Char('P') => self.ask(
                "clone",
                "Enter output to clone (--same-as):",
                InputTarget::SameAs,
                InputKind::ParseName,
                now,
            ),
            KeyCode::Char('O') => self.ask(
                "position",
                "Enter absolute position, e.g. 1920x0:",
                InputTarget::Position,
                InputKind::ParsePosition,
                now,
            ),
            KeyCode::Char('N') => self.ask(
                "panning",
                "Enter panning area, e.g. 1920x1080:",
                InputTarget::Panning,
                InputKind::ParsePanning,
                now,
            ),
            _ => Action::Nothing,
        }
    }

    /// Handle one key press (see `key_spec`); the caller performs the
    /// returned action.
    pub fn handle_key(&mut self, key: KeyEvent, now: u64) -> (act: Action)
        ensures
            (final(self)@, act@) == key_spec(old(self)@, key, now),
    {
        if self.modal.is_some() {
            return self.handle_modal_key(key.code, now);
        }
        if key.ctrl {
            return Action::Nothing;
        }
        self.handle_main_key(key.code, now)
    }
}

} // verus!
