//! Properties that span several operations: saving and restoring a
//! profile, applying what the preview shows, quitting, the power keys
//! and the cursor.

use vstd::prelude::*;
use crate::app::{
    ActionView, AfterRunView, AppView, InputKind, InputModalView, ModalView, OutcomeView,
    complete_spec, has_pending_spec, has_selection, is_disconnected, profile_pending, read_factor,
    sel_name, snapshot, staged, submit_spec,
};
use crate::text::{split_char, split_once, trim};
use crate::command::{change_args, command_args, materialize_spec, preview_spec};
use crate::config::{PersistedOutputView, from_output_spec, to_pending_spec, validate_spec};
use crate::keys::{KeyCode, KeyEvent, key_spec};
use crate::model::{OutputView, PendingChangeView, Rotation, rotation_name};
use crate::pending::{keys_unique, law_insert_lookup, lookup};
use crate::ui::preview_text_spec;
use crate::xrandr::rotation_word;

verus! {

/// Restoring a saved output: staging what a profile recorded of output
/// `o` over any state `base` of that output gives it `o`'s rotation and
/// reflection and every setting `o` had: its scale, scale source, gamma,
/// position and placement; off when `o` was off; primary when `o` was
/// primary; and, when `o` was on with a mode, that mode's name, and its
/// rate when the rate is positive.
pub proof fn law_profile_restores_output(o: OutputView, base: OutputView)
    ensures
        ({
            let r = materialize_spec(base, to_pending_spec(from_output_spec(o)));
            &&& r.name == base.name
            &&& r.rotation == o.rotation
            &&& r.reflection == o.reflection
            &&& (o.scale is Some ==> r.scale == o.scale)
            &&& (o.scale_from is Some ==> r.scale_from == o.scale_from)
            &&& (o.gamma is Some ==> r.gamma == o.gamma)
            &&& (o.position is Some ==> r.position == o.position)
            &&& (o.relative_to is Some ==> r.relative_to == o.relative_to)
            &&& (o.off ==> r.off && r.current_mode is None)
            &&& (o.is_primary ==> r.is_primary)
            &&& (!o.off && o.current_mode is Some ==> {
                &&& r.current_mode is Some
                &&& r.current_mode->0.name == o.current_mode->0.name
                &&& (o.current_mode->0.refresh_rate > 0 ==> r.current_mode->0.refresh_rate
                    == o.current_mode->0.refresh_rate)
            })
        }),
{
}

/// Saving a profile records the staged changes: when the outputs re-read
/// for a save come back and the name is valid, the layout to write has
/// one entry per output, each with the rotation and reflection staged for
/// it, or its current ones where none is staged.
pub proof fn law_save_records_staged(
    a: AppView,
    name: Seq<char>,
    input: InputModalView,
    fresh: Seq<OutputView>,
    now: u64,
    i: int,
)
    requires
        validate_spec(name) is Ok,
        0 <= i < fresh.len(),
    ensures
        ({
            let (b, act) = complete_spec(a, OutcomeView::SaveQueried { name, input, result: Ok(fresh) }, now);
            let c = staged(a.pending, fresh[i].name);
            &&& act is WriteProfile
            &&& act->config.outputs.len() == fresh.len()
            &&& act->config.outputs[i].name == fresh[i].name
            &&& act->config.outputs[i].rotation == match c.rotation {
                Some(r) => r,
                None => fresh[i].rotation,
            }
            &&& act->config.outputs[i].reflection == match c.reflection {
                Some(r) => r,
                None => fresh[i].reflection,
            }
            &&& b.modal is None
        }),
{
    let b = AppView { outputs: fresh, ..a };
    assert(snapshot(b)[i] == materialize_spec(fresh[i], staged(a.pending, fresh[i].name)));
}

/// Applying a profile skips the outputs that are disconnected now: a
/// change is staged for a name exactly when the profile records an output
/// of that name that is not disconnected, and then it is the change
/// recorded for one of them; no name is staged twice.
pub proof fn law_profile_skips_disconnected(ps: Seq<PersistedOutputView>, outs: Seq<OutputView>, n: Seq<char>)
    ensures
        keys_unique(profile_pending(ps, outs)),
        lookup(profile_pending(ps, outs), n) is Some <==> (!is_disconnected(outs, n) && exists|j: int|
            0 <= j < ps.len() && #[trigger] ps[j].name == n),
        lookup(profile_pending(ps, outs), n) matches Some(c) ==> exists|j: int|
            0 <= j < ps.len() && #[trigger] ps[j].name == n && c == to_pending_spec(ps[j]),
    decreases ps.len(),
{
    let pp = profile_pending(ps, outs);
    if ps.len() == 0 {
        crate::pending::lemma_key_index(pp, n);
    } else {
        let prev = ps.drop_last();
        let p = ps.last();
        law_profile_skips_disconnected(prev, outs, n);
        let pq = profile_pending(prev, outs);
        assert forall|j: int| 0 <= j < prev.len() implies #[trigger] prev[j] == ps[j] by {}
        if !is_disconnected(outs, p.name) {
            law_insert_lookup(pq, p.name, to_pending_spec(p), n);
            if n == p.name {
                assert(ps[ps.len() - 1].name == n);
            } else {
                if exists|j: int| 0 <= j < ps.len() && #[trigger] ps[j].name == n {
                    let j = choose|j: int| 0 <= j < ps.len() && #[trigger] ps[j].name == n;
                    assert(j < ps.len() - 1);
                    assert(prev[j].name == n);
                }
                if lookup(pq, n) is Some {
                    let j = choose|j: int| 0 <= j < prev.len() && #[trigger] prev[j].name == n && lookup(pq, n)->0 == to_pending_spec(prev[j]);
                    assert(ps[j].name == n);
                }
            }
        } else {
            if n == p.name {
            } else {
                if exists|j: int| 0 <= j < ps.len() && #[trigger] ps[j].name == n {
                    let j = choose|j: int| 0 <= j < ps.len() && #[trigger] ps[j].name == n;
                    assert(j < ps.len() - 1);
                    assert(prev[j].name == n);
                }
            }
            if lookup(pq, n) is Some {
                let j = choose|j: int| 0 <= j < prev.len() && #[trigger] prev[j].name == n && lookup(pq, n)->0 == to_pending_spec(prev[j]);
                assert(ps[j].name == n);
            }
        }
    }
}

/// The key press of `c` with no modifier.
pub open spec fn plain(c: char) -> KeyEvent {
    KeyEvent { code: KeyCode::Char(c), ctrl: false }
}

/// The preview pane shows the command that `a` runs: with a visible
/// change staged, no dialog open and no profile summary up, `a` runs
/// xrandr with exactly the arguments the pane previews; once xrandr
/// succeeds, nothing is staged, that preview is kept as the last applied
/// command, and the outputs are re-read.
pub proof fn law_apply_runs_previewed_command(a: AppView, now: u64, later: u64)
    requires
        a.modal is None,
        a.last_applied_profile is None,
        has_pending_spec(a.pending),
    ensures
        ({
            let (b, act) = key_spec(a, plain('a'), now);
            &&& act is RunXrandr
            &&& act->args == command_args(a.pending)
            &&& act->then == (AfterRunView::Staged { preview: preview_text_spec(a) })
            &&& preview_text_spec(a) == preview_spec(act->args)
            &&& b == a
            &&& ({
                let (c, next) = complete_spec(b, OutcomeView::XrandrRan { then: act->then, result: Ok(()) }, later);
                &&& c.pending.len() == 0
                &&& c.last_preview == preview_text_spec(a)
                &&& next == (ActionView::Refresh { close_modal: false })
            })
        }),
{
}

/// `r` discards every staged change.
pub proof fn law_reset_discards(a: AppView, now: u64)
    requires
        a.modal is None,
    ensures
        key_spec(a, plain('r'), now).0.pending.len() == 0,
        key_spec(a, plain('r'), now).1 == ActionView::Nothing,
{
}

/// Quitting never drops visible staged changes unasked: in a running
/// interface `q` quits at
/// once exactly when none is staged; otherwise it asks, and then `n`
/// drops them and quits, `y` quits after running xrandr with them, and
/// `c` goes back with everything kept.
pub proof fn law_quit_asks_first(a: AppView, now: u64)
    requires
        a.modal is None,
        !a.should_quit,
    ensures
        ({
            let (b, act) = key_spec(a, plain('q'), now);
            &&& act == ActionView::Nothing
            &&& b.should_quit <==> !has_pending_spec(a.pending)
            &&& has_pending_spec(a.pending) ==> {
                &&& b.modal == Some(ModalView::QuitConfirm)
                &&& b.pending == a.pending
                &&& key_spec(b, plain('n'), now).0.should_quit
                &&& key_spec(b, plain('n'), now).0.pending.len() == 0
                &&& key_spec(b, plain('y'), now).0.should_quit
                &&& key_spec(b, plain('y'), now).1 == (ActionView::RunXrandr {
                    args: command_args(a.pending),
                    then: AfterRunView::Staged { preview: preview_spec(command_args(a.pending)) },
                })
                &&& key_spec(b, plain('c'), now).0 == AppView { modal: None, ..b }
                &&& !key_spec(b, plain('c'), now).0.should_quit
            }
        }),
{
}

/// The rotation words that commands carry are read back by the parser
/// of xrandr's listing.
pub proof fn law_rotation_words_parse(r: Rotation)
    ensures
        rotation_word(rotation_name(r)) == Some(r),
{
    reveal_strlit("normal");
    reveal_strlit("left");
    reveal_strlit("right");
    reveal_strlit("inverted");
    assert("normal"@.len() == 6);
    assert("left"@.len() == 4);
    assert("right"@.len() == 5);
    assert("inverted"@.len() == 8);
}

/// Keys keep the cursor on an output: when it points at one before a key
/// press, the list keeps its length and the cursor still points at one.
#[verifier::rlimit(40)]
pub proof fn law_keys_keep_selection(a: AppView, k: KeyEvent, now: u64)
    requires
        a.selected_output < a.outputs.len(),
    ensures
        key_spec(a, k, now).0.outputs.len() == a.outputs.len(),
        key_spec(a, k, now).0.selected_output < a.outputs.len(),
{
}

/// Re-reading the outputs puts the cursor back on one whenever there is
/// any.
pub proof fn law_refresh_keeps_selection(a: AppView, close_modal: bool, outs: Seq<OutputView>, now: u64)
    requires
        outs.len() > 0,
    ensures
        ({
            let b = complete_spec(a, OutcomeView::Refreshed { close_modal, result: Ok(outs) }, now).0;
            &&& b.outputs == outs
            &&& b.selected_output < outs.len()
        }),
{
}

/// The power key pressed last wins: in the main view, `d` then `p`
/// stages the selected output to be turned on, and its arguments start
/// with `--auto`; `p` then `d` stages it off, and its arguments are just
/// `--off`.
pub proof fn law_latest_power_key_wins(a: AppView, now: u64)
    requires
        a.modal is None,
        a.selected_output < a.outputs.len(),
        keys_unique(a.pending),
    ensures
        ({
            let b = key_spec(key_spec(a, plain('d'), now).0, plain('p'), now).0;
            let c = staged(b.pending, a.outputs[a.selected_output as int].name);
            &&& c.off == Some(false)
            &&& change_args(c)[0] == "--auto"@
        }),
        ({
            let b = key_spec(key_spec(a, plain('p'), now).0, plain('d'), now).0;
            let c = staged(b.pending, a.outputs[a.selected_output as int].name);
            &&& c.off == Some(true)
            &&& change_args(c) == seq!["--off"@]
        }),
{
    let n = a.outputs[a.selected_output as int].name;
    let d = key_spec(a, plain('d'), now).0;
    law_insert_lookup(a.pending, n, PendingChangeView { off: Some(true), mode: None, ..staged(a.pending, n) }, n);
    law_insert_lookup(d.pending, n, PendingChangeView { off: Some(false), ..staged(d.pending, n) }, n);
    let p = key_spec(a, plain('p'), now).0;
    law_insert_lookup(a.pending, n, PendingChangeView { off: Some(false), ..staged(a.pending, n) }, n);
    law_insert_lookup(p.pending, n, PendingChangeView { off: Some(true), mode: None, ..staged(p.pending, n) }, n);
}

/// A scale factor the dialog takes: float text worth 0.1 to 8.0.
pub open spec fn scale_ok(v: Option<i64>) -> bool {
    v matches Some(x) && 100_000 <= x <= 8_000_000
}

/// Submitting a scale: with an output selected and some text entered, the
/// dialog takes exactly one number worth 0.1 to 8.0, or two such numbers
/// joined at the first `x`; it then stages that number for both axes, or
/// the two numbers, for the selected output.
pub proof fn law_scale_submission(a: AppView, input: InputModalView, now: u64)
    requires
        has_selection(a),
        keys_unique(a.pending),
        input.on_submit_kind == InputKind::ParseScale,
        trim(input.buffer).len() > 0,
    ensures
        ({
            let b = trim(input.buffer);
            let (a2, r) = submit_spec(a, input, now);
            &&& r is Ok <==> match split_once(b, 'x') {
                None => scale_ok(read_factor(b)),
                Some((x, y)) => scale_ok(read_factor(x)) && scale_ok(read_factor(y)),
            }
            &&& r is Ok ==> staged(a2.pending, sel_name(a)).scale == Some(
                match split_once(b, 'x') {
                    None => (read_factor(b)->0, read_factor(b)->0),
                    Some((x, y)) => (read_factor(x)->0, read_factor(y)->0),
                },
            )
        }),
{
    let n = sel_name(a);
    let c = staged(a.pending, n);
    let b = trim(input.buffer);
    match split_once(b, 'x') {
        None => {
            if scale_ok(read_factor(b)) {
                let v = read_factor(b)->0;
                law_insert_lookup(a.pending, n, PendingChangeView { scale: Some((v, v)), ..c }, n);
            }
        },
        Some((x, y)) => {
            if scale_ok(read_factor(x)) && scale_ok(read_factor(y)) {
                let c2 = PendingChangeView { scale: Some((read_factor(x)->0, read_factor(y)->0)), ..c };
                law_insert_lookup(a.pending, n, c2, n);
            }
        },
    }
}

/// A gamma factor the dialog takes: float text worth 0.1 to 10.0.
pub open spec fn gamma_ok(v: Option<i64>) -> bool {
    v matches Some(x) && 100_000 <= x <= 10_000_000
}

/// Submitting a gamma `R:G:B`: with an output selected and exactly three
/// parts between the `:`, each worth 0.1 to 10.0, the dialog stages the
/// three values for red, green and blue, in that order; with any other
/// number of parts, or a part out of range or not a number, it refuses.
pub proof fn law_gamma_submission(a: AppView, input: InputModalView, now: u64)
    requires
        has_selection(a),
        keys_unique(a.pending),
        input.on_submit_kind == InputKind::ParseGamma,
        trim(input.buffer).len() > 0,
    ensures
        ({
            let parts = split_char(trim(input.buffer), ':');
            let (a2, r) = submit_spec(a, input, now);
            &&& r is Ok <==> (parts.len() == 3 && gamma_ok(read_factor(parts[0])) && gamma_ok(
                read_factor(parts[1]),
            ) && gamma_ok(read_factor(parts[2])))
            &&& r is Ok ==> staged(a2.pending, sel_name(a)).gamma == Some(
                (read_factor(parts[0])->0, read_factor(parts[1])->0, read_factor(parts[2])->0),
            )
        }),
{
    let n = sel_name(a);
    let c = staged(a.pending, n);
    let parts = split_char(trim(input.buffer), ':');
    if parts.len() == 3 && gamma_ok(read_factor(parts[0])) && gamma_ok(read_factor(parts[1])) && gamma_ok(
        read_factor(parts[2]),
    ) {
        let g = (read_factor(parts[0])->0, read_factor(parts[1])->0, read_factor(parts[2])->0);
        law_insert_lookup(a.pending, n, PendingChangeView { gamma: Some(g), ..c }, n);
    }
}

} // verus!
