use vrandr::app::{
    build_app, Action, AfterRun, App, Focus, InputKind, InputTarget, ModalKind, Outcome,
};
use vrandr::config::LayoutConfig;
use vrandr::keys::{KeyCode, KeyEvent};
use vrandr::model::{Mode, Output, PendingChange, Reflection, RelativePosition, Rotation};
use vrandr::ui::{preview_height, MAX_PREVIEW_LINES};

fn sample_output(name: &str) -> Output {
    Output {
        name: name.into(),
        connected: true,
        current_mode: Some(Mode::new("1920x1080".into(), 60_000, true, false)),
        available_modes: vec![Mode::new("1920x1080".into(), 60_000, true, false)],
        is_primary: false,
        rotation: Rotation::Normal,
        reflection: Reflection::Normal,
        scale: None,
        scale_from: None,
        gamma: None,
        position: Some((0, 0)),
        relative_to: None,
        off: false,
        edid: None,
        custom_modes: vec![],
    }
}

fn key(c: char) -> KeyEvent {
    KeyEvent { code: KeyCode::Char(c), ctrl: false }
}

fn code(k: KeyCode) -> KeyEvent {
    KeyEvent { code: k, ctrl: false }
}

#[test]
fn preview_height_collapses_for_profile_summary() {
    let mut app = App::new(vec![sample_output("eDP-1")]);
    app.last_applied_profile = Some("home".into());
    let h = preview_height(&app, 80);
    assert_eq!(h, 1, "profile summary should always be 1 line");
}

#[test]
fn preview_height_grows_with_command_length() {
    let mut app = App::new(vec![sample_output("eDP-1")]);
    let mode = Mode::new("1920x1080".into(), 60_000, true, false);
    app.pending.insert(
        "eDP-1".into(),
        PendingChange {
            off: Some(false),
            mode: Some(mode),
            position: Some((0, 0)),
            panning: Some((9999, 9999)),
            primary: Some(true),
            rotation: Some(Rotation::Left),
            reflection: Some(Reflection::X),
            ..Default::default()
        },
    );
    let h = preview_height(&app, 80);
    assert!(h >= 1 && h <= MAX_PREVIEW_LINES as u16, "preview height {h} out of bounds");
}

#[test]
fn save_snapshot_uses_staged_rotation() {
    // Saving materialises the staged change into the snapshot.
    let mut app = App::new(vec![sample_output("eDP-1")]);
    app.pending.insert(
        "eDP-1".into(),
        PendingChange { rotation: Some(Rotation::Left), ..Default::default() },
    );
    let snapshot = app.snapshot();
    let cfg = LayoutConfig::from_outputs(&snapshot);
    assert_eq!(cfg.outputs[0].rotation, Rotation::Left);
    assert_ne!(cfg.outputs[0].rotation, Rotation::Normal);
}

#[test]
fn new_app_starts_clean() {
    let app = build_app(vec![sample_output("eDP-1"), sample_output("HDMI-1")]);
    assert_eq!(app.selected_output, 0);
    assert_eq!(app.focus, Focus::Output);
    assert!(app.modal.is_none());
    assert!(!app.has_pending());
    assert!(!app.should_quit);
    assert_eq!(app.selected_output().unwrap().name, "eDP-1");
}

#[test]
fn flash_expires_after_two_seconds() {
    let mut app = App::new(vec![]);
    app.flash("hello".into(), 1_000);
    assert_eq!(app.current_status(1_000), Some("hello"));
    assert_eq!(app.current_status(2_999), Some("hello"));
    assert_eq!(app.current_status(3_000), None);
}

#[test]
fn move_selection_wraps_both_ways() {
    let mut app = App::new(vec![sample_output("a"), sample_output("b"), sample_output("c")]);
    app.handle_key(code(KeyCode::Up), 0);
    assert_eq!(app.selected_output, 2);
    app.handle_key(key('j'), 0);
    assert_eq!(app.selected_output, 0);
    app.handle_key(code(KeyCode::Down), 0);
    assert_eq!(app.selected_output, 1);
}

#[test]
fn focus_keys() {
    let mut app = App::new(vec![sample_output("a")]);
    app.handle_key(key('l'), 0);
    assert_eq!(app.focus, Focus::Mode);
    app.handle_key(key('h'), 0);
    assert_eq!(app.focus, Focus::Output);
    app.handle_key(code(KeyCode::Tab), 0);
    assert_eq!(app.focus, Focus::Mode);
    app.handle_key(code(KeyCode::Tab), 0);
    assert_eq!(app.focus, Focus::Output);
}

#[test]
fn ctrl_keys_do_nothing() {
    let mut app = App::new(vec![sample_output("a")]);
    let act = app.handle_key(KeyEvent { code: KeyCode::Char('q'), ctrl: true }, 0);
    assert_eq!(act, Action::Nothing);
    assert!(!app.should_quit);
}

#[test]
fn quit_without_pending_quits() {
    let mut app = App::new(vec![sample_output("a")]);
    app.handle_key(key('q'), 0);
    assert!(app.should_quit);
}

#[test]
fn quit_with_pending_asks_and_n_discards() {
    let mut app = App::new(vec![sample_output("a")]);
    app.handle_key(key('d'), 0);
    assert!(app.has_pending());
    app.handle_key(key('q'), 0);
    assert!(!app.should_quit);
    assert_eq!(app.modal, Some(ModalKind::QuitConfirm));
    app.handle_key(key('c'), 0);
    assert!(app.modal.is_none());
    assert!(app.has_pending());
    app.handle_key(key('q'), 0);
    app.handle_key(key('n'), 0);
    assert!(app.should_quit);
    assert!(!app.has_pending());
}

#[test]
fn quit_confirm_y_runs_xrandr() {
    let mut app = App::new(vec![sample_output("a")]);
    app.handle_key(key('d'), 0);
    app.handle_key(key('q'), 0);
    let act = app.handle_key(key('Y'), 0);
    assert!(app.should_quit);
    match act {
        Action::RunXrandr { args, then: AfterRun::Staged { preview } } => {
            assert_eq!(args, vec!["--output", "a", "--off"]);
            assert_eq!(preview, "xrandr --output a --off");
        }
        other => panic!("unexpected action {other:?}"),
    }
}

#[test]
fn stage_keys_fill_pending_and_flash() {
    let mut app = App::new(vec![sample_output("eDP-1"), sample_output("HDMI-1")]);
    app.handle_key(key('R'), 5);
    assert_eq!(app.outputs[0].rotation, Rotation::Left);
    assert_eq!(app.current_status(5), Some("eDP-1 rotation -> left"));
    app.handle_key(key('x'), 5);
    assert_eq!(app.current_status(5), Some("eDP-1 reflection -> x"));
    app.handle_key(key('X'), 5);
    assert_eq!(app.outputs[0].reflection, Reflection::Normal);
    app.handle_key(key('m'), 5);
    assert!(app.outputs[0].is_primary);
    assert!(!app.outputs[1].is_primary);
    assert_eq!(app.current_status(5), Some("eDP-1 will become primary"));
    let c = app.pending.get("eDP-1").unwrap();
    assert_eq!(c.rotation, Some(Rotation::Left));
    assert_eq!(c.reflection, Some(Reflection::Normal));
    assert_eq!(c.primary, Some(true));
    app.handle_key(key('p'), 5);
    assert_eq!(app.pending.get("eDP-1").unwrap().off, Some(false));
    assert_eq!(app.current_status(5), Some("eDP-1 will be turned on (--auto)"));
}

#[test]
fn enter_stages_highlighted_mode() {
    let mut app = App::new(vec![sample_output("eDP-1")]);
    app.handle_key(key('d'), 0);
    app.handle_key(code(KeyCode::Enter), 0);
    let c = app.pending.get("eDP-1").unwrap();
    assert_eq!(c.mode.as_ref().unwrap().name, "1920x1080");
    assert_eq!(c.off, None);
    assert_eq!(app.current_status(0), Some("Staged eDP-1 -> 1920x1080 @ 60.00Hz"));
}

#[test]
fn scale_steps_clamped() {
    let mut app = App::new(vec![sample_output("eDP-1")]);
    app.handle_key(key(']'), 0);
    assert_eq!(app.pending.get("eDP-1").unwrap().scale, Some((1_100_000, 1_100_000)));
    for _ in 0..20 {
        app.handle_key(key('['), 0);
    }
    assert_eq!(app.pending.get("eDP-1").unwrap().scale, Some((100_000, 100_000)));
}

#[test]
fn reset_discards_pending() {
    let mut app = App::new(vec![sample_output("eDP-1")]);
    app.handle_key(key('d'), 0);
    app.handle_key(key('r'), 7);
    assert!(app.pending.is_empty());
    assert_eq!(app.current_status(7), Some("Pending changes cleared"));
}

#[test]
fn apply_without_pending_flashes() {
    let mut app = App::new(vec![sample_output("eDP-1")]);
    let act = app.handle_key(key('a'), 0);
    assert_eq!(act, Action::Nothing);
    assert_eq!(app.current_status(0), Some("No pending changes to apply"));
}

#[test]
fn apply_then_success_clears_and_refreshes() {
    let mut app = App::new(vec![sample_output("eDP-1")]);
    app.handle_key(key('d'), 0);
    let act = app.handle_key(key('a'), 0);
    let then = match act {
        Action::RunXrandr { then, .. } => then,
        other => panic!("unexpected action {other:?}"),
    };
    let next = app.complete(Outcome::XrandrRan { then, result: Ok(()) }, 1);
    assert_eq!(next, Action::Refresh { close_modal: false });
    assert!(app.pending.is_empty());
    assert_eq!(app.last_preview, "xrandr --output eDP-1 --off");
    assert_eq!(app.current_status(1), Some("Applied successfully"));
    let mut off = sample_output("eDP-1");
    off.off = true;
    let done = app.complete(Outcome::Refreshed { close_modal: false, result: Ok(vec![off]) }, 2);
    assert_eq!(done, Action::Nothing);
    assert!(app.outputs[0].off);
}

#[test]
fn apply_failure_shows_error() {
    let mut app = App::new(vec![sample_output("eDP-1")]);
    app.handle_key(key('d'), 0);
    let act = app.handle_key(key('a'), 0);
    let then = match act {
        Action::RunXrandr { then, .. } => then,
        other => panic!("unexpected action {other:?}"),
    };
    app.complete(Outcome::XrandrRan { then, result: Err("boom".into()) }, 1);
    assert_eq!(app.modal, Some(ModalKind::Error("boom".into())));
    assert!(app.has_pending());
    app.handle_key(code(KeyCode::Esc), 2);
    assert!(app.modal.is_none());
}

#[test]
fn refresh_pulls_selection_back() {
    let mut app = App::new(vec![sample_output("a"), sample_output("b")]);
    app.selected_output = 1;
    app.selected_mode = 3;
    app.refresh(vec![sample_output("a")]);
    assert_eq!(app.selected_output, 0);
    assert_eq!(app.selected_mode, 0);
}

#[test]
fn placement_needs_a_neighbour() {
    let mut off = sample_output("DP-1");
    off.connected = false;
    let mut app = App::new(vec![sample_output("eDP-1"), off, sample_output("HDMI-1")]);
    app.handle_key(key('H'), 0);
    assert_eq!(app.current_status(0), Some("No neighbour in that direction"));
    app.handle_key(key('L'), 0);
    assert_eq!(
        app.pending.get("eDP-1").unwrap().relative_to,
        Some(Some(("HDMI-1".to_string(), RelativePosition::RightOf)))
    );
    assert_eq!(app.current_status(0), Some("eDP-1 will be placed right-of HDMI-1"));
    // Above and below place against the previous connected output, else
    // the next one.
    app.handle_key(key('K'), 0);
    assert_eq!(
        app.pending.get("eDP-1").unwrap().relative_to,
        Some(Some(("HDMI-1".to_string(), RelativePosition::Above)))
    );
    assert_eq!(app.current_status(0), Some("eDP-1 will be placed above HDMI-1"));
    app.selected_output = 2;
    app.handle_key(key('J'), 0);
    assert_eq!(
        app.pending.get("HDMI-1").unwrap().relative_to,
        Some(Some(("eDP-1".to_string(), RelativePosition::Below)))
    );
    // An output alone has no neighbour.
    let mut solo = App::new(vec![sample_output("eDP-1")]);
    solo.handle_key(key('K'), 0);
    assert_eq!(solo.current_status(0), Some("No neighbour in that direction"));
}

#[test]
fn k_places_above_previous_output() {
    let mut app = App::new(vec![sample_output("A"), sample_output("B")]);
    app.selected_output = 1;
    app.handle_key(key('K'), 0);
    assert_eq!(
        app.pending.get("B").unwrap().relative_to,
        Some(Some(("A".to_string(), RelativePosition::Above)))
    );
}

fn submit(kind: char, text: &str) -> App {
    let mut app = App::new(vec![sample_output("eDP-1")]);
    app.handle_key(key(kind), 0);
    for c in text.chars() {
        app.handle_key(key(c), 0);
    }
    app.handle_key(code(KeyCode::Enter), 0);
    app
}

fn dialog_error(app: &App) -> Option<String> {
    match &app.modal {
        Some(ModalKind::Input(i)) => i.error.clone(),
        _ => None,
    }
}

#[test]
fn scale_and_gamma_read_float_text() {
    let app = submit('s', "1e0");
    assert!(app.modal.is_none());
    assert_eq!(app.pending.get("eDP-1").unwrap().scale, Some((1_000_000, 1_000_000)));
    let app = submit('s', "125E-2x.5");
    assert_eq!(app.pending.get("eDP-1").unwrap().scale, Some((1_250_000, 500_000)));
    let app = submit('s', "+2.");
    assert_eq!(app.pending.get("eDP-1").unwrap().scale, Some((2_000_000, 2_000_000)));
    let app = submit('s', "0.08e+1");
    assert_eq!(app.pending.get("eDP-1").unwrap().scale, Some((800_000, 800_000)));
    let app = submit('g', "1e0:8e-1:+.8");
    assert_eq!(app.pending.get("eDP-1").unwrap().gamma, Some((1_000_000, 800_000, 800_000)));
    // Non-finite and out-of-range values are refused by the range check.
    for t in ["inf", "-Infinity", "NaN", "1e400", "1e-400", "9e0"] {
        assert_eq!(dialog_error(&submit('s', t)).as_deref(), Some("scale must be in 0.1..=8.0"), "{t}");
    }
    assert_eq!(
        dialog_error(&submit('g', "1:nan:1")).as_deref(),
        Some("gamma components must be in 0.1..=10.0")
    );
    // Text that is no number.
    for t in ["1e", "e5", ".", "1..2", "1e1.5", "in"] {
        assert_eq!(dialog_error(&submit('s', t)).as_deref(), Some("invalid scale"), "{t}");
    }
}


#[test]
fn help_modal_scrolls_and_closes() {
    let mut app = App::new(vec![sample_output("a")]);
    app.handle_key(key('?'), 0);
    assert_eq!(app.modal, Some(ModalKind::Help));
    app.handle_key(key('k'), 0);
    assert_eq!(app.help_scroll, 0);
    app.handle_key(code(KeyCode::PageDown), 0);
    app.handle_key(key('j'), 0);
    assert_eq!(app.help_scroll, 11);
    app.handle_key(code(KeyCode::PageUp), 0);
    assert_eq!(app.help_scroll, 1);
    app.handle_key(code(KeyCode::Home), 0);
    assert_eq!(app.help_scroll, 0);
    // Keys of the main view do nothing while the help is open.
    app.handle_key(key('d'), 0);
    assert!(app.pending.is_empty());
    app.handle_key(key('?'), 0);
    assert!(app.modal.is_none());
}

#[test]
fn input_modal_edits_and_submits_scale() {
    let mut app = App::new(vec![sample_output("eDP-1")]);
    app.handle_key(key('s'), 0);
    match &app.modal {
        Some(ModalKind::Input(i)) => {
            assert_eq!(i.title, "scale");
            assert_eq!(i.target, InputTarget::Scale);
            assert_eq!(i.on_submit_kind, InputKind::ParseScale);
            assert_eq!(i.prompt, "Enter scale, e.g. 0.8 or 0.8x0.6:");
        }
        other => panic!("unexpected modal {other:?}"),
    }
    for c in "0.8x0.6z".chars() {
        app.handle_key(key(c), 0);
    }
    app.handle_key(code(KeyCode::Backspace), 0);
    let act = app.handle_key(code(KeyCode::Enter), 3);
    assert_eq!(act, Action::Nothing);
    assert!(app.modal.is_none());
    assert_eq!(app.pending.get("eDP-1").unwrap().scale, Some((800_000, 600_000)));
    assert_eq!(app.current_status(3), Some("eDP-1 updated"));
}

#[test]
fn input_modal_errors_stay_in_dialog() {
    let mut app = App::new(vec![sample_output("eDP-1")]);
    app.handle_key(key('g'), 0);
    for c in "1.0:0.8".chars() {
        app.handle_key(key(c), 0);
    }
    app.handle_key(code(KeyCode::Enter), 0);
    match &app.modal {
        Some(ModalKind::Input(i)) => assert_eq!(i.error.as_deref(), Some("gamma must be R:G:B")),
        other => panic!("unexpected modal {other:?}"),
    }
    // Submitting stages an (empty) entry for the output even on error.
    assert!(app.pending.contains_key("eDP-1"));
    assert!(!app.has_pending());
    app.handle_key(code(KeyCode::Esc), 0);
    assert!(app.modal.is_none());
}

#[test]
fn input_errors_for_each_kind() {
    let cases: Vec<(char, &str, &str)> = vec![
        ('s', "9", "scale must be in 0.1..=8.0"),
        ('s', "ax1", "invalid x factor"),
        ('s', "1xb", "invalid y factor"),
        ('s', "q", "invalid scale"),
        ('g', "1:x:1", "invalid float literal"),
        ('g', "1::1", "cannot parse float from empty string"),
        ('g', "1:1:20", "gamma components must be in 0.1..=10.0"),
        ('P', "DP-9", "unknown output: DP-9"),
        ('O', "10", "expected <x>x<y>"),
        ('O', "ax1", "invalid x"),
        ('O', "1xb", "invalid y"),
        ('N', "0x10", "panning dimensions must be > 0"),
        ('N', "10", "expected <w>x<h>"),
        ('N', "-1x10", "invalid width"),
        ('N', "1x-10", "invalid height"),
        ('s', "   ", "empty input"),
    ];
    for (k, text, msg) in cases {
        let mut app = App::new(vec![sample_output("eDP-1")]);
        app.handle_key(key(k), 0);
        for c in text.chars() {
            app.handle_key(key(c), 0);
        }
        app.handle_key(code(KeyCode::Enter), 0);
        match &app.modal {
            Some(ModalKind::Input(i)) => assert_eq!(i.error.as_deref(), Some(msg), "input {text:?}"),
            other => panic!("unexpected modal {other:?} for {text:?}"),
        }
    }
}

#[test]
fn position_clears_relative_placement() {
    let mut app = App::new(vec![sample_output("eDP-1"), sample_output("HDMI-1")]);
    app.handle_key(key('L'), 0);
    app.handle_key(key('O'), 0);
    for c in "1920x-5".chars() {
        app.handle_key(key(c), 0);
    }
    app.handle_key(code(KeyCode::Enter), 0);
    let c = app.pending.get("eDP-1").unwrap();
    assert_eq!(c.position, Some((1920, -5)));
    assert_eq!(c.relative_to, Some(None));
}

#[test]
fn clone_stages_same_as() {
    let mut app = App::new(vec![sample_output("eDP-1"), sample_output("HDMI-1")]);
    app.handle_key(key('P'), 0);
    for c in " HDMI-1 ".chars() {
        app.handle_key(key(c), 0);
    }
    app.handle_key(code(KeyCode::Enter), 0);
    assert_eq!(
        app.pending.get("eDP-1").unwrap().relative_to,
        Some(Some(("HDMI-1".to_string(), RelativePosition::SameAs)))
    );
}

#[test]
fn save_flow_queries_then_writes() {
    let mut app = App::new(vec![sample_output("eDP-1")]);
    app.handle_key(key('R'), 0);
    app.handle_key(key('W'), 0);
    for c in "home".chars() {
        app.handle_key(key(c), 0);
    }
    let act = app.handle_key(code(KeyCode::Enter), 0);
    let (name, input) = match act {
        Action::QueryForSave { name, input } => (name, input),
        other => panic!("unexpected action {other:?}"),
    };
    assert_eq!(name, "home");
    assert!(matches!(app.modal, Some(ModalKind::Input(_))));
    let next = app.complete(
        Outcome::SaveQueried { name, input, result: Ok(vec![sample_output("eDP-1")]) },
        1,
    );
    match next {
        Action::WriteProfile { name, config } => {
            assert_eq!(name, "home");
            assert_eq!(config.outputs[0].rotation, Rotation::Left);
        }
        other => panic!("unexpected action {other:?}"),
    }
    assert!(app.modal.is_none());
    app.complete(Outcome::ProfileWritten(Ok("/p/home.toml".into())), 2);
    assert_eq!(app.current_status(2), Some("Profile saved to /p/home.toml"));
}

#[test]
fn save_with_bad_name_reports_in_dialog() {
    let mut app = App::new(vec![sample_output("eDP-1")]);
    app.handle_key(key('W'), 0);
    for c in "a b".chars() {
        app.handle_key(key(c), 0);
    }
    let act = app.handle_key(code(KeyCode::Enter), 0);
    let (name, input) = match act {
        Action::QueryForSave { name, input } => (name, input),
        other => panic!("unexpected action {other:?}"),
    };
    let next = app.complete(
        Outcome::SaveQueried { name, input, result: Ok(vec![sample_output("eDP-1")]) },
        1,
    );
    assert_eq!(next, Action::Nothing);
    match &app.modal {
        Some(ModalKind::Input(i)) => assert_eq!(
            i.error.as_deref(),
            Some("profile name has disallowed character: ' '")
        ),
        other => panic!("unexpected modal {other:?}"),
    }
}

#[test]
fn profile_list_navigation_and_actions() {
    let mut app = App::new(vec![sample_output("eDP-1")]);
    assert_eq!(app.handle_key(key('T'), 0), Action::ListProfiles);
    app.complete(Outcome::ProfilesListed(Ok(vec![])), 0);
    assert_eq!(app.current_status(0), Some("No saved profiles yet \u{2013} press W to export one"));
    app.complete(Outcome::ProfilesListed(Ok(vec!["a".into(), "b".into(), "c".into()])), 0);
    app.handle_key(key('k'), 0);
    assert_eq!(
        app.modal,
        Some(ModalKind::ProfileList { profiles: vec!["a".into(), "b".into(), "c".into()], selected: 2 })
    );
    app.handle_key(key('j'), 0);
    app.handle_key(key('j'), 0);
    let act = app.handle_key(key('d'), 0);
    assert_eq!(
        act,
        Action::DeleteProfile { name: "b".into(), profiles: vec!["a".into(), "b".into(), "c".into()], selected: 1 }
    );
    app.complete(
        Outcome::ProfileDeleted {
            name: "b".into(),
            profiles: vec!["a".into(), "b".into(), "c".into()],
            selected: 1,
            result: Ok(()),
        },
        0,
    );
    assert_eq!(
        app.modal,
        Some(ModalKind::ProfileList { profiles: vec!["a".into(), "c".into()], selected: 1 })
    );
    assert_eq!(app.current_status(0), Some("Deleted profile b"));
    let act = app.handle_key(code(KeyCode::Enter), 0);
    assert_eq!(act, Action::LoadProfile { name: "c".into() });
}

#[test]
fn loading_a_missing_profile_reports_error() {
    let mut app = App::new(vec![sample_output("eDP-1")]);
    app.complete(
        Outcome::ProfileLoaded { name: "gone".into(), path: "/p/gone.toml".into(), result: Ok(None) },
        0,
    );
    assert_eq!(
        app.modal,
        Some(ModalKind::Error("profile \"gone\" disappeared (was: /p/gone.toml)".into()))
    );
}

#[test]
fn loading_a_profile_skips_disconnected_outputs() {
    let mut dp = sample_output("DP-1");
    dp.connected = false;
    let mut app = App::new(vec![sample_output("eDP-1"), dp.clone()]);
    let mut saved_edp = sample_output("eDP-1");
    saved_edp.rotation = Rotation::Inverted;
    let cfg = LayoutConfig::from_outputs(&[saved_edp, sample_output("DP-1")]);
    let act = app.complete(
        Outcome::ProfileLoaded { name: "home".into(), path: "/p/home.toml".into(), result: Ok(Some(cfg)) },
        0,
    );
    let (args, then) = match act {
        Action::RunXrandr { args, then } => (args, then),
        other => panic!("unexpected action {other:?}"),
    };
    assert!(args.contains(&"eDP-1".to_string()));
    assert!(args.contains(&"inverted".to_string()));
    assert!(!args.contains(&"DP-1".to_string()));
    let next = app.complete(Outcome::XrandrRan { then, result: Ok(()) }, 1);
    assert_eq!(next, Action::Refresh { close_modal: true });
    assert_eq!(app.last_applied_profile.as_deref(), Some("home"));
    assert_eq!(app.current_status(1), Some("Applied profile home (/p/home.toml)"));
}

#[test]
fn edid_key_opens_parsed_view() {
    let mut app = App::new(vec![sample_output("eDP-1")]);
    app.handle_key(key('e'), 0);
    assert_eq!(app.modal, Some(ModalKind::EdidParsed(0, vec![])));
    app.handle_key(key('q'), 0);
    assert!(app.modal.is_none());
}

#[test]
fn cursor_is_always_visible() {
    let mut app = App::new(vec![sample_output("eDP-1")]);
    app.handle_key(key('N'), 0);
    match &app.modal {
        Some(ModalKind::Input(i)) => {
            assert!(i.cursor_visible(0));
            assert!(i.cursor_visible(123_456));
        }
        other => panic!("unexpected modal {other:?}"),
    }
}

#[test]
fn tick_and_selected_output_mut() {
    let mut app = App::new(vec![sample_output("eDP-1")]);
    app.on_tick();
    assert_eq!(app.tick, 1);
    if let Some(o) = app.selected_output_mut() {
        o.rotation = Rotation::Right;
    }
    assert_eq!(app.outputs[0].rotation, Rotation::Right);
    app.selected_output = 5;
    assert!(app.selected_output_mut().is_none());
}

#[test]
fn loading_a_layout_stages_it() {
    let mut edp = sample_output("eDP-1");
    edp.connected = false;
    let mut app = App::new(vec![edp, sample_output("HDMI-1")]);
    let mut saved = sample_output("eDP-1");
    saved.rotation = Rotation::Right;
    let cfg = LayoutConfig {
        version: 1,
        outputs: vec![vrandr::config::PersistedOutput::from_output(&saved)],
        custom_modes: vec![vrandr::model::CustomMode { name: "M1".into(), modeline: "1 2 3".into() }],
    };
    app.load_layout_into_pending(&cfg, 4);
    assert_eq!(app.pending.get("eDP-1").unwrap().rotation, Some(Rotation::Right));
    // No output has the mode yet, so it goes to the first connected one.
    assert_eq!(app.outputs[1].custom_modes.len(), 1);
    assert_eq!(app.pending.get("HDMI-1").unwrap().custom_modes.len(), 1);
    assert_eq!(app.current_status(4), Some("Loaded saved layout into pending"));
    // Loading it again puts the mode on the output that now carries it.
    app.load_layout_into_pending(&cfg, 5);
    assert_eq!(app.outputs[1].custom_modes.len(), 2);
    assert!(app.outputs[0].custom_modes.is_empty());
}

#[test]
fn brightness_key_stages_brightness() {
    let app = submit('b', "0.8");
    assert!(app.modal.is_none());
    let c = app.pending.get("eDP-1").unwrap();
    assert_eq!(c.brightness, Some(800_000));
    assert_eq!(
        vrandr::command::change_to_args(c),
        vec!["--brightness", "0.8"]
    );
    assert_eq!(dialog_error(&submit('b', "11")).as_deref(), Some("brightness must be in 0.0..=10.0"));
    assert_eq!(dialog_error(&submit('b', "x")).as_deref(), Some("invalid brightness"));
    let mut app = App::new(vec![sample_output("eDP-1")]);
    app.handle_key(key('b'), 0);
    match &app.modal {
        Some(ModalKind::Input(i)) => {
            assert_eq!(i.title, "brightness");
            assert_eq!(i.target, InputTarget::Brightness);
            assert_eq!(i.on_submit_kind, InputKind::ParseBrightness);
        }
        other => panic!("unexpected modal {other:?}"),
    }
}

#[test]
fn save_errors_are_shown() {
    let mut app = App::new(vec![sample_output("eDP-1")]);
    app.handle_key(key('W'), 0);
    for c in "home".chars() {
        app.handle_key(key(c), 0);
    }
    let (name, input) = match app.handle_key(code(KeyCode::Enter), 0) {
        Action::QueryForSave { name, input } => (name, input),
        other => panic!("unexpected action {other:?}"),
    };
    app.complete(Outcome::SaveQueried { name, input, result: Err("no xrandr".into()) }, 1);
    assert_eq!(
        app.modal,
        Some(ModalKind::Error("refreshing xrandr state before save failed: no xrandr".into()))
    );
    let mut app = App::new(vec![sample_output("eDP-1")]);
    app.complete(Outcome::ProfileWritten(Err("disk full".into())), 1);
    assert_eq!(app.modal, Some(ModalKind::Error("disk full".into())));
}
