use vrandr::app::App;
use vrandr::model::{Mode, Output, PendingChange, Rotation};
use vrandr::ui::{
    body_height, help_offset, hex_rows, inner_rect, input_text, mode_rows, output_rows,
    pending_count, preview_height, preview_text, profile_rows, selection_label, status_gap,
    truncate, visible_preview,
};

fn out(name: &str) -> Output {
    let mut o = Output::default();
    o.name = name.into();
    o.connected = true;
    o.current_mode = Some(Mode::new("1920x1080".into(), 60_000, true, false));
    o.available_modes = vec![
        Mode::new("1920x1080".into(), 60_000, true, true),
        Mode::new("1280x720".into(), 59_940, false, false),
    ];
    o
}

#[test]
fn truncate_adds_ellipsis() {
    assert_eq!(truncate("hello", 0), "");
    assert_eq!(truncate("hello", 5), "hello");
    assert_eq!(truncate("hello", 4), "hel\u{2026}");
    assert_eq!(truncate("hello", 1), "\u{2026}");
    assert_eq!(truncate("h\u{e9}llo", 3), "h\u{e9}\u{2026}");
}

#[test]
fn preview_text_and_height() {
    let mut app = App::new(vec![out("eDP-1")]);
    assert_eq!(preview_text(&app), "xrandr  (no pending changes)");
    assert_eq!(preview_height(&app, 10), 1);
    let mut c = PendingChange::default();
    c.rotation = Some(Rotation::Left);
    app.pending.insert("eDP-1".into(), c);
    let text = preview_text(&app);
    assert_eq!(text, "xrandr --output eDP-1 --rotate left");
    // 35 characters: 4 lines of 10, 2 lines of 20, capped at 5 lines of 1.
    assert_eq!(preview_height(&app, 10), 4);
    assert_eq!(preview_height(&app, 35), 1);
    assert_eq!(preview_height(&app, 34), 2);
    assert_eq!(preview_height(&app, 1), 5);
    assert_eq!(preview_height(&app, 0), 5);
    app.last_applied_profile = Some("home".into());
    assert_eq!(preview_text(&app), "Applied profile: home");
    assert_eq!(preview_height(&app, 1), 1);
}

#[test]
fn visible_preview_forms() {
    let mut app = App::new(vec![out("eDP-1")]);
    assert_eq!(visible_preview(&app, 0, 3), None);
    assert_eq!(visible_preview(&app, 5, 1).as_deref(), Some("xrandr  (no pending changes)"));
    let mut c = PendingChange::default();
    c.rotation = Some(Rotation::Left);
    app.pending.insert("eDP-1".into(), c);
    assert_eq!(visible_preview(&app, 5, 2).as_deref(), Some("xrandr --o"));
    assert_eq!(visible_preview(&app, 80, 2).as_deref(), Some("xrandr --output eDP-1 --rotate left"));
    app.last_applied_profile = Some("home".into());
    assert_eq!(visible_preview(&app, 10, 3).as_deref(), Some("Applied p\u{2026}"));
}

#[test]
fn list_rows() {
    let mut a = out("eDP-1");
    a.is_primary = true;
    let mut b = out("HDMI-1");
    b.off = true;
    let mut app = App::new(vec![a, b]);
    app.pending.insert("HDMI-1".into(), PendingChange::default());
    assert_eq!(
        output_rows(&app),
        vec![
            "> *   eDP-1       1920x1080 @ 60.00".to_string(),
            "   +  HDMI-1      off".to_string(),
        ]
    );
    assert_eq!(
        mode_rows(&app),
        vec![">  *+  1920x1080   60.00Hz".to_string(), "       1280x720   59.94Hz".to_string()]
    );
    app.selected_output = 7;
    assert_eq!(mode_rows(&app), vec!["(no output selected)".to_string()]);
    assert_eq!(selection_label(&app), "-         ");
    app.selected_output = 1;
    assert_eq!(selection_label(&app), "HDMI-1    ");
}

#[test]
fn counts_only_visible_changes() {
    let mut app = App::new(vec![out("a"), out("b")]);
    assert_eq!(pending_count(&app), 0);
    app.pending.insert("a".into(), PendingChange::default());
    let mut c = PendingChange::default();
    c.off = Some(true);
    app.pending.insert("b".into(), c);
    assert_eq!(pending_count(&app), 1);
}

#[test]
fn hex_dump_rows() {
    let bytes: Vec<u8> = (0u8..20).collect();
    let rows = hex_rows(&bytes);
    assert_eq!(rows.len(), 2);
    assert_eq!(rows[0].0, "0000: ");
    assert_eq!(rows[0].1, "00 01 02 03 04 05 06 07 08 09 0a 0b 0c 0d 0e 0f ");
    assert_eq!(rows[1].0, "0010: ");
    assert_eq!(rows[1].1, "10 11 12 13 ");
    assert!(hex_rows(&vec![]).is_empty());
    assert_eq!(hex_rows(&vec![0xab; 16]).len(), 1);
}

#[test]
fn small_layout_sums() {
    assert_eq!(body_height(20, 5), 14);
    assert_eq!(body_height(3, 5), 0);
    assert_eq!(inner_rect(0, 0, 10, 5), (1, 1, 8, 3));
    assert_eq!(inner_rect(4, 4, 1, 5), (4, 4, 1, 5));
    assert_eq!(help_offset(50, 41, 10), 31);
    assert_eq!(help_offset(3, 41, 10), 3);
    assert_eq!(help_offset(3, 5, 10), 0);
    assert_eq!(status_gap(100, 60, 10), Some(29));
    assert_eq!(status_gap(71, 60, 10), None);
    assert_eq!(status_gap(10, 60, 10), None);
}

#[test]
fn profile_and_input_rows() {
    let names = vec!["a".to_string(), "b".to_string()];
    assert_eq!(profile_rows(&names, 1), vec!["  a".to_string(), "> b".to_string()]);
    let mut app = App::new(vec![out("a")]);
    app.open_input("scale", "p", vrandr::app::InputTarget::Scale, vrandr::app::InputKind::ParseScale, 0);
    if let Some(vrandr::app::ModalKind::Input(i)) = &app.modal {
        assert_eq!(input_text(i, 0), "_");
    } else {
        panic!("no input modal");
    }
}
