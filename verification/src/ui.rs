//! What the screen shows: the preview pane, list rows, the EDID hex dump
//! and a few layout sums. Drawing itself happens outside the library.

use vstd::prelude::*;
use crate::app::{App, AppView, InputModal, InputModalView, outputs_view};
use crate::command::{command_args, preview_command, preview_spec};
use crate::model::{ModeView, OutputView, push_padded_left, push_padded_right, status_label_spec, visible_change};
use crate::num::{hex, milli_2dp, pad_left, pad_right, push_hex_padded, push_milli_2dp};
use crate::pending::{PendingSeq, lookup};
use crate::text::{push_char, push_str, strs_view};

verus! {

broadcast use vstd::string::group_string_axioms;

/// The most lines the preview pane grows to.
pub const MAX_PREVIEW_LINES: usize = 5;

/// The preview pane's text: the applied profile's name, or the command
/// the staged changes make.
pub open spec fn preview_text_spec(a: AppView) -> Seq<char> {
    match a.last_applied_profile {
        Some(n) => "Applied profile: "@ + n,
        None => preview_spec(command_args(a.pending)),
    }
}

/// The text of the preview pane.
pub fn preview_text(app: &App) -> (s: String)
    ensures
        s@ == preview_text_spec(app@),
{
    match &app.last_applied_profile {
        Some(name) => {
            let mut s = String::from_str("Applied profile: ");
            push_str(&mut s, name.as_str());
            s
        },
        None => preview_command(&app.pending),
    }
}

/// `n / d` rounded up.
pub open spec fn ceil_div(n: int, d: int) -> int {
    n / d + if n % d == 0 {
        0int
    } else {
        1int
    }
}

/// Lines the preview pane takes at `width` columns: one for a profile
/// summary or when nothing is staged; else as many as the command needs,
/// between one and `MAX_PREVIEW_LINES`.
pub open spec fn preview_height_spec(a: AppView, width: u16) -> int {
    if a.last_applied_profile is Some || a.pending.len() == 0 {
        1
    } else {
        let w = if width == 0 {
            1
        } else {
            width as int
        };
        let needed = ceil_div(preview_text_spec(a).len() as int, w);
        let needed = if needed < 1 {
            1
        } else {
            needed
        };
        if needed > MAX_PREVIEW_LINES {
            MAX_PREVIEW_LINES as int
        } else {
            needed
        }
    }
}

/// Height of the preview pane (see `preview_height_spec`).
pub fn preview_height(app: &App, width: u16) -> (h: u16)
    ensures
        h == preview_height_spec(app@, width),
        1 <= h <= MAX_PREVIEW_LINES,
{
    if app.last_applied_profile.is_some() || app.pending.is_empty() {
        return 1;
    }
    let w: usize = if width == 0 {
        1
    } else {
        width as usize
    };
    let text = preview_text(app);
    let n = text.as_str().unicode_len();
    proof {
        if n % w != 0 {
            assert(w != 1 && n != 0) by (nonlinear_arith)
                requires
                    n % w != 0,
                    w > 0,
            ;
            vstd::arithmetic::div_mod::lemma_div_decreases(n as int, w as int);
        }
    }
    let needed = if n % w == 0 {
        n / w
    } else {
        n / w + 1
    };
    let needed = if needed < 1 {
        1
    } else {
        needed
    };
    if needed > MAX_PREVIEW_LINES {
        MAX_PREVIEW_LINES as u16
    } else {
        needed as u16
    }
}

/// `s` cut to at most `width` characters, the last one replaced by `…`
/// when something was cut.
pub open spec fn truncate_spec(s: Seq<char>, width: nat) -> Seq<char> {
    if width == 0 {
        Seq::empty()
    } else if s.len() <= width {
        s
    } else {
        s.take(width - 1).push('\u{2026}')
    }
}

/// Cut `s` to `width` characters (see `truncate_spec`).
pub fn truncate(s: &str, width: usize) -> (r: String)
    ensures
        r@ == truncate_spec(s@, width as nat),
{
    if width == 0 {
        return String::new();
    }
    let cs = crate::text::chars_of(s);
    if cs.len() <= width {
        return String::from_str(s);
    }
    let kept = crate::text::slice_take(cs.as_slice(), width - 1);
    let mut out = crate::text::string_of(kept.as_slice());
    push_char(&mut out, '\u{2026}');
    out
}

/// What the preview pane shows in `width` x `height` cells (`None` when
/// it has no room): a profile summary on one line, cut with `…`; the
/// placeholder; or as much of the staged command as fits, never cut
/// with `…`.
pub open spec fn visible_preview_spec(a: AppView, width: u16, height: u16) -> Option<Seq<char>> {
    let full = preview_text_spec(a);
    if width == 0 || height == 0 {
        None
    } else if a.last_applied_profile is Some {
        Some(truncate_spec(full, width as nat))
    } else if a.pending.len() == 0 {
        Some(full)
    } else {
        let m = width * height;
        Some(
            if full.len() <= m {
                full
            } else {
                full.take(m)
            },
        )
    }
}

/// The text of the preview pane at a given size (see
/// `visible_preview_spec`).
pub fn visible_preview(app: &App, width: u16, height: u16) -> (r: Option<String>)
    ensures
        match r {
            Some(s) => visible_preview_spec(app@, width, height) == Some(s@),
            None => visible_preview_spec(app@, width, height) is None,
        },
{
    if width == 0 || height == 0 {
        return None;
    }
    let full = preview_text(app);
    if app.last_applied_profile.is_some() {
        return Some(truncate(full.as_str(), width as usize));
    }
    if app.pending.is_empty() {
        return Some(full);
    }
    proof {
        vstd::arithmetic::mul::lemma_mul_upper_bound(width as int, 0xffff, height as int, 0xffff);
    }
    let m: usize = width as usize * height as usize;
    let cs = crate::text::chars_of(full.as_str());
    if cs.len() <= m {
        Some(full)
    } else {
        let kept = crate::text::slice_take(cs.as_slice(), m);
        Some(crate::text::string_of(kept.as_slice()))
    }
}


/// Rows left for the two lists once the status line and a preview pane
/// of `preview_h` rows are placed in `height` rows.
pub fn body_height(height: u16, preview_h: u16) -> (h: u16)
    requires
        preview_h < u16::MAX,
    ensures
        h == if height > 1 + preview_h {
            height - 1 - preview_h
        } else {
            0
        },
{
    height.saturating_sub(1 + preview_h)
}

/// A rectangle shrunk by one cell on each side for a border, or left as
/// it is when it is too small for one.
pub fn inner_rect(x: u16, y: u16, w: u16, h: u16) -> (r: (u16, u16, u16, u16))
    requires
        w >= 2 && h >= 2 ==> x < u16::MAX && y < u16::MAX,
    ensures
        r == if w < 2 || h < 2 {
            (x, y, w, h)
        } else {
            ((x + 1) as u16, (y + 1) as u16, (w - 2) as u16, (h - 2) as u16)
        },
{
    if w < 2 || h < 2 {
        return (x, y, w, h);
    }
    (x + 1, y + 1, w - 2, h - 2)
}

/// The first help line shown: the scroll offset, kept where the last
/// `height` of the `lines` lines fill the view.
pub open spec fn help_offset_spec(scroll: u16, lines: usize, height: u16) -> u16 {
    let max = if lines > height {
        (lines - height) as u16
    } else {
        0u16
    };
    if scroll < max {
        scroll
    } else {
        max
    }
}

/// Clamp the help scroll offset (see `help_offset_spec`).
pub fn help_offset(scroll: u16, lines: usize, height: u16) -> (o: u16)
    ensures
        o == help_offset_spec(scroll, lines, height),
{
    let max: u16 = if lines > height as usize {
        #[verifier::truncate]
        ((lines - height as usize) as u16)
    } else {
        0
    };
    if scroll < max {
        scroll
    } else {
        max
    }
}

/// Spaces that push a status message of `msg_len` characters to the
/// right edge after `used` characters of a `width`-wide line; `None`
/// when there is no room, and the message just follows.
pub open spec fn status_gap_spec(width: usize, used: usize, msg_len: usize) -> Option<usize> {
    if width > used + msg_len + 1 {
        Some((width - used - msg_len - 1) as usize)
    } else {
        None
    }
}

/// See `status_gap_spec`.
pub fn status_gap(width: usize, used: usize, msg_len: usize) -> (g: Option<usize>)
    ensures
        g == status_gap_spec(width, used, msg_len),
{
    if used < width && msg_len < width - used && 1 < width - used - msg_len {
        Some(width - used - msg_len - 1)
    } else {
        None
    }
}

/// Staged changes that show, counted.
pub open spec fn visible_count(p: PendingSeq) -> nat
    decreases p.len(),
{
    if p.len() == 0 {
        0
    } else {
        visible_count(p.drop_last()) + if visible_change(p.last().1) {
            1nat
        } else {
            0nat
        }
    }
}

/// How many outputs have a visible change staged (the status line's
/// "pending" count).
pub fn pending_count(app: &App) -> (n: usize)
    ensures
        n == visible_count(app@.pending),
{
    let mut n: usize = 0;
    let mut i: usize = 0;
    let ghost p = app@.pending;
    while i < app.pending.len()
        invariant
            p == app@.pending,
            i <= p.len(),
            n <= i,
            n == visible_count(p.take(i as int)),
        decreases p.len() - i,
    {
        let (_, c) = app.pending.entry_at(i);
        assert(p.take(i + 1).drop_last() =~= p.take(i as int));
        if c.has_visible_change() {
            n += 1;
        }
        i += 1;
    }
    assert(p.take(p.len() as int) =~= p);
    n
}

/// The name of the selected output padded to 10, or `-`.
pub open spec fn selection_label_spec(a: AppView) -> Seq<char> {
    pad_right(
        if a.selected_output < a.outputs.len() {
            a.outputs[a.selected_output as int].name
        } else {
            "-"@
        },
        10,
    )
}

/// The "sel:" field of the status line.
pub fn selection_label(app: &App) -> (s: String)
    ensures
        s@ == selection_label_spec(app@),
{
    let mut s = String::new();
    if app.selected_output < app.outputs.len() {
        assert(app@.outputs[app.selected_output as int] == app.outputs@[app.selected_output as int]@);
        push_padded_right(&mut s, app.outputs[app.selected_output].name.as_str(), 10);
    } else {
        push_padded_right(&mut s, "-", 10);
    }
    s
}

/// `>` on the highlighted row, a space elsewhere.
pub open spec fn marker(sel: bool) -> Seq<char> {
    if sel {
        ">"@
    } else {
        " "@
    }
}

/// A row of the output list: the cursor, `*` for the primary output, `+`
/// when a change is staged for it, the name padded to 10, and its status.
pub open spec fn output_row_spec(a: AppView, i: int) -> Seq<char> {
    let o = a.outputs[i];
    marker(i == a.selected_output) + " "@ + (if o.is_primary {
        "*"@
    } else {
        " "@
    }) + (if lookup(a.pending, o.name) is Some {
        "+"@
    } else {
        " "@
    }) + "  "@ + pad_right(o.name, 10) + "  "@ + status_label_spec(o)
}

/// The rows of the output list.
pub fn output_rows(app: &App) -> (rows: Vec<String>)
    ensures
        strs_view(rows@) == Seq::new(app@.outputs.len(), |i: int| output_row_spec(app@, i)),
{
    let mut rows: Vec<String> = Vec::new();
    let mut i: usize = 0;
    while i < app.outputs.len()
        invariant
            i <= app.outputs.len(),
            strs_view(rows@) == Seq::new(i as nat, |k: int| output_row_spec(app@, k)),
        decreases app.outputs.len() - i,
    {
        let o = &app.outputs[i];
        assert(app@.outputs[i as int] == o@);
        let mut s = String::from_str(if i == app.selected_output {
            ">"
        } else {
            " "
        });
        push_str(&mut s, " ");
        push_str(&mut s, if o.is_primary {
            "*"
        } else {
            " "
        });
        push_str(&mut s, if app.pending.contains_key(o.name.as_str()) {
            "+"
        } else {
            " "
        });
        push_str(&mut s, "  ");
        push_padded_right(&mut s, o.name.as_str(), 10);
        push_str(&mut s, "  ");
        let label = o.status_label();
        push_str(&mut s, label.as_str());
        assert(s@ =~= output_row_spec(app@, i as int));
        let ghost before = strs_view(rows@);
        rows.push(s);
        assert(strs_view(rows@) =~= before.push(output_row_spec(app@, i as int)));
        assert(strs_view(rows@) =~= Seq::new((i + 1) as nat, |k: int| output_row_spec(app@, k)));
        i += 1;
    }
    rows
}

/// The current (`*`) and preferred (`+`) marks of a mode.
pub open spec fn mode_flags(m: ModeView) -> Seq<char> {
    if m.is_current {
        if m.is_preferred {
            " *+"@
        } else {
            " * "@
        }
    } else if m.is_preferred {
        "  +"@
    } else {
        "   "@
    }
}

/// A row of the mode list: the cursor, the marks, the name and the rate
/// with two decimals padded to 6.
pub open spec fn mode_row_spec(m: ModeView, sel: bool) -> Seq<char> {
    marker(sel) + " "@ + mode_flags(m) + "  "@ + m.name + "  "@ + pad_left(milli_2dp(m.refresh_rate as int), ' ', 6)
        + "Hz"@
}

/// The rows of the mode list: the selected output's modes, or a note
/// that no output is selected.
pub open spec fn mode_rows_spec(a: AppView) -> Seq<Seq<char>> {
    if a.selected_output < a.outputs.len() {
        let ms = a.outputs[a.selected_output as int].available_modes;
        Seq::new(ms.len(), |i: int| mode_row_spec(ms[i], i == a.selected_mode))
    } else {
        seq!["(no output selected)"@]
    }
}

/// The rows of the mode list (see `mode_rows_spec`).
pub fn mode_rows(app: &App) -> (rows: Vec<String>)
    ensures
        strs_view(rows@) == mode_rows_spec(app@),
{
    let mut rows: Vec<String> = Vec::new();
    if app.selected_output >= app.outputs.len() {
        rows.push(String::from_str("(no output selected)"));
        assert(strs_view(rows@) =~= mode_rows_spec(app@));
        return rows;
    }
    let o = &app.outputs[app.selected_output];
    assert(app@.outputs[app.selected_output as int] == o@);
    let ghost ms = o@.available_modes;
    let mut i: usize = 0;
    while i < o.available_modes.len()
        invariant
            i <= o.available_modes.len(),
            ms == o@.available_modes,
            ms.len() == o.available_modes.len(),
            strs_view(rows@) == Seq::new(i as nat, |k: int| mode_row_spec(ms[k], k == app.selected_mode)),
        decreases o.available_modes.len() - i,
    {
        let m = &o.available_modes[i];
        assert(ms[i as int] == m@);
        let mut s = String::from_str(if i == app.selected_mode {
            ">"
        } else {
            " "
        });
        push_str(&mut s, " ");
        push_str(&mut s, if m.is_current {
            if m.is_preferred {
                " *+"
            } else {
                " * "
            }
        } else if m.is_preferred {
            "  +"
        } else {
            "   "
        });
        push_str(&mut s, "  ");
        push_str(&mut s, m.name.as_str());
        push_str(&mut s, "  ");
        let mut rate = String::new();
        push_milli_2dp(&mut rate, m.refresh_rate);
        push_padded_left(&mut s, rate.as_str(), 6);
        push_str(&mut s, "Hz");
        assert(s@ =~= mode_row_spec(ms[i as int], i == app.selected_mode));
        let ghost before = strs_view(rows@);
        rows.push(s);
        assert(strs_view(rows@) =~= before.push(mode_row_spec(ms[i as int], i == app.selected_mode)));
        assert(strs_view(rows@) =~= Seq::new((i + 1) as nat, |k: int| mode_row_spec(ms[k], k == app.selected_mode)));
        i += 1;
    }
    rows
}

/// A row of the profile list: `> ` before the highlighted name.
pub open spec fn profile_row_spec(name: Seq<char>, sel: bool) -> Seq<char> {
    (if sel {
        "> "@
    } else {
        "  "@
    }) + name
}

/// The rows of the profile list.
pub fn profile_rows(profiles: &Vec<String>, selected: usize) -> (rows: Vec<String>)
    ensures
        strs_view(rows@) == Seq::new(profiles@.len(), |i: int| profile_row_spec(profiles@[i]@, i == selected)),
{
    let mut rows: Vec<String> = Vec::new();
    let mut i: usize = 0;
    while i < profiles.len()
        invariant
            i <= profiles.len(),
            strs_view(rows@) == Seq::new(i as nat, |k: int| profile_row_spec(profiles@[k]@, k == selected)),
        decreases profiles.len() - i,
    {
        let mut s = String::from_str(if i == selected {
            "> "
        } else {
            "  "
        });
        push_str(&mut s, profiles[i].as_str());
        let ghost before = strs_view(rows@);
        rows.push(s);
        assert(strs_view(rows@) =~= before.push(profile_row_spec(profiles@[i as int]@, i == selected)));
        assert(strs_view(rows@) =~= Seq::new((i + 1) as nat, |k: int| profile_row_spec(profiles@[k]@, k == selected)));
        i += 1;
    }
    rows
}

/// The text of an input dialog's entry field: the typed text, followed
/// by the caret when it shows.
pub open spec fn input_text_spec(i: InputModalView) -> Seq<char> {
    i.buffer + "_"@
}

/// See `input_text_spec`.
pub fn input_text(input: &InputModal, now: u64) -> (s: String)
    ensures
        s@ == input_text_spec(input@),
{
    let mut s = input.buffer.clone();
    if input.cursor_visible(now) {
        push_str(&mut s, "_");
    }
    s
}

/// A byte as two hex digits and a space.
pub open spec fn hex_byte(b: u8) -> Seq<char> {
    pad_left(hex(b as nat), '0', 2) + " "@
}

/// Each byte as two hex digits and a space.
pub open spec fn hex_bytes_spec(b: Seq<u8>) -> Seq<char>
    decreases b.len(),
{
    if b.len() == 0 {
        Seq::empty()
    } else {
        hex_bytes_spec(b.drop_last()) + hex_byte(b.last())
    }
}

/// The offset label of hex-dump row `r`: four hex digits and `: `.
pub open spec fn hex_offset(r: nat) -> Seq<char> {
    pad_left(hex(r * 16), '0', 4) + ": "@
}

/// The bytes of hex-dump row `r`: sixteen bytes, fewer in the last row.
pub open spec fn hex_chunk(b: Seq<u8>, r: int) -> Seq<u8> {
    b.subrange(16 * r, if 16 * r + 16 < b.len() {
        16 * r + 16
    } else {
        b.len() as int
    })
}

/// The hex dump of `bytes`, sixteen to a row: each row's offset label and
/// its bytes.
pub fn hex_rows(bytes: &Vec<u8>) -> (rows: Vec<(String, String)>)
    ensures
        rows.len() == ceil_div(bytes@.len() as int, 16),
        forall|r: int| 0 <= r < rows.len() ==> (#[trigger] rows@[r]).0@ == hex_offset(r as nat) && rows@[r].1@ == hex_bytes_spec(hex_chunk(bytes@, r)),
{
    let n = bytes.len();
    let count = if n % 16 == 0 {
        n / 16
    } else {
        n / 16 + 1
    };
    let mut rows: Vec<(String, String)> = Vec::new();
    let mut r: usize = 0;
    while r < count
        invariant
            count == ceil_div(n as int, 16),
            n == bytes@.len(),
            r <= count,
            rows.len() == r,
            forall|q: int| 0 <= q < r ==> (#[trigger] rows@[q]).0@ == hex_offset(q as nat) && rows@[q].1@ == hex_bytes_spec(hex_chunk(bytes@, q)),
        decreases count - r,
    {
        let start = r * 16;
        let end = if n - start <= 16 {
            n
        } else {
            start + 16
        };
        let mut off = String::new();
        push_hex_padded(&mut off, start as u64, 4);
        push_str(&mut off, ": ");
        let mut body = String::new();
        let mut k = start;
        while k < end
            invariant
                start <= k <= end <= n,
                n == bytes@.len(),
                body@ == hex_bytes_spec(bytes@.subrange(start as int, k as int)),
            decreases end - k,
        {
            let ghost before = body@;
            push_hex_padded(&mut body, bytes[k] as u64, 2);
            push_str(&mut body, " ");
            assert(bytes@.subrange(start as int, k + 1).drop_last() =~= bytes@.subrange(start as int, k as int));
            assert(body@ =~= before + hex_byte(bytes@[k as int]));
            k += 1;
        }
        assert(hex_chunk(bytes@, r as int) =~= bytes@.subrange(start as int, end as int));
        rows.push((off, body));
        r += 1;
    }
    rows
}

/// In each row of the mode list, the fourth character is `*` exactly when
/// the mode is the current one and the fifth is `+` exactly when it is the
/// preferred one (spaces otherwise); the row's text follows after them.
pub proof fn law_mode_marks(a: AppView, i: int)
    requires
        a.selected_output < a.outputs.len(),
        0 <= i < a.outputs[a.selected_output as int].available_modes.len(),
    ensures
        ({
            let m = a.outputs[a.selected_output as int].available_modes[i];
            let row = mode_rows_spec(a)[i];
            &&& row.len() > 5
            &&& row[0] == (if i == a.selected_mode {
                '>'
            } else {
                ' '
            })
            &&& row[3] == (if m.is_current {
                '*'
            } else {
                ' '
            })
            &&& row[4] == (if m.is_preferred {
                '+'
            } else {
                ' '
            })
        }),
{
    reveal_strlit(">");
    reveal_strlit(" ");
    reveal_strlit(" *+");
    reveal_strlit(" * ");
    reveal_strlit("  +");
    reveal_strlit("   ");
    reveal_strlit("  ");
    let m = a.outputs[a.selected_output as int].available_modes[i];
    let row = mode_row_spec(m, i == a.selected_mode);
    assert(mode_rows_spec(a)[i] == row);
    let head = marker(i == a.selected_mode) + " "@ + mode_flags(m);
    assert(head.len() == 5);
    assert(row =~= head + ("  "@ + m.name + "  "@ + pad_left(milli_2dp(m.refresh_rate as int), ' ', 6)
        + "Hz"@));
    assert(row[0] == head[0]);
    assert(row[3] == head[3]);
    assert(row[4] == head[4]);
}

} // verus!
