//! Parser for the text that `xrandr --current --prop` prints.
//!
//! The format is line-based. A header line (not indented, no `:`) starts
//! an output; indented lines below it carry the EDID hex dump, properties
//! and mode lines:
//!
//! ```text
//! eDP-1 connected primary 1920x1080+0+0 (normal left inverted right x axis y axis) 309mm x 174mm
//!     EDID:
//!         00ffffffffffff00...
//!     1920x1080     60.02*+  60.01
//! HDMI-1 disconnected
//! ```

use vstd::prelude::*;
use crate::model::{
    Mode, ModeView, Output, OutputView, Rotation, default_output, new_mode, parse_refresh_rate_chars,
    parse_refresh_rate_spec, parse_resolution_chars, parse_resolution_spec, trim_rate_suffix,
};
use crate::num::{dec, parse_i32, parse_i32_spec, push_dec};
use crate::text::{
    chars_of, contains_char, find, find_char, find_from, is_digit, is_ws, lemma_find,
    lemma_find_from, slice_range, slice_take, split_char, split_on_char, split_ws, str_is,
    trim_chars, views, words, trim_end, trim_start, trim, starts_with, remove_ws, utf8_len,
    is_hex_digit, hex_val, word_end, lemma_word_end, trim_end_chars, trim_start_chars,
    starts_with_chars, remove_ws_chars, utf8_len_at_least, is_whitespace,
};
use crate::model::{modes_view, clone_modes};

verus! {

broadcast use vstd::string::group_string_axioms;

/// Whether a token looks like an xrandr geometry string: it holds a `+`,
/// and its first `x` has an ASCII digit on each side.
pub open spec fn is_geom_token(t: Seq<char>) -> bool {
    let k = find(t, 'x');
    &&& t.contains('+')
    &&& 0 < k
    &&& k + 1 < t.len()
    &&& is_digit(t[k - 1])
    &&& is_digit(t[k + 1])
}

/// Returns the token when it looks like a geometry string (`WxH+X+Y...`).
pub fn strip_geom_token(tok: &[char]) -> (r: Option<&[char]>)
    ensures
        match r {
            Some(t) => is_geom_token(tok@) && t@ == tok@,
            None => !is_geom_token(tok@),
        },
{
    if !contains_char(tok, '+') {
        return None;
    }
    let k = find_char(tok, 'x');
    proof {
        lemma_find(tok@, 'x');
    }
    if k == 0 || k >= tok.len() {
        return None;
    }
    if !('0' <= tok[k - 1] && tok[k - 1] <= '9') {
        return None;
    }
    if k + 1 >= tok.len() || !('0' <= tok[k + 1] && tok[k + 1] <= '9') {
        return None;
    }
    Some(tok)
}

/// Index of the first non-digit at or after `i` (or `s.len()`).
pub open spec fn digits_end(s: Seq<char>, i: int) -> int
    decreases s.len() - i,
{
    if 0 <= i < s.len() && is_digit(s[i]) {
        digits_end(s, i + 1)
    } else {
        i
    }
}

/// Index of the second `+` in `t`, or `t.len()`.
pub open spec fn second_plus(t: Seq<char>) -> int {
    let p1 = find(t, '+');
    if p1 < t.len() {
        find_from(t, '+', p1 + 1)
    } else {
        t.len() as int
    }
}

/// Where the geometry part of a token ends: after the digits that follow
/// the second `+`, or at the end of the token.
pub open spec fn geom_cut(t: Seq<char>) -> int {
    let sp = second_plus(t);
    if sp < t.len() {
        digits_end(t, sp + 1)
    } else {
        t.len() as int
    }
}

/// The rotation a word names, if any.
pub open spec fn rotation_word(w: Seq<char>) -> Option<Rotation> {
    if w == "left"@ {
        Some(Rotation::Left)
    } else if w == "right"@ {
        Some(Rotation::Right)
    } else if w == "inverted"@ {
        Some(Rotation::Inverted)
    } else if w == "normal"@ {
        Some(Rotation::Normal)
    } else {
        None
    }
}

/// `split_off_rotation`: the geometry part and the rotation glued to its
/// end (as in `1920x1080+0+0left`), if the rest is a rotation word.
pub open spec fn split_off_rotation_spec(t: Seq<char>) -> (Seq<char>, Option<Rotation>) {
    let cut = geom_cut(t);
    (t.take(cut), rotation_word(t.skip(cut)))
}

proof fn lemma_geom_cut(t: Seq<char>)
    ensures
        0 <= geom_cut(t) <= t.len(),
{
    lemma_find(t, '+');
    let p1 = find(t, '+');
    if p1 < t.len() {
        lemma_find_from(t, '+', p1 + 1);
        let sp = find_from(t, '+', p1 + 1);
        if sp < t.len() {
            lemma_digits_end(t, sp + 1);
        }
    }
}

proof fn lemma_digits_end(s: Seq<char>, i: int)
    requires
        0 <= i <= s.len(),
    ensures
        i <= digits_end(s, i) <= s.len(),
    decreases s.len() - i,
{
    if i < s.len() && is_digit(s[i]) {
        lemma_digits_end(s, i + 1);
    }
}

/// The rotation a word names, if any.
pub fn rotation_from_word(w: &[char]) -> (r: Option<Rotation>)
    ensures
        r == rotation_word(w@),
{
    if str_is(w, "left") {
        Some(Rotation::Left)
    } else if str_is(w, "right") {
        Some(Rotation::Right)
    } else if str_is(w, "inverted") {
        Some(Rotation::Inverted)
    } else if str_is(w, "normal") {
        Some(Rotation::Normal)
    } else {
        None
    }
}

/// Split a geometry token into `(geom, rotation_suffix)`.
pub fn split_off_rotation(tok: &[char]) -> (r: (Vec<char>, Option<Rotation>))
    ensures
        (r.0@, r.1) == split_off_rotation_spec(tok@),
{
    let p1 = find_char(tok, '+');
    proof {
        lemma_find(tok@, '+');
        lemma_geom_cut(tok@);
    }
    let mut cut = tok.len();
    if p1 < tok.len() {
        let mut sp = p1 + 1;
        proof {
            lemma_find_from(tok@, '+', p1 + 1);
        }
        while sp < tok.len() && tok[sp] != '+'
            invariant
                p1 + 1 <= sp <= tok.len(),
                find_from(tok@, '+', p1 + 1) == find_from(tok@, '+', sp as int),
            decreases tok.len() - sp,
        {
            sp += 1;
        }
        if sp < tok.len() {
            let mut j = sp + 1;
            while j < tok.len() && '0' <= tok[j] && tok[j] <= '9'
                invariant
                    sp + 1 <= j <= tok.len(),
                    digits_end(tok@, sp + 1) == digits_end(tok@, j as int),
                decreases tok.len() - j,
            {
                j += 1;
            }
            cut = j;
        }
    }
    let geom = slice_take(tok, cut);
    let rest = slice_range(tok, cut, tok.len());
    assert(rest@ =~= tok@.skip(cut as int));
    (geom, rotation_from_word(rest.as_slice()))
}

/// `parse_geometry`: `<res>+<x>+<y>` with exactly three `+`-separated
/// pieces, the last two signed 32-bit integers.
pub open spec fn parse_geometry_spec(g: Seq<char>) -> Option<(Seq<char>, (i32, i32))> {
    let ps = split_char(g, '+');
    if ps.len() == 3 {
        match (parse_i32_spec(ps[1]), parse_i32_spec(ps[2])) {
            (Some(x), Some(y)) => Some((ps[0], (x, y))),
            _ => None,
        }
    } else {
        None
    }
}

/// Parse the geometry portion of a token into the resolution name and
/// the (x, y) position.
pub fn parse_geometry(geom: &[char]) -> (r: Option<(Vec<char>, (i32, i32))>)
    ensures
        match parse_geometry_spec(geom@) {
            Some((res, pos)) => r matches Some((v, p)) && v@ == res && p == pos,
            None => r is None,
        },
{
    let ps = split_on_char(geom, '+');
    if ps.len() != 3 {
        return None;
    }
    assert(views(ps@)[1] == ps@[1]@);
    assert(views(ps@)[2] == ps@[2]@);
    assert(views(ps@)[0] == ps@[0]@);
    match (parse_i32(ps[1].as_slice()), parse_i32(ps[2].as_slice())) {
        (Some(x), Some(y)) => Some((slice_range(ps[0].as_slice(), 0, ps[0].len()), (x, y))),
        _ => None,
    }
}


/// The mode one rate token gives: the rate read after dropping trailing
/// flag characters, current when the token holds `*`, preferred when it
/// holds `+`; nothing when no rate can be read.
pub open spec fn token_mode(name: Seq<char>, tok: Seq<char>) -> Option<ModeView> {
    match parse_refresh_rate_spec(trim_rate_suffix(tok)) {
        Some(r) => Some(new_mode(name, r, tok.contains('*'), tok.contains('+'))),
        None => None,
    }
}

pub open spec fn token_modes(name: Seq<char>, toks: Seq<Seq<char>>) -> Seq<ModeView>
    decreases toks.len(),
{
    if toks.len() == 0 {
        Seq::empty()
    } else {
        token_modes(name, toks.drop_last()) + match token_mode(name, toks.last()) {
            Some(m) => seq![m],
            None => Seq::empty(),
        }
    }
}

/// One mode per refresh rate on a mode line; when no token yields a rate,
/// a single mode with the rate read from the whole tail (or 0).
pub open spec fn build_modes_spec(name: Seq<char>, rest: Seq<char>) -> Seq<ModeView> {
    let ms = token_modes(name, words(rest));
    if ms.len() > 0 {
        ms
    } else {
        match parse_refresh_rate_spec(rest) {
            Some(r) => seq![new_mode(name, r, false, false)],
            None => seq![new_mode(name, 0, false, false)],
        }
    }
}

pub open spec fn modes_of(v: Seq<Mode>) -> Seq<ModeView> {
    v.map_values(|m: Mode| m@)
}

fn trim_rate_suffix_chars(t: &[char]) -> (out: Vec<char>)
    ensures
        out@ == trim_rate_suffix(t@),
{
    let mut e = t.len();
    assert(t@.take(e as int) =~= t@);
    while e > 0 && !('0' <= t[e - 1] && t[e - 1] <= '9') && t[e - 1] != '.'
        invariant
            e <= t.len(),
            trim_rate_suffix(t@) == trim_rate_suffix(t@.take(e as int)),
        decreases e,
    {
        assert(t@.take(e as int).drop_last() =~= t@.take(e - 1));
        e -= 1;
    }
    slice_take(t, e)
}

/// Expand a single xrandr mode line into one `Mode` per refresh rate.
pub fn build_modes(name: &[char], rest: &[char]) -> (out: Vec<Mode>)
    ensures
        modes_of(out@) == build_modes_spec(name@, rest@),
{
    let toks = split_ws(rest);
    let mut out: Vec<Mode> = Vec::new();
    let mut i: usize = 0;
    assert(views(toks@).take(0) =~= Seq::<Seq<char>>::empty());
    while i < toks.len()
        invariant
            i <= toks.len(),
            modes_of(out@) == token_modes(name@, views(toks@).take(i as int)),
        decreases toks.len() - i,
    {
        let tok = &toks[i];
        let bare = trim_rate_suffix_chars(tok.as_slice());
        let ghost before = modes_of(out@);
        proof {
            let ts = views(toks@);
            assert(ts.take(i + 1).drop_last() =~= ts.take(i as int));
            assert(ts.take(i + 1).last() == tok@);
        }
        match parse_refresh_rate_chars(bare.as_slice()) {
            Some(rate) => {
                let m = Mode::new(
                    crate::text::string_of(name),
                    rate,
                    contains_char(tok.as_slice(), '*'),
                    contains_char(tok.as_slice(), '+'),
                );
                out.push(m);
                assert(modes_of(out@) =~= before.push(m@));
            },
            None => {},
        }
        i += 1;
    }
    assert(views(toks@).take(toks.len() as int) =~= views(toks@));
    if out.len() == 0 {
        let rate = match parse_refresh_rate_chars(rest) {
            Some(r) => r,
            None => 0,
        };
        let m = Mode::new(crate::text::string_of(name), rate, false, false);
        out.push(m);
        assert(modes_of(out@) =~= seq![m@]);
    }
    out
}

/// The settings read so far from the tokens of a header line.
pub struct HeaderAcc {
    pub rotation: Rotation,
    pub mode: Option<ModeView>,
    pub position: Option<(i32, i32)>,
    pub primary: bool,
}

pub open spec fn header_token(a: HeaderAcc, tok: Seq<char>) -> HeaderAcc {
    if is_geom_token(tok) {
        let (g, rot) = split_off_rotation_spec(tok);
        let a1 = match rot {
            Some(r) => HeaderAcc { rotation: r, ..a },
            None => a,
        };
        match parse_geometry_spec(g) {
            Some((res, pos)) => match parse_resolution_spec(res) {
                Some((w, h)) => HeaderAcc {
                    mode: Some(new_mode(dec(w as nat) + seq!['x'] + dec(h as nat), 0, true, false)),
                    position: Some(pos),
                    ..a1
                },
                None => a1,
            },
            None => a1,
        }
    } else if tok == "primary"@ {
        HeaderAcc { primary: true, ..a }
    } else {
        match rotation_word(tok) {
            Some(r) => HeaderAcc { rotation: r, ..a },
            None => a,
        }
    }
}

pub open spec fn header_tokens(a: HeaderAcc, toks: Seq<Seq<char>>) -> HeaderAcc
    decreases toks.len(),
{
    if toks.len() == 0 {
        a
    } else {
        header_token(header_tokens(a, toks.drop_last()), toks.last())
    }
}

/// Errors from parsing xrandr output.
#[derive(Debug, PartialEq)]
pub enum XrandrError {
    /// A header line without an output name.
    MalformedLine(String),
    /// A header whose second word is neither `connected` nor `disconnected`.
    UnexpectedState(String),
}

pub enum XrandrErrorView {
    MalformedLine(Seq<char>),
    UnexpectedState(Seq<char>),
}

impl View for XrandrError {
    type V = XrandrErrorView;

    open spec fn view(&self) -> XrandrErrorView {
        match self {
            XrandrError::MalformedLine(l) => XrandrErrorView::MalformedLine(l@),
            XrandrError::UnexpectedState(s) => XrandrErrorView::UnexpectedState(s@),
        }
    }
}

pub open spec fn error_message(e: XrandrErrorView) -> Seq<char> {
    match e {
        XrandrErrorView::MalformedLine(l) => "malformed xrandr line: "@ + l,
        XrandrErrorView::UnexpectedState(s) => "unexpected xrandr state token: "@ + s,
    }
}

impl XrandrError {
    /// The error as a sentence.
    pub fn message(&self) -> (s: String)
        ensures
            s@ == error_message(self@),
    {
        match self {
            XrandrError::MalformedLine(l) => {
                let mut s = String::from_str("malformed xrandr line: ");
                crate::text::push_str(&mut s, l.as_str());
                s
            },
            XrandrError::UnexpectedState(t) => {
                let mut s = String::from_str("unexpected xrandr state token: ");
                crate::text::push_str(&mut s, t.as_str());
                s
            },
        }
    }
}

/// The output a header line describes. The words before the first `(`
/// carry `primary`, a rotation word, and a geometry `WxH+X+Y` (possibly
/// with a rotation glued on); without a geometry a connected output is off.
pub open spec fn header_spec(line: Seq<char>) -> Result<OutputView, XrandrErrorView> {
    let parts = words(line);
    if parts.len() == 0 {
        Err(XrandrErrorView::MalformedLine(line))
    } else {
        let state = if parts.len() > 1 {
            parts[1]
        } else {
            Seq::empty()
        };
        let connected = state == "connected"@;
        if !connected && state != "disconnected"@ {
            Err(XrandrErrorView::UnexpectedState(state))
        } else {
            let pre = line.take(find(line, '('));
            let init = HeaderAcc {
                rotation: Rotation::Normal,
                mode: None,
                position: None,
                primary: false,
            };
            let a = header_tokens(init, words(pre));
            Ok(
                OutputView {
                    name: parts[0],
                    connected: connected,
                    is_primary: a.primary,
                    rotation: a.rotation,
                    current_mode: a.mode,
                    position: if a.mode is Some {
                        a.position
                    } else {
                        None
                    },
                    off: a.mode is None && connected,
                    ..default_output()
                },
            )
        }
    }
}


fn header_token_exec(
    tok: &[char],
    rotation: &mut Rotation,
    mode: &mut Option<Mode>,
    position: &mut Option<(i32, i32)>,
    primary: &mut bool,
)
    ensures
        header_token(
            HeaderAcc {
                rotation: *old(rotation),
                mode: crate::model::opt_mode_view(*old(mode)),
                position: *old(position),
                primary: *old(primary),
            },
            tok@,
        ) == (HeaderAcc {
            rotation: *final(rotation),
            mode: crate::model::opt_mode_view(*final(mode)),
            position: *final(position),
            primary: *final(primary),
        }),
{
    if strip_geom_token(tok).is_some() {
        let (geom_only, trailing_rot) = split_off_rotation(tok);
        if let Some(rot) = trailing_rot {
            *rotation = rot;
        }
        if let Some((res, pos)) = parse_geometry(geom_only.as_slice()) {
            if let Some((w, h)) = parse_resolution_chars(res.as_slice()) {
                let mut name = String::new();
                push_dec(&mut name, w as u64);
                crate::text::push_char(&mut name, 'x');
                push_dec(&mut name, h as u64);
                assert(name@ =~= dec(w as nat) + seq!['x'] + dec(h as nat));
                *mode = Some(Mode::new(name, 0, true, false));
                *position = Some(pos);
            }
        }
        return;
    }
    if str_is(tok, "primary") {
        *primary = true;
    } else if let Some(r) = rotation_from_word(tok) {
        *rotation = r;
    }
}

/// Parse one output header line.
pub fn parse_output_header(line: &[char]) -> (r: Result<Output, XrandrError>)
    ensures
        match header_spec(line@) {
            Ok(o) => r matches Ok(out) && out@ == o,
            Err(e) => r matches Err(err) && err@ == e,
        },
{
    let parts = split_ws(line);
    if parts.len() == 0 {
        return Err(XrandrError::MalformedLine(crate::text::string_of(line)));
    }
    assert(views(parts@)[0] == parts@[0]@);
    let state: Vec<char> = if parts.len() > 1 {
        assert(views(parts@)[1] == parts@[1]@);
        slice_range(parts[1].as_slice(), 0, parts[1].len())
    } else {
        Vec::new()
    };
    assert(state@ =~= (if views(parts@).len() > 1 {
        views(parts@)[1]
    } else {
        Seq::<char>::empty()
    }));
    let connected = str_is(state.as_slice(), "connected");
    if !connected && !str_is(state.as_slice(), "disconnected") {
        return Err(XrandrError::UnexpectedState(crate::text::string_of(state.as_slice())));
    }
    let paren = find_char(line, '(');
    proof {
        lemma_find(line@, '(');
    }
    let pre = slice_take(line, paren);
    let toks = split_ws(pre.as_slice());
    let mut rotation = Rotation::Normal;
    let mut mode: Option<Mode> = None;
    let mut position: Option<(i32, i32)> = None;
    let mut primary = false;
    let ghost init = HeaderAcc {
        rotation: Rotation::Normal,
        mode: None,
        position: None,
        primary: false,
    };
    let mut i: usize = 0;
    assert(views(toks@).take(0) =~= Seq::<Seq<char>>::empty());
    while i < toks.len()
        invariant
            i <= toks.len(),
            header_tokens(init, views(toks@).take(i as int)) == (HeaderAcc {
                rotation,
                mode: crate::model::opt_mode_view(mode),
                position,
                primary,
            }),
        decreases toks.len() - i,
    {
        proof {
            let ts = views(toks@);
            assert(ts.take(i + 1).drop_last() =~= ts.take(i as int));
            assert(ts.take(i + 1).last() == toks@[i as int]@);
        }
        header_token_exec(toks[i].as_slice(), &mut rotation, &mut mode, &mut position, &mut primary);
        i += 1;
    }
    assert(views(toks@).take(toks.len() as int) =~= views(toks@));
    let mut out = Output::default();
    out.name = crate::text::string_of(parts[0].as_slice());
    out.connected = connected;
    out.is_primary = primary;
    out.rotation = rotation;
    if mode.is_some() {
        out.current_mode = mode;
        out.position = position;
    } else {
        if connected {
            out.off = true;
        }
        out.current_mode = None;
        out.position = None;
    }
    proof {
        let a = header_tokens(init, words(pre@));
        assert(pre@ == line@.take(find(line@, '(')));
        assert(out@.name == views(parts@)[0]);
        assert(out@.available_modes =~= Seq::<ModeView>::empty());
        assert(out@.custom_modes =~= default_output().custom_modes);
        assert(out@ =~= (OutputView {
            name: views(parts@)[0],
            connected: connected,
            is_primary: a.primary,
            rotation: a.rotation,
            current_mode: a.mode,
            position: if a.mode is Some {
                a.position
            } else {
                None
            },
            off: a.mode is None && connected,
            ..default_output()
        }));
    }
    Ok(out)
}


/// Whether a line starts a new output block: not indented, no `:`.
pub open spec fn is_header_line(line: Seq<char>) -> bool {
    line.len() > 0 && !is_ws(line[0]) && !line.contains(':')
}

/// Every character is a hex digit or whitespace.
pub open spec fn all_hex_or_ws(t: Seq<char>) -> bool {
    forall|i: int| 0 <= i < t.len() ==> is_hex_digit(#[trigger] t[i]) || is_ws(t[i])
}

/// Bytes read two hex digits at a time (an odd digit at the end is dropped).
pub open spec fn hex_pairs(c: Seq<char>) -> Seq<u8>
    decreases c.len(),
{
    if c.len() < 2 {
        Seq::empty()
    } else {
        seq![(hex_val(c[0]) * 16 + hex_val(c[1])) as u8] + hex_pairs(c.skip(2))
    }
}

/// The effect of one indented line `t` (leading whitespace removed) on the
/// output it belongs to: `EDID:` starts an empty EDID; a long enough line of
/// hex digits (after `EDID:`) appends its bytes; a mode line (a resolution
/// followed by whitespace) appends its modes; anything else is ignored.
pub open spec fn body_line(o: OutputView, t: Seq<char>) -> OutputView {
    if starts_with(t, "EDID:"@) {
        OutputView { edid: Some(Seq::empty()), ..o }
    } else if t.len() > 0 && all_hex_or_ws(t) && o.edid is Some && utf8_len(t) >= 8 {
        OutputView { edid: Some(o.edid->0 + hex_pairs(remove_ws(t))), ..o }
    } else {
        let k = word_end(t, 0);
        if k < t.len() && parse_resolution_spec(t.take(k)) is Some {
            OutputView {
                available_modes: o.available_modes + build_modes_spec(
                    t.take(k),
                    trim(t.skip(k + 1)),
                ),
                ..o
            }
        } else {
            o
        }
    }
}

/// Parser state: the outputs so far, and whether a header has been seen
/// (indented lines then belong to the last output).
pub struct ParseState {
    pub outputs: Seq<OutputView>,
    pub in_block: bool,
}

pub open spec fn parse_step(st: ParseState, raw: Seq<char>) -> Result<ParseState, XrandrErrorView> {
    let line = trim_end(raw);
    if line.len() == 0 {
        Ok(st)
    } else if is_header_line(line) {
        match header_spec(line) {
            Ok(o) => Ok(ParseState { outputs: st.outputs.push(o), in_block: true }),
            Err(e) => Err(e),
        }
    } else if !st.in_block || st.outputs.len() == 0 {
        Ok(st)
    } else {
        let last = st.outputs.len() - 1;
        Ok(
            ParseState {
                outputs: st.outputs.update(last, body_line(st.outputs[last], trim_start(line))),
                in_block: true,
            },
        )
    }
}

pub open spec fn parse_lines(lines: Seq<Seq<char>>) -> Result<ParseState, XrandrErrorView>
    decreases lines.len(),
{
    if lines.len() == 0 {
        Ok(ParseState { outputs: Seq::empty(), in_block: false })
    } else {
        match parse_lines(lines.drop_last()) {
            Ok(st) => parse_step(st, lines.last()),
            Err(e) => Err(e),
        }
    }
}

/// Index of the first mode at or after `i` named `n` (and current, when
/// `need_current`), or `ms.len()`.
pub open spec fn find_mode_from(ms: Seq<ModeView>, n: Seq<char>, need_current: bool, i: int) -> int
    decreases ms.len() - i,
{
    if 0 <= i < ms.len() && !(ms[i].name == n && (ms[i].is_current || !need_current)) {
        find_mode_from(ms, n, need_current, i + 1)
    } else {
        i
    }
}

/// The current mode read from a header has no rate; take the full mode
/// (with its rate and flags) from the mode list: the first of that name
/// marked current, else the first of that name.
pub open spec fn fix_current(o: OutputView) -> OutputView {
    match o.current_mode {
        Some(cur) => if cur.refresh_rate > 0 {
            o
        } else {
            let i = find_mode_from(o.available_modes, cur.name, true, 0);
            let j = find_mode_from(o.available_modes, cur.name, false, 0);
            if 0 <= i < o.available_modes.len() {
                OutputView { current_mode: Some(o.available_modes[i]), ..o }
            } else if 0 <= j < o.available_modes.len() {
                OutputView { current_mode: Some(o.available_modes[j]), ..o }
            } else {
                o
            }
        },
        None => o,
    }
}

/// What `parse_xrandr` returns: the lines (split at `\n`) folded through
/// `parse_step`, then `fix_current` on every output.
pub open spec fn parse_xrandr_spec(raw: Seq<char>) -> Result<Seq<OutputView>, XrandrErrorView> {
    match parse_lines(split_char(raw, '\n')) {
        Ok(st) => Ok(st.outputs.map_values(|o: OutputView| fix_current(o))),
        Err(e) => Err(e),
    }
}

pub open spec fn outputs_view(v: Seq<Output>) -> Seq<OutputView> {
    v.map_values(|o: Output| o@)
}

fn hex_digit_value(c: char) -> (v: u8)
    requires
        is_hex_digit(c),
    ensures
        v == hex_val(c),
{
    if '0' <= c && c <= '9' {
        (c as u32 - '0' as u32) as u8
    } else if 'a' <= c && c <= 'f' {
        (c as u32 - 'a' as u32 + 10) as u8
    } else {
        (c as u32 - 'A' as u32 + 10) as u8
    }
}

fn push_hex_pairs(buf: &mut Vec<u8>, c: &[char])
    requires
        forall|i: int| 0 <= i < c@.len() ==> is_hex_digit(#[trigger] c@[i]),
    ensures
        final(buf)@ == old(buf)@ + hex_pairs(c@),
{
    let mut i: usize = 0;
    assert(c@.skip(0) =~= c@);
    assert(old(buf)@ + Seq::<u8>::empty() =~= old(buf)@);
    while c.len() - i >= 2
        invariant
            i <= c.len(),
            forall|k: int| 0 <= k < c@.len() ==> is_hex_digit(#[trigger] c@[k]),
            old(buf)@ + hex_pairs(c@) == buf@ + hex_pairs(c@.skip(i as int)),
        decreases c.len() - i,
    {
        let hi = hex_digit_value(c[i]);
        let lo = hex_digit_value(c[i + 1]);
        let ghost before = buf@;
        buf.push((hi * 16 + lo) as u8);
        proof {
            let r = c@.skip(i as int);
            assert(r[0] == c@[i as int]);
            assert(r[1] == c@[i + 1]);
            assert(r.skip(2) =~= c@.skip(i + 2));
            assert(buf@ + hex_pairs(c@.skip(i + 2)) =~= before + hex_pairs(r));
        }
        i += 2;
    }
    assert(hex_pairs(c@.skip(i as int)) =~= Seq::<u8>::empty());
    assert(buf@ + Seq::<u8>::empty() =~= buf@);
}

fn all_hex_or_ws_exec(t: &[char]) -> (b: bool)
    ensures
        b == all_hex_or_ws(t@),
{
    let mut i: usize = 0;
    while i < t.len()
        invariant
            i <= t.len(),
            forall|k: int| 0 <= k < i ==> is_hex_digit(#[trigger] t@[k]) || is_ws(t@[k]),
        decreases t.len() - i,
    {
        let c = t[i];
        let hex = ('0' <= c && c <= '9') || ('a' <= c && c <= 'f') || ('A' <= c && c <= 'F');
        if !hex && !is_whitespace(c) {
            return false;
        }
        i += 1;
    }
    true
}

proof fn lemma_remove_ws_hex(t: Seq<char>)
    requires
        all_hex_or_ws(t),
    ensures
        forall|i: int| 0 <= i < remove_ws(t).len() ==> is_hex_digit(#[trigger] remove_ws(t)[i]),
    decreases t.len(),
{
    if t.len() > 0 {
        let d = t.drop_last();
        assert(all_hex_or_ws(d)) by {
            assert forall|i: int| 0 <= i < d.len() implies is_hex_digit(#[trigger] d[i]) || is_ws(
                d[i],
            ) by {
                assert(d[i] == t[i]);
            }
        }
        lemma_remove_ws_hex(d);
        let last = t[t.len() - 1];
        assert(is_hex_digit(last) || is_ws(last));
        let r = remove_ws(t);
        if !is_ws(t.last()) {
            assert(r == remove_ws(d).push(t.last()));
            assert forall|i: int| 0 <= i < r.len() implies is_hex_digit(#[trigger] r[i]) by {
                if i < remove_ws(d).len() {
                    assert(r[i] == remove_ws(d)[i]);
                }
            }
        }
    }
}

/// Apply one indented line (leading whitespace removed) to `out`.
fn apply_body_line(out: &mut Output, t: &[char])
    ensures
        final(out)@ == body_line(old(out)@, t@),
{
    let edid_tag = chars_of("EDID:");
    if starts_with_chars(t, edid_tag.as_slice()) {
        out.edid = Some(Vec::new());
        assert(out@.edid->0 =~= Seq::<u8>::empty());
        return;
    }
    if t.len() > 0 && all_hex_or_ws_exec(t) && out.edid.is_some() && utf8_len_at_least(t, 8) {
        let compact = remove_ws_chars(t);
        proof {
            lemma_remove_ws_hex(t@);
        }
        let mut buf = match out.edid.take() {
            Some(b) => b,
            None => Vec::new(),
        };
        push_hex_pairs(&mut buf, compact.as_slice());
        out.edid = Some(buf);
        return;
    }
    let k = crate::text::word_end_exec(t, 0);
    proof {
        lemma_word_end(t@, 0);
    }
    if k < t.len() {
        let name = slice_take(t, k);
        if parse_resolution_chars(name.as_slice()).is_some() {
            let rest = slice_range(t, k + 1, t.len());
            assert(rest@ =~= t@.skip(k + 1));
            let trimmed = trim_chars(rest.as_slice());
            let modes = build_modes(name.as_slice(), trimmed.as_slice());
            let mut modes = modes;
            let ghost before = out.available_modes@;
            let ghost added = modes@;
            out.available_modes.append(&mut modes);
            assert(out.available_modes@ =~= before + added);
            assert(modes_view(before + added) =~= modes_view(before) + modes_of(added));
            return;
        }
    }
}


proof fn lemma_parse_lines_err(lines: Seq<Seq<char>>, i: int)
    requires
        0 <= i <= lines.len(),
        parse_lines(lines.take(i)) is Err,
    ensures
        parse_lines(lines) == parse_lines(lines.take(i)),
    decreases lines.len() - i,
{
    if i < lines.len() {
        assert(lines.take(i + 1).drop_last() =~= lines.take(i));
        lemma_parse_lines_err(lines, i + 1);
    } else {
        assert(lines.take(i) =~= lines);
    }
}

fn find_mode(ms: &Vec<Mode>, n: &String, need_current: bool) -> (i: usize)
    ensures
        i == find_mode_from(modes_view(ms@), n@, need_current, 0),
        i <= ms.len(),
{
    let mut i: usize = 0;
    while i < ms.len()
        invariant
            i <= ms.len(),
            find_mode_from(modes_view(ms@), n@, need_current, 0) == find_mode_from(
                modes_view(ms@),
                n@,
                need_current,
                i as int,
            ),
        decreases ms.len() - i,
    {
        assert(modes_view(ms@)[i as int] == ms@[i as int]@);
        if ms[i].name == *n && (ms[i].is_current || !need_current) {
            return i;
        }
        i += 1;
    }
    i
}

fn fix_current_exec(out: &mut Output)
    ensures
        final(out)@ == fix_current(old(out)@),
{
    let found = match &out.current_mode {
        Some(cur) => {
            if cur.refresh_rate > 0 {
                return;
            }
            let i = find_mode(&out.available_modes, &cur.name, true);
            if i < out.available_modes.len() {
                Some(out.available_modes[i].clone())
            } else {
                let j = find_mode(&out.available_modes, &cur.name, false);
                if j < out.available_modes.len() {
                    Some(out.available_modes[j].clone())
                } else {
                    None
                }
            }
        },
        None => None,
    };
    if let Some(m) = found {
        out.current_mode = Some(m);
    }
}

/// Parse the textual output of `xrandr --current --prop` into a list of
/// `Output` entries.
pub fn parse_xrandr(raw: &str) -> (r: Result<Vec<Output>, XrandrError>)
    ensures
        match parse_xrandr_spec(raw@) {
            Ok(outs) => r matches Ok(v) && outputs_view(v@) == outs,
            Err(e) => r matches Err(err) && err@ == e,
        },
{
    let text = chars_of(raw);
    let lines = split_on_char(text.as_slice(), '\n');
    let ghost ls = views(lines@);
    let mut outputs: Vec<Output> = Vec::new();
    let mut in_block = false;
    let mut i: usize = 0;
    assert(ls.take(0) =~= Seq::<Seq<char>>::empty());
    assert(outputs_view(outputs@) =~= Seq::<OutputView>::empty());
    while i < lines.len()
        invariant
            i <= lines.len(),
            ls == views(lines@),
            ls == split_char(raw@, '\n'),
            parse_lines(ls.take(i as int)) == Ok::<ParseState, XrandrErrorView>(
                ParseState { outputs: outputs_view(outputs@), in_block },
            ),
        decreases lines.len() - i,
    {
        proof {
            assert(ls.take(i + 1).drop_last() =~= ls.take(i as int));
            assert(ls.take(i + 1).last() == lines@[i as int]@);
        }
        let line = trim_end_chars(lines[i].as_slice());
        if line.len() == 0 {
            i += 1;
            continue;
        }
        if !is_whitespace(line[0]) && !contains_char(line.as_slice(), ':') {
            match parse_output_header(line.as_slice()) {
                Ok(o) => {
                    let ghost before = outputs_view(outputs@);
                    outputs.push(o);
                    assert(outputs_view(outputs@) =~= before.push(o@));
                    in_block = true;
                },
                Err(e) => {
                    proof {
                        lemma_parse_lines_err(ls, i + 1);
                    }
                    return Err(e);
                },
            }
            i += 1;
            continue;
        }
        if in_block && outputs.len() > 0 {
            let ghost before = outputs_view(outputs@);
            let mut last = outputs.pop().unwrap();
            let t = trim_start_chars(line.as_slice());
            apply_body_line(&mut last, t.as_slice());
            outputs.push(last);
            proof {
                let n = before.len() - 1;
                assert(outputs_view(outputs@) =~= before.update(n, last@));
            }
        }
        i += 1;
    }
    assert(ls.take(lines.len() as int) =~= ls);
    let ghost parsed = outputs_view(outputs@);
    let mut result: Vec<Output> = Vec::new();
    let mut k: usize = 0;
    while k < outputs.len()
        invariant
            k <= outputs.len(),
            parsed == outputs_view(outputs@),
            outputs_view(result@) == parsed.take(k as int).map_values(
                |o: OutputView| fix_current(o),
            ),
        decreases outputs.len() - k,
    {
        assert(parsed[k as int] == outputs@[k as int]@);
        let mut o = outputs[k].clone();
        fix_current_exec(&mut o);
        assert(o@ == fix_current(parsed[k as int]));
        let ghost before = outputs_view(result@);
        result.push(o);
        assert(outputs_view(result@) =~= before.push(fix_current(parsed[k as int])));
        assert(parsed.take(k + 1).map_values(|o: OutputView| fix_current(o)) =~= parsed.take(
            k as int,
        ).map_values(|o: OutputView| fix_current(o)).push(fix_current(parsed[k as int])));
        assert(outputs_view(result@) =~= parsed.take(k + 1).map_values(
            |o: OutputView| fix_current(o),
        ));
        k += 1;
    }
    assert(parsed.take(outputs.len() as int) =~= parsed);
    Ok(result)
}

/// The header lines among `lines`, in order, trailing whitespace removed.
pub open spec fn header_lines(lines: Seq<Seq<char>>) -> Seq<Seq<char>>
    decreases lines.len(),
{
    if lines.len() == 0 {
        Seq::empty()
    } else {
        let prev = header_lines(lines.drop_last());
        let l = trim_end(lines.last());
        if l.len() > 0 && is_header_line(l) {
            prev.push(l)
        } else {
            prev
        }
    }
}

/// A header line is refused when it has no word, or its second word (an
/// empty one when there is none) is neither `connected` nor
/// `disconnected`.
pub open spec fn header_refused(h: Seq<char>) -> bool {
    let p = words(h);
    p.len() == 0 || {
        let st = if p.len() > 1 {
            p[1]
        } else {
            Seq::empty()
        };
        st != "connected"@ && st != "disconnected"@
    }
}

/// A mode as read from a header's geometry: what `Mode::new` makes of its
/// name with no rate, current and not preferred (so its width and height
/// are read from the name).
pub open spec fn header_mode(m: Option<ModeView>) -> bool {
    m matches Some(x) ==> x == new_mode(x.name, 0, true, false)
}

proof fn lemma_header_tokens_mode(a: HeaderAcc, toks: Seq<Seq<char>>)
    requires
        header_mode(a.mode),
    ensures
        header_mode(header_tokens(a, toks).mode),
    decreases toks.len(),
{
    if toks.len() > 0 {
        lemma_header_tokens_mode(a, toks.drop_last());
    }
}

/// The fold over the lines: an error exactly when a header line is
/// refused; otherwise one output per header line, named and marked
/// connected by its words, with a current mode (if any) as read from the
/// header.
proof fn lemma_parse_lines_headers(lines: Seq<Seq<char>>)
    ensures
        ({
            let hs = header_lines(lines);
            &&& parse_lines(lines) is Err <==> exists|i: int| 0 <= i < hs.len() && header_refused(#[trigger] hs[i])
            &&& parse_lines(lines) matches Ok(st) ==> {
                &&& st.outputs.len() == hs.len()
                &&& forall|i: int| 0 <= i < hs.len() ==> {
                    &&& (#[trigger] st.outputs[i]).name == words(hs[i])[0]
                    &&& st.outputs[i].connected == (words(hs[i])[1] == "connected"@)
                    &&& words(hs[i]).len() > 1
                    &&& header_mode(st.outputs[i].current_mode)
                    &&& st.outputs[i].off == (st.outputs[i].connected && st.outputs[i].current_mode is None)
                }
            }
        }),
    decreases lines.len(),
{
    reveal_strlit("connected");
    reveal_strlit("disconnected");
    if lines.len() > 0 {
        let prev = lines.drop_last();
        lemma_parse_lines_headers(prev);
        let hp = header_lines(prev);
        let hs = header_lines(lines);
        let l = trim_end(lines.last());
        let is_h = l.len() > 0 && is_header_line(l);
        assert(parse_lines(lines) == match parse_lines(prev) {
            Ok(st) => parse_step(st, lines.last()),
            Err(e) => Err(e),
        });
        if is_h {
            assert(hs == hp.push(l));
            let p = words(l);
            assert(header_spec(l) is Err <==> header_refused(l));
            match parse_lines(prev) {
                Ok(st) => {
                    match header_spec(l) {
                        Ok(o) => {
                            let init = HeaderAcc { rotation: Rotation::Normal, mode: None, position: None, primary: false };
                            lemma_header_tokens_mode(init, words(l.take(find(l, '('))));
                            assert(!header_refused(l));
                            assert(p.len() > 1);
                            assert(o.name == p[0]);
                            assert(o.connected == (p[1] == "connected"@));
                            let ns = st.outputs.push(o);
                            assert(parse_lines(lines) == Ok::<ParseState, XrandrErrorView>(ParseState { outputs: ns, in_block: true }));
                            assert forall|i: int| 0 <= i < hs.len() implies {
                                &&& (#[trigger] ns[i]).name == words(hs[i])[0]
                                &&& ns[i].connected == (words(hs[i])[1] == "connected"@)
                                &&& words(hs[i]).len() > 1
                                &&& header_mode(ns[i].current_mode)
                                &&& ns[i].off == (ns[i].connected && ns[i].current_mode is None)
                            } by {
                                if i < hp.len() {
                                    assert(ns[i] == st.outputs[i]);
                                    assert(hs[i] == hp[i]);
                                }
                            }
                            assert forall|i: int| 0 <= i < hs.len() implies !header_refused(#[trigger] hs[i]) by {
                                if i < hp.len() {
                                    assert(hs[i] == hp[i]);
                                }
                            }
                        },
                        Err(_) => {
                            assert(header_refused(hs[hp.len() as int]));
                        },
                    }
                },
                Err(_) => {
                    let i = choose|i: int| 0 <= i < hp.len() && header_refused(#[trigger] hp[i]);
                    assert(hs[i] == hp[i]);
                },
            }
        } else {
            assert(hs == hp);
            match parse_lines(prev) {
                Ok(st) => {
                    if l.len() == 0 || !st.in_block || st.outputs.len() == 0 {
                        assert(parse_lines(lines) == Ok::<ParseState, XrandrErrorView>(st));
                    } else {
                        let last = st.outputs.len() - 1;
                        let ns = st.outputs.update(last, body_line(st.outputs[last], trim_start(l)));
                        assert(parse_lines(lines) == Ok::<ParseState, XrandrErrorView>(ParseState { outputs: ns, in_block: true }));
                        assert forall|i: int| 0 <= i < ns.len() implies #[trigger] ns[i].name == st.outputs[i].name
                            && ns[i].connected == st.outputs[i].connected && ns[i].current_mode
                            == st.outputs[i].current_mode && ns[i].off == st.outputs[i].off by {}
                    }
                },
                Err(_) => {},
            }
        }
    }
}

/// `parse_xrandr` fails exactly when a header line (a non-empty line,
/// trailing whitespace removed, that does not start with whitespace and
/// holds no `:`) has no word, or a second word other than `connected` and
/// `disconnected`; otherwise it gives one output per header line, in
/// order, named by its first word and connected exactly when its second
/// word is `connected`. An output is read as off exactly when it is
/// connected and has no current mode (no geometry in its header).
pub proof fn law_parse_headers(raw: Seq<char>)
    ensures
        ({
            let hs = header_lines(split_char(raw, '\n'));
            &&& parse_xrandr_spec(raw) is Err <==> exists|i: int| 0 <= i < hs.len() && header_refused(#[trigger] hs[i])
            &&& parse_xrandr_spec(raw) matches Ok(outs) ==> {
                &&& outs.len() == hs.len()
                &&& forall|i: int| 0 <= i < hs.len() ==> {
                    &&& (#[trigger] outs[i]).name == words(hs[i])[0]
                    &&& outs[i].connected == (words(hs[i])[1] == "connected"@)
                    &&& outs[i].off == (outs[i].connected && outs[i].current_mode is None)
                }
            }
        }),
{
    lemma_parse_lines_headers(split_char(raw, '\n'));
}

/// The current mode of each parsed output whose header gave one: the
/// first listed mode of that name marked current; else the first listed
/// mode of that name; else the header's own, as `Mode::new` makes it from
/// the name with no rate, current and not preferred (width and height
/// read from the name).
pub proof fn law_current_mode(raw: Seq<char>, i: int)
    requires
        parse_xrandr_spec(raw) is Ok,
        0 <= i < parse_xrandr_spec(raw)->Ok_0.len(),
    ensures
        ({
            let o = parse_xrandr_spec(raw)->Ok_0[i];
            let ms = o.available_modes;
            o.current_mode matches Some(m) ==> {
                let n = m.name;
                if exists|k: int| 0 <= k < ms.len() && #[trigger] ms[k].name == n && ms[k].is_current {
                    exists|k: int|
                        0 <= k < ms.len() && #[trigger] ms[k] == m && m.is_current && forall|j: int|
                            0 <= j < k ==> !(#[trigger] ms[j].name == n && ms[j].is_current)
                } else if exists|k: int| 0 <= k < ms.len() && #[trigger] ms[k].name == n {
                    exists|k: int|
                        0 <= k < ms.len() && #[trigger] ms[k] == m && forall|j: int| 0 <= j < k ==> #[trigger] ms[j].name != n
                } else {
                    m == new_mode(n, 0, true, false)
                }
            }
        }),
{
    let lines = split_char(raw, '\n');
    lemma_parse_lines_headers(lines);
    let st = parse_lines(lines)->Ok_0;
    let pre = st.outputs[i];
    assert(parse_xrandr_spec(raw)->Ok_0[i] == fix_current(pre));
    let ms = pre.available_modes;
    if let Some(cur) = pre.current_mode {
        let n = cur.name;
        lemma_find_mode_from(ms, n, true, 0);
        lemma_find_mode_from(ms, n, false, 0);
        let a = find_mode_from(ms, n, true, 0);
        let b = find_mode_from(ms, n, false, 0);
        if exists|k: int| 0 <= k < ms.len() && #[trigger] ms[k].name == n && ms[k].is_current {
            let k = choose|k: int| 0 <= k < ms.len() && #[trigger] ms[k].name == n && ms[k].is_current;
            assert(a <= k);
            assert(ms[a] == fix_current(pre).current_mode->0);
        } else if exists|k: int| 0 <= k < ms.len() && #[trigger] ms[k].name == n {
            let k = choose|k: int| 0 <= k < ms.len() && #[trigger] ms[k].name == n;
            assert(b <= k);
            if a < ms.len() {
                assert(ms[a].name == n && ms[a].is_current);
            }
        } else {
            if a < ms.len() {
                assert(ms[a].name == n);
            }
            if b < ms.len() {
                assert(ms[b].name == n);
            }
        }
    }
}

proof fn lemma_find_mode_from(ms: Seq<ModeView>, n: Seq<char>, need_current: bool, i: int)
    requires
        0 <= i <= ms.len(),
    ensures
        i <= find_mode_from(ms, n, need_current, i) <= ms.len(),
        find_mode_from(ms, n, need_current, i) < ms.len() ==> ms[find_mode_from(ms, n, need_current, i)].name
            == n && (ms[find_mode_from(ms, n, need_current, i)].is_current || !need_current),
        forall|j: int| i <= j < find_mode_from(ms, n, need_current, i) ==> !(#[trigger] ms[j].name == n && (
        ms[j].is_current || !need_current)),
    decreases ms.len() - i,
{
    if i < ms.len() && !(ms[i].name == n && (ms[i].is_current || !need_current)) {
        lemma_find_mode_from(ms, n, need_current, i + 1);
    }
}

proof fn lemma_tokens_without_geometry(a: HeaderAcc, toks: Seq<Seq<char>>)
    requires
        forall|k: int| 0 <= k < toks.len() ==> !is_geom_token(#[trigger] toks[k]),
    ensures
        header_tokens(a, toks).mode == a.mode,
        header_tokens(a, toks).position == a.position,
    decreases toks.len(),
{
    if toks.len() > 0 {
        let p = toks.drop_last();
        assert forall|k: int| 0 <= k < p.len() implies !is_geom_token(#[trigger] p[k]) by {
            assert(p[k] == toks[k]);
        }
        lemma_tokens_without_geometry(a, p);
        assert(!is_geom_token(toks[toks.len() - 1]));
    }
}

/// A connected output whose header has no geometry (`WxH+X+Y`) before the
/// `(` has no screen area assigned: it is read as connected and off, with
/// no current mode and no position. In general an output is read as off
/// exactly when it is connected and has no current mode.
pub proof fn law_header_without_geometry_is_off(line: Seq<char>)
    ensures
        ({
            let p = words(line);
            let pre = words(line.take(find(line, '(')));
            (p.len() > 1 && p[1] == "connected"@ && forall|k: int|
                0 <= k < pre.len() ==> !is_geom_token(#[trigger] pre[k])) ==> (header_spec(line) matches Ok(
                o,
            ) && o.connected && o.off && o.current_mode is None && o.position is None)
        }),
        header_spec(line) is Ok ==> (header_spec(line)->Ok_0.off <==> (header_spec(line)->Ok_0.connected
            && header_spec(line)->Ok_0.current_mode is None)),
{
    let p = words(line);
    let pre = words(line.take(find(line, '(')));
    let init = HeaderAcc { rotation: Rotation::Normal, mode: None, position: None, primary: false };
    if forall|k: int| 0 <= k < pre.len() ==> !is_geom_token(#[trigger] pre[k]) {
        lemma_tokens_without_geometry(init, pre);
    }
}

} // verus!
