//! Core data structures: modes, outputs, and staged (not yet applied) changes.
//!
//! Refresh rates are held in thousandths of a hertz (`60000` is 60 Hz);
//! scale and gamma factors in millionths (`1250000` is 1.25).

use vstd::prelude::*;
use crate::num::{
    digits_value, milli_2dp, pad_left, pad_right, parse_fixed, parse_fixed_spec, parse_u32,
    parse_u32_spec, push_milli_2dp, push_repeat, repeat,
};
use crate::text::{chars_of, is_digit, push_str, split_once, split_once_char, trim, trim_chars};

verus! {

broadcast use vstd::string::group_string_axioms;

/// Rotation values accepted by xrandr (`--rotate`).
#[derive(Debug, Clone, Copy, PartialEq, Eq, Structural)]
pub enum Rotation {
    Normal,
    Left,
    Right,
    Inverted,
}

pub open spec fn rotation_name(r: Rotation) -> Seq<char> {
    match r {
        Rotation::Normal => "normal"@,
        Rotation::Left => "left"@,
        Rotation::Right => "right"@,
        Rotation::Inverted => "inverted"@,
    }
}

pub open spec fn rotation_next(r: Rotation) -> Rotation {
    match r {
        Rotation::Normal => Rotation::Left,
        Rotation::Left => Rotation::Right,
        Rotation::Right => Rotation::Inverted,
        Rotation::Inverted => Rotation::Normal,
    }
}

impl Rotation {
    /// The name xrandr uses for this rotation.
    pub fn as_str(&self) -> (s: &'static str)
        ensures
            s@ == rotation_name(*self),
    {
        match self {
            Rotation::Normal => "normal",
            Rotation::Left => "left",
            Rotation::Right => "right",
            Rotation::Inverted => "inverted",
        }
    }

    /// Cycle to the next value, wrapping back to `Normal`.
    pub fn next(self) -> (r: Self)
        ensures
            r == rotation_next(self),
    {
        match self {
            Rotation::Normal => Rotation::Left,
            Rotation::Left => Rotation::Right,
            Rotation::Right => Rotation::Inverted,
            Rotation::Inverted => Rotation::Normal,
        }
    }
}

impl Default for Rotation {
    fn default() -> (r: Self)
        ensures
            r == Rotation::Normal,
    {
        Rotation::Normal
    }
}

/// Reflection values accepted by xrandr (`--reflect`).
#[derive(Debug, Clone, Copy, PartialEq, Eq, Structural)]
pub enum Reflection {
    Normal,
    X,
    Y,
    Xy,
}

pub open spec fn reflection_name(r: Reflection) -> Seq<char> {
    match r {
        Reflection::Normal => "normal"@,
        Reflection::X => "x"@,
        Reflection::Y => "y"@,
        Reflection::Xy => "xy"@,
    }
}

pub open spec fn reflection_next(r: Reflection) -> Reflection {
    match r {
        Reflection::Normal => Reflection::X,
        Reflection::X => Reflection::Y,
        Reflection::Y => Reflection::Xy,
        Reflection::Xy => Reflection::Normal,
    }
}

impl Reflection {
    /// The name xrandr uses for this reflection.
    pub fn as_str(&self) -> (s: &'static str)
        ensures
            s@ == reflection_name(*self),
    {
        match self {
            Reflection::Normal => "normal",
            Reflection::X => "x",
            Reflection::Y => "y",
            Reflection::Xy => "xy",
        }
    }

    /// Cycle to the next value, wrapping back to `Normal`.
    pub fn next(self) -> (r: Self)
        ensures
            r == reflection_next(self),
    {
        match self {
            Reflection::Normal => Reflection::X,
            Reflection::X => Reflection::Y,
            Reflection::Y => Reflection::Xy,
            Reflection::Xy => Reflection::Normal,
        }
    }
}

impl Default for Reflection {
    fn default() -> (r: Self)
        ensures
            r == Reflection::Normal,
    {
        Reflection::Normal
    }
}

/// Relative position between two outputs, e.g. "right-of eDP-1".
#[derive(Debug, Clone, Copy, PartialEq, Eq, Structural)]
pub enum RelativePosition {
    LeftOf,
    RightOf,
    Above,
    Below,
    SameAs,
}

pub open spec fn relative_name(p: RelativePosition) -> Seq<char> {
    match p {
        RelativePosition::LeftOf => "left-of"@,
        RelativePosition::RightOf => "right-of"@,
        RelativePosition::Above => "above"@,
        RelativePosition::Below => "below"@,
        RelativePosition::SameAs => "same-as"@,
    }
}

impl RelativePosition {
    /// The xrandr option name (without the leading `--`).
    pub fn as_str(&self) -> (s: &'static str)
        ensures
            s@ == relative_name(*self),
    {
        match self {
            RelativePosition::LeftOf => "left-of",
            RelativePosition::RightOf => "right-of",
            RelativePosition::Above => "above",
            RelativePosition::Below => "below",
            RelativePosition::SameAs => "same-as",
        }
    }
}

/// Applying `rotation_next` four times returns to the start.
pub proof fn rotation_cycle_law(r: Rotation)
    ensures
        rotation_next(rotation_next(rotation_next(rotation_next(r)))) == r,
        rotation_next(r) != r,
{
}

/// Applying `reflection_next` four times returns to the start.
pub proof fn reflection_cycle_law(r: Reflection)
    ensures
        reflection_next(reflection_next(reflection_next(reflection_next(r)))) == r,
        reflection_next(r) != r,
{
}

/// What `parse_resolution` returns: `"<w>x<h>"` split at the first `x`,
/// each side trimmed and read as a `u32`.
pub open spec fn parse_resolution_spec(s: Seq<char>) -> Option<(u32, u32)> {
    match split_once(s, 'x') {
        Some((w, h)) => match (parse_u32_spec(trim(w)), parse_u32_spec(trim(h))) {
            (Some(a), Some(b)) => Some((a, b)),
            _ => None,
        },
        None => None,
    }
}

/// A resolution written as `{w}x{h}` reads back as `(w, h)`.
pub proof fn law_resolution_round_trip(w: u32, h: u32)
    ensures
        parse_resolution_spec(crate::num::dec(w as nat) + seq!['x'] + crate::num::dec(h as nat)) == Some((w, h)),
{
    let a = crate::num::dec(w as nat);
    let b = crate::num::dec(h as nat);
    let s = a + seq!['x'] + b;
    crate::num::lemma_dec_digits(w as nat);
    crate::num::lemma_dec_digits(h as nat);
    crate::text::lemma_find(s, 'x');
    let k = crate::text::find(s, 'x');
    assert(s[a.len() as int] == 'x');
    if k < a.len() {
        assert(s[k] == a[k]);
        assert(is_digit(a[k]));
    }
    assert(k == a.len());
    assert(s.take(k) =~= a);
    assert(s.skip(k + 1) =~= b);
    lemma_trim_digits(a);
    lemma_trim_digits(b);
}

/// Whitespace trimming leaves a non-empty string of digits as it is.
proof fn lemma_trim_digits(d: Seq<char>)
    requires
        d.len() >= 1,
        crate::num::all_digits(d),
    ensures
        trim(d) == d,
{
    assert(is_digit(d.last()));
    assert(is_digit(d[0]));
    assert(crate::text::trim_end(d) == d);
}

pub fn parse_resolution_chars(s: &[char]) -> (r: Option<(u32, u32)>)
    ensures
        r == parse_resolution_spec(s@),
{
    match split_once_char(s, 'x') {
        Some((w, h)) => {
            let tw = trim_chars(w.as_slice());
            let th = trim_chars(h.as_slice());
            match (parse_u32(tw.as_slice()), parse_u32(th.as_slice())) {
                (Some(a), Some(b)) => Some((a, b)),
                _ => None,
            }
        },
        None => None,
    }
}

/// Parses a resolution string like "1920x1080" into (width, height).
pub fn parse_resolution(s: &str) -> (r: Option<(u32, u32)>)
    ensures
        r == parse_resolution_spec(s@),
{
    let v = chars_of(s);
    parse_resolution_chars(v.as_slice())
}

/// `s` without trailing characters that are neither digits nor `.`.
pub open spec fn trim_rate_suffix(s: Seq<char>) -> Seq<char>
    decreases s.len(),
{
    if s.len() > 0 && !is_digit(s.last()) && s.last() != '.' {
        trim_rate_suffix(s.drop_last())
    } else {
        s
    }
}

/// What `parse_refresh_rate` returns, in thousandths of a hertz.
pub open spec fn parse_refresh_rate_spec(s: Seq<char>) -> Option<i64> {
    parse_fixed_spec(trim_rate_suffix(trim(s)), 3)
}

pub fn parse_refresh_rate_chars(s: &[char]) -> (r: Option<i64>)
    ensures
        r == parse_refresh_rate_spec(s@),
{
    let t = trim_chars(s);
    let mut e = t.len();
    assert(t@.take(e as int) =~= t@);
    while e > 0 && !('0' <= t[e - 1] && t[e - 1] <= '9') && t[e - 1] != '.'
        invariant
            e <= t.len(),
            trim_rate_suffix(t@) == trim_rate_suffix(t@.take(e as int)),
        decreases e,
    {
        assert(t@.take(e as int).drop_last() =~= t@.take(e - 1));
        e -= 1;
    }
    let u = crate::text::slice_take(t.as_slice(), e);
    parse_fixed(u.as_slice(), 3)
}

/// Parses a refresh rate like "60.00" or "60.00*" into thousandths of a hertz.
pub fn parse_refresh_rate(s: &str) -> (r: Option<i64>)
    ensures
        r == parse_refresh_rate_spec(s@),
{
    let v = chars_of(s);
    parse_refresh_rate_chars(v.as_slice())
}


/// A display mode reported by xrandr.
#[derive(Debug, PartialEq)]
pub struct Mode {
    /// Mode name as it appears in xrandr output, e.g. "1920x1080".
    pub name: String,
    /// Refresh rate in thousandths of a hertz, e.g. 60000 for 60.00 Hz.
    pub refresh_rate: i64,
    /// Whether this mode is the currently active one for the output.
    pub is_current: bool,
    /// Whether this mode is the preferred mode.
    pub is_preferred: bool,
    /// Width in pixels (parsed from the name).
    pub width: u32,
    /// Height in pixels (parsed from the name).
    pub height: u32,
}

/// The mathematical content of a `Mode`.
pub struct ModeView {
    pub name: Seq<char>,
    pub refresh_rate: i64,
    pub is_current: bool,
    pub is_preferred: bool,
    pub width: u32,
    pub height: u32,
}

impl View for Mode {
    type V = ModeView;

    open spec fn view(&self) -> ModeView {
        ModeView {
            name: self.name@,
            refresh_rate: self.refresh_rate,
            is_current: self.is_current,
            is_preferred: self.is_preferred,
            width: self.width,
            height: self.height,
        }
    }
}

impl Clone for Mode {
    fn clone(&self) -> (r: Self)
        ensures
            r@ == self@,
    {
        Mode {
            name: self.name.clone(),
            refresh_rate: self.refresh_rate,
            is_current: self.is_current,
            is_preferred: self.is_preferred,
            width: self.width,
            height: self.height,
        }
    }
}

/// The mode `Mode::new` builds: width and height come from the name,
/// or are 0 when the name is not a resolution.
pub open spec fn new_mode(name: Seq<char>, rate: i64, cur: bool, pref: bool) -> ModeView {
    let (w, h) = match parse_resolution_spec(name) {
        Some(p) => p,
        None => (0u32, 0u32),
    };
    ModeView { name, refresh_rate: rate, is_current: cur, is_preferred: pref, width: w, height: h }
}

/// `Mode::label`: the name padded to 10, two spaces, the rate with two
/// decimals padded to 6, then `Hz`.
pub open spec fn mode_label(m: ModeView) -> Seq<char> {
    pad_right(m.name, 10) + "  "@ + pad_left(milli_2dp(m.refresh_rate as int), ' ', 6) + "Hz"@
}

/// Appends `t` padded on the right with spaces to `w` characters.
pub fn push_padded_right(s: &mut String, t: &str, w: usize)
    ensures
        final(s)@ == old(s)@ + pad_right(t@, w as nat),
{
    let n = t.unicode_len();
    push_str(s, t);
    if n < w {
        push_repeat(s, ' ', w - n);
    }
    assert(final(s)@ =~= old(s)@ + pad_right(t@, w as nat));
}

/// Appends `t` padded on the left with spaces to `w` characters.
pub fn push_padded_left(s: &mut String, t: &str, w: usize)
    ensures
        final(s)@ == old(s)@ + pad_left(t@, ' ', w as nat),
{
    let n = t.unicode_len();
    if n < w {
        push_repeat(s, ' ', w - n);
    }
    push_str(s, t);
    assert(final(s)@ =~= old(s)@ + pad_left(t@, ' ', w as nat));
}

impl Mode {
    /// Convenience constructor that derives width/height from the name.
    pub fn new(name: String, refresh_rate: i64, is_current: bool, is_preferred: bool) -> (m: Self)
        ensures
            m@ == new_mode(name@, refresh_rate, is_current, is_preferred),
    {
        let (width, height) = match parse_resolution(name.as_str()) {
            Some(p) => p,
            None => (0, 0),
        };
        Mode { name, refresh_rate, is_current, is_preferred, width, height }
    }

    /// Human-readable label, e.g. `1920x1080    60.00Hz`.
    pub fn label(&self) -> (s: String)
        ensures
            s@ == mode_label(self@),
    {
        let mut s = String::new();
        push_padded_right(&mut s, self.name.as_str(), 10);
        push_str(&mut s, "  ");
        let mut r = String::new();
        push_milli_2dp(&mut r, self.refresh_rate);
        push_padded_left(&mut s, r.as_str(), 6);
        push_str(&mut s, "Hz");
        assert(s@ =~= mode_label(self@));
        s
    }
}

/// A custom mode definition (`xrandr --newmode <name> <modeline>`).
#[derive(Debug, PartialEq)]
pub struct CustomMode {
    pub name: String,
    pub modeline: String,
}

pub struct CustomModeView {
    pub name: Seq<char>,
    pub modeline: Seq<char>,
}

impl View for CustomMode {
    type V = CustomModeView;

    open spec fn view(&self) -> CustomModeView {
        CustomModeView { name: self.name@, modeline: self.modeline@ }
    }
}

impl Clone for CustomMode {
    fn clone(&self) -> (r: Self)
        ensures
            r@ == self@,
    {
        CustomMode { name: self.name.clone(), modeline: self.modeline.clone() }
    }
}


pub open spec fn modes_view(v: Seq<Mode>) -> Seq<ModeView> {
    v.map_values(|m: Mode| m@)
}

pub open spec fn customs_view(v: Seq<CustomMode>) -> Seq<CustomModeView> {
    v.map_values(|m: CustomMode| m@)
}

pub open spec fn opt_mode_view(m: Option<Mode>) -> Option<ModeView> {
    match m {
        Some(x) => Some(x@),
        None => None,
    }
}

pub open spec fn rel_view(r: Option<(String, RelativePosition)>) -> Option<(Seq<char>, RelativePosition)> {
    match r {
        Some((n, p)) => Some((n@, p)),
        None => None,
    }
}

pub open spec fn bytes_view(e: Option<Vec<u8>>) -> Option<Seq<u8>> {
    match e {
        Some(b) => Some(b@),
        None => None,
    }
}

pub fn clone_modes(v: &Vec<Mode>) -> (r: Vec<Mode>)
    ensures
        modes_view(r@) == modes_view(v@),
{
    let mut r: Vec<Mode> = Vec::new();
    let mut i: usize = 0;
    while i < v.len()
        invariant
            i <= v.len(),
            modes_view(r@) == modes_view(v@.take(i as int)),
        decreases v.len() - i,
    {
        r.push(v[i].clone());
        assert(modes_view(v@.take(i + 1)) =~= modes_view(v@.take(i as int)).push(v@[i as int]@));
        assert(modes_view(r@) =~= modes_view(v@.take(i + 1)));
        i += 1;
    }
    assert(v@.take(v.len() as int) =~= v@);
    r
}

pub fn clone_customs(v: &Vec<CustomMode>) -> (r: Vec<CustomMode>)
    ensures
        customs_view(r@) == customs_view(v@),
{
    let mut r: Vec<CustomMode> = Vec::new();
    let mut i: usize = 0;
    while i < v.len()
        invariant
            i <= v.len(),
            customs_view(r@) == customs_view(v@.take(i as int)),
        decreases v.len() - i,
    {
        r.push(v[i].clone());
        assert(customs_view(v@.take(i + 1)) =~= customs_view(v@.take(i as int)).push(
            v@[i as int]@,
        ));
        assert(customs_view(r@) =~= customs_view(v@.take(i + 1)));
        i += 1;
    }
    assert(v@.take(v.len() as int) =~= v@);
    r
}

pub fn clone_bytes(v: &Vec<u8>) -> (r: Vec<u8>)
    ensures
        r@ == v@,
{
    let mut r: Vec<u8> = Vec::new();
    let mut i: usize = 0;
    while i < v.len()
        invariant
            i <= v.len(),
            r@ == v@.take(i as int),
        decreases v.len() - i,
    {
        r.push(v[i]);
        assert(v@.take(i as int).push(v@[i as int]) =~= v@.take(i + 1));
        i += 1;
    }
    assert(v@.take(v.len() as int) =~= v@);
    r
}

pub fn clone_opt_mode(m: &Option<Mode>) -> (r: Option<Mode>)
    ensures
        opt_mode_view(r) == opt_mode_view(*m),
{
    match m {
        Some(x) => Some(x.clone()),
        None => None,
    }
}

pub fn clone_rel(r: &Option<(String, RelativePosition)>) -> (o: Option<(String, RelativePosition)>)
    ensures
        rel_view(o) == rel_view(*r),
{
    match r {
        Some((n, p)) => Some((n.clone(), *p)),
        None => None,
    }
}

pub fn clone_opt_bytes(e: &Option<Vec<u8>>) -> (o: Option<Vec<u8>>)
    ensures
        bytes_view(o) == bytes_view(*e),
{
    match e {
        Some(b) => Some(clone_bytes(b)),
        None => None,
    }
}

/// State of a single output/display.
#[derive(Debug, PartialEq)]
pub struct Output {
    pub name: String,
    pub connected: bool,
    pub current_mode: Option<Mode>,
    pub available_modes: Vec<Mode>,
    pub is_primary: bool,
    pub rotation: Rotation,
    pub reflection: Reflection,
    /// Horizontal and vertical scale factors in millionths.
    pub scale: Option<(i64, i64)>,
    /// `--scale-from` factors in millionths.
    pub scale_from: Option<(i64, i64)>,
    /// Red, green and blue gamma in millionths.
    pub gamma: Option<(i64, i64, i64)>,
    pub position: Option<(i32, i32)>,
    pub relative_to: Option<(String, RelativePosition)>,
    pub off: bool,
    pub edid: Option<Vec<u8>>,
    /// `xrandr --newmode` / `--addmode` definitions loaded from a saved layout.
    pub custom_modes: Vec<CustomMode>,
}

pub struct OutputView {
    pub name: Seq<char>,
    pub connected: bool,
    pub current_mode: Option<ModeView>,
    pub available_modes: Seq<ModeView>,
    pub is_primary: bool,
    pub rotation: Rotation,
    pub reflection: Reflection,
    pub scale: Option<(i64, i64)>,
    pub scale_from: Option<(i64, i64)>,
    pub gamma: Option<(i64, i64, i64)>,
    pub position: Option<(i32, i32)>,
    pub relative_to: Option<(Seq<char>, RelativePosition)>,
    pub off: bool,
    pub edid: Option<Seq<u8>>,
    pub custom_modes: Seq<CustomModeView>,
}

impl View for Output {
    type V = OutputView;

    open spec fn view(&self) -> OutputView {
        OutputView {
            name: self.name@,
            connected: self.connected,
            current_mode: opt_mode_view(self.current_mode),
            available_modes: modes_view(self.available_modes@),
            is_primary: self.is_primary,
            rotation: self.rotation,
            reflection: self.reflection,
            scale: self.scale,
            scale_from: self.scale_from,
            gamma: self.gamma,
            position: self.position,
            relative_to: rel_view(self.relative_to),
            off: self.off,
            edid: bytes_view(self.edid),
            custom_modes: customs_view(self.custom_modes@),
        }
    }
}

/// The output `Output::default()` gives: everything empty, false or normal.
pub open spec fn default_output() -> OutputView {
    OutputView {
        name: Seq::empty(),
        connected: false,
        current_mode: None,
        available_modes: Seq::empty(),
        is_primary: false,
        rotation: Rotation::Normal,
        reflection: Reflection::Normal,
        scale: None,
        scale_from: None,
        gamma: None,
        position: None,
        relative_to: None,
        off: false,
        edid: None,
        custom_modes: Seq::empty(),
    }
}

impl Default for Output {
    fn default() -> (o: Self)
        ensures
            o@ == default_output(),
    {
        let o = Output {
            name: String::new(),
            connected: false,
            current_mode: None,
            available_modes: Vec::new(),
            is_primary: false,
            rotation: Rotation::Normal,
            reflection: Reflection::Normal,
            scale: None,
            scale_from: None,
            gamma: None,
            position: None,
            relative_to: None,
            off: false,
            edid: None,
            custom_modes: Vec::new(),
        };
        assert(o@.available_modes =~= Seq::<ModeView>::empty());
        assert(o@.custom_modes =~= Seq::<CustomModeView>::empty());
        o
    }
}

impl Clone for Output {
    fn clone(&self) -> (r: Self)
        ensures
            r@ == self@,
    {
        Output {
            name: self.name.clone(),
            connected: self.connected,
            current_mode: clone_opt_mode(&self.current_mode),
            available_modes: clone_modes(&self.available_modes),
            is_primary: self.is_primary,
            rotation: self.rotation,
            reflection: self.reflection,
            scale: self.scale,
            scale_from: self.scale_from,
            gamma: self.gamma,
            position: self.position,
            relative_to: clone_rel(&self.relative_to),
            off: self.off,
            edid: clone_opt_bytes(&self.edid),
            custom_modes: clone_customs(&self.custom_modes),
        }
    }
}

/// `Output::status_label`: `off`, `<mode> @ <rate>` or `(no mode)`.
pub open spec fn status_label_spec(o: OutputView) -> Seq<char> {
    if o.off {
        "off"@
    } else {
        match o.current_mode {
            Some(m) => m.name + " @ "@ + milli_2dp(m.refresh_rate as int),
            None => "(no mode)"@,
        }
    }
}

impl Output {
    /// A short status string for the output list column.
    pub fn status_label(&self) -> (s: String)
        ensures
            s@ == status_label_spec(self@),
    {
        if self.off {
            return String::from_str("off");
        }
        match &self.current_mode {
            Some(m) => {
                let mut s = m.name.clone();
                push_str(&mut s, " @ ");
                push_milli_2dp(&mut s, m.refresh_rate);
                s
            },
            None => String::from_str("(no mode)"),
        }
    }
}

/// Staged, not-yet-applied changes for a single output. `Some` means the
/// user changed that value; `None` means "leave the current value alone".
#[derive(Debug, PartialEq)]
pub struct PendingChange {
    pub mode: Option<Mode>,
    pub off: Option<bool>,
    pub primary: Option<bool>,
    pub rotation: Option<Rotation>,
    pub reflection: Option<Reflection>,
    pub scale: Option<(i64, i64)>,
    pub scale_from: Option<(i64, i64)>,
    pub gamma: Option<(i64, i64, i64)>,
    /// Brightness factor in millionths, for `--brightness`.
    pub brightness: Option<i64>,
    pub position: Option<(i32, i32)>,
    /// (width, height) in pixels for `--panning`.
    pub panning: Option<(u32, u32)>,
    pub relative_to: Option<Option<(String, RelativePosition)>>,
    /// Reserved for EDID overrides.
    pub edid: Option<Option<Vec<u8>>>,
    /// Custom modes to (re)create with `--newmode`.
    pub custom_modes: Vec<CustomMode>,
}

pub struct PendingChangeView {
    pub mode: Option<ModeView>,
    pub off: Option<bool>,
    pub primary: Option<bool>,
    pub rotation: Option<Rotation>,
    pub reflection: Option<Reflection>,
    pub scale: Option<(i64, i64)>,
    pub scale_from: Option<(i64, i64)>,
    pub gamma: Option<(i64, i64, i64)>,
    pub brightness: Option<i64>,
    pub position: Option<(i32, i32)>,
    pub panning: Option<(u32, u32)>,
    pub relative_to: Option<Option<(Seq<char>, RelativePosition)>>,
    pub edid: Option<Option<Seq<u8>>>,
    pub custom_modes: Seq<CustomModeView>,
}

pub open spec fn opt_rel_view(r: Option<Option<(String, RelativePosition)>>) -> Option<
    Option<(Seq<char>, RelativePosition)>,
> {
    match r {
        Some(x) => Some(rel_view(x)),
        None => None,
    }
}

pub open spec fn opt_bytes_view(e: Option<Option<Vec<u8>>>) -> Option<Option<Seq<u8>>> {
    match e {
        Some(x) => Some(bytes_view(x)),
        None => None,
    }
}

impl View for PendingChange {
    type V = PendingChangeView;

    open spec fn view(&self) -> PendingChangeView {
        PendingChangeView {
            mode: opt_mode_view(self.mode),
            off: self.off,
            primary: self.primary,
            rotation: self.rotation,
            reflection: self.reflection,
            scale: self.scale,
            scale_from: self.scale_from,
            gamma: self.gamma,
            brightness: self.brightness,
            position: self.position,
            panning: self.panning,
            relative_to: opt_rel_view(self.relative_to),
            edid: opt_bytes_view(self.edid),
            custom_modes: customs_view(self.custom_modes@),
        }
    }
}

/// The change `PendingChange::default()` gives: nothing staged.
pub open spec fn empty_change() -> PendingChangeView {
    PendingChangeView {
        mode: None,
        off: None,
        primary: None,
        rotation: None,
        reflection: None,
        scale: None,
        scale_from: None,
        gamma: None,
        brightness: None,
        position: None,
        panning: None,
        relative_to: None,
        edid: None,
        custom_modes: Seq::empty(),
    }
}

impl Default for PendingChange {
    fn default() -> (c: Self)
        ensures
            c@ == empty_change(),
    {
        let c = PendingChange {
            mode: None,
            off: None,
            primary: None,
            rotation: None,
            reflection: None,
            scale: None,
            scale_from: None,
            gamma: None,
            brightness: None,
            position: None,
            panning: None,
            relative_to: None,
            edid: None,
            custom_modes: Vec::new(),
        };
        assert(c@.custom_modes =~= Seq::<CustomModeView>::empty());
        c
    }
}

impl Clone for PendingChange {
    fn clone(&self) -> (r: Self)
        ensures
            r@ == self@,
    {
        PendingChange {
            mode: clone_opt_mode(&self.mode),
            off: self.off,
            primary: self.primary,
            rotation: self.rotation,
            reflection: self.reflection,
            scale: self.scale,
            scale_from: self.scale_from,
            gamma: self.gamma,
            brightness: self.brightness,
            position: self.position,
            panning: self.panning,
            relative_to: match &self.relative_to {
                Some(x) => Some(clone_rel(x)),
                None => None,
            },
            edid: match &self.edid {
                Some(x) => Some(clone_opt_bytes(x)),
                None => None,
            },
            custom_modes: clone_customs(&self.custom_modes),
        }
    }
}

/// Nothing at all is staged.
pub open spec fn change_is_empty(c: PendingChangeView) -> bool {
    &&& c.mode is None
    &&& c.off is None
    &&& c.primary is None
    &&& c.rotation is None
    &&& c.reflection is None
    &&& c.scale is None
    &&& c.scale_from is None
    &&& c.gamma is None
    &&& c.brightness is None
    &&& c.position is None
    &&& c.panning is None
    &&& c.relative_to is None
    &&& c.edid is None
    &&& c.custom_modes.len() == 0
}

/// At least one user-visible field is staged (`primary` counts only when
/// it is `Some(true)`; EDID and custom modes do not count).
pub open spec fn visible_change(c: PendingChangeView) -> bool {
    ||| c.mode is Some
    ||| c.off is Some
    ||| c.primary == Some(true)
    ||| c.rotation is Some
    ||| c.reflection is Some
    ||| c.scale is Some
    ||| c.scale_from is Some
    ||| c.gamma is Some
    ||| c.brightness is Some
    ||| c.position is Some
    ||| c.panning is Some
    ||| c.relative_to is Some
}

impl PendingChange {
    /// True when nothing is staged.
    pub fn is_empty(&self) -> (b: bool)
        ensures
            b == change_is_empty(self@),
    {
        self.mode.is_none() && self.off.is_none() && self.primary.is_none()
            && self.rotation.is_none() && self.reflection.is_none() && self.scale.is_none()
            && self.scale_from.is_none() && self.gamma.is_none() && self.brightness.is_none()
            && self.position.is_none()
            && self.panning.is_none() && self.relative_to.is_none() && self.edid.is_none()
            && self.custom_modes.len() == 0
    }

    /// Returns true if at least one user-visible field is staged.
    pub fn has_visible_change(&self) -> (b: bool)
        ensures
            b == visible_change(self@),
    {
        self.mode.is_some() || self.off.is_some() || self.primary == Some(true)
            || self.rotation.is_some() || self.reflection.is_some() || self.scale.is_some()
            || self.scale_from.is_some() || self.gamma.is_some() || self.brightness.is_some()
            || self.position.is_some()
            || self.panning.is_some() || self.relative_to.is_some()
    }
}

} // verus!
