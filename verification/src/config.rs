//! Saved layouts: the persisted form of outputs, conversions to and from
//! the live model, profile names and paths.
//!
//! A saved layout records the *final* state of each output (staged changes
//! already merged in), so the file is easy to read and edit by hand.

use vstd::prelude::*;
use crate::model::{
    CustomMode, CustomModeView, Mode, ModeView, Output, OutputView, PendingChange,
    PendingChangeView, Reflection, RelativePosition, Rotation, clone_customs, customs_view,
    empty_change, new_mode,
};
use crate::num::{hex, pad_left, push_hex_padded};
use crate::text::{chars_of, hex_val, is_hex_digit, push_char, push_str, is_alnum, lex_lt, lex_less, strs_view, slice_take, slice_range};

verus! {

broadcast use vstd::string::group_string_axioms;

/// Placement of an output relative to another, as saved.
#[derive(Debug, PartialEq)]
pub struct PersistedRelative {
    pub to: String,
    pub pos: RelativePosition,
}

/// One output as saved in a layout file.
#[derive(Debug, PartialEq)]
pub struct PersistedOutput {
    pub name: String,
    pub mode: Option<String>,
    /// Refresh rate in thousandths of a hertz.
    pub rate: Option<i64>,
    pub primary: bool,
    pub rotation: Rotation,
    pub reflection: Reflection,
    /// Scale factors in millionths.
    pub scale: Option<(i64, i64)>,
    pub scale_from: Option<(i64, i64)>,
    /// Gamma in millionths.
    pub gamma: Option<(i64, i64, i64)>,
    pub position: Option<(i32, i32)>,
    pub relative: Option<PersistedRelative>,
    pub off: bool,
    /// Hex-encoded EDID blob, if known.
    pub edid_hex: Option<String>,
}

pub struct PersistedOutputView {
    pub name: Seq<char>,
    pub mode: Option<Seq<char>>,
    pub rate: Option<i64>,
    pub primary: bool,
    pub rotation: Rotation,
    pub reflection: Reflection,
    pub scale: Option<(i64, i64)>,
    pub scale_from: Option<(i64, i64)>,
    pub gamma: Option<(i64, i64, i64)>,
    pub position: Option<(i32, i32)>,
    pub relative: Option<(Seq<char>, RelativePosition)>,
    pub off: bool,
    pub edid_hex: Option<Seq<char>>,
}

pub open spec fn opt_str_view(o: Option<String>) -> Option<Seq<char>> {
    match o {
        Some(s) => Some(s@),
        None => None,
    }
}

pub open spec fn prel_view(r: Option<PersistedRelative>) -> Option<(Seq<char>, RelativePosition)> {
    match r {
        Some(p) => Some((p.to@, p.pos)),
        None => None,
    }
}

impl View for PersistedOutput {
    type V = PersistedOutputView;

    open spec fn view(&self) -> PersistedOutputView {
        PersistedOutputView {
            name: self.name@,
            mode: opt_str_view(self.mode),
            rate: self.rate,
            primary: self.primary,
            rotation: self.rotation,
            reflection: self.reflection,
            scale: self.scale,
            scale_from: self.scale_from,
            gamma: self.gamma,
            position: self.position,
            relative: prel_view(self.relative),
            off: self.off,
            edid_hex: opt_str_view(self.edid_hex),
        }
    }
}

/// A saved layout.
#[derive(Debug, PartialEq)]
pub struct LayoutConfig {
    /// Schema version.
    pub version: u32,
    pub outputs: Vec<PersistedOutput>,
    pub custom_modes: Vec<CustomMode>,
}

pub struct LayoutConfigView {
    pub version: u32,
    pub outputs: Seq<PersistedOutputView>,
    pub custom_modes: Seq<CustomModeView>,
}

pub open spec fn persisted_view(v: Seq<PersistedOutput>) -> Seq<PersistedOutputView> {
    v.map_values(|p: PersistedOutput| p@)
}

impl View for LayoutConfig {
    type V = LayoutConfigView;

    open spec fn view(&self) -> LayoutConfigView {
        LayoutConfigView {
            version: self.version,
            outputs: persisted_view(self.outputs@),
            custom_modes: customs_view(self.custom_modes@),
        }
    }
}

/// The schema version a layout has when the file does not say.
pub fn default_version() -> (v: u32)
    ensures
        v == 1,
{
    1
}

/// The rotation a saved output has when the file does not say.
pub fn default_rotation() -> (r: Rotation)
    ensures
        r == Rotation::Normal,
{
    Rotation::Normal
}

/// The reflection a saved output has when the file does not say.
pub fn default_reflection() -> (r: Reflection)
    ensures
        r == Reflection::Normal,
{
    Reflection::Normal
}

/// Two lower-case hex digits per byte.
pub open spec fn hex_bytes(b: Seq<u8>) -> Seq<char>
    decreases b.len(),
{
    if b.len() == 0 {
        Seq::empty()
    } else {
        hex_bytes(b.drop_last()) + pad_left(hex(b.last() as nat), '0', 2)
    }
}

/// Hex-encode bytes, two lower-case digits per byte.
pub fn hex_encode(bytes: &[u8]) -> (s: String)
    ensures
        s@ == hex_bytes(bytes@),
{
    let mut s = String::new();
    let mut i: usize = 0;
    assert(bytes@.take(0) =~= Seq::<u8>::empty());
    while i < bytes.len()
        invariant
            i <= bytes.len(),
            s@ == hex_bytes(bytes@.take(i as int)),
        decreases bytes.len() - i,
    {
        push_hex_padded(&mut s, bytes[i] as u64, 2);
        assert(bytes@.take(i + 1).drop_last() =~= bytes@.take(i as int));
        i += 1;
    }
    assert(bytes@.take(bytes.len() as int) =~= bytes@);
    s
}

pub open spec fn all_hex(s: Seq<char>) -> bool {
    forall|i: int| 0 <= i < s.len() ==> is_hex_digit(#[trigger] s[i])
}

/// Bytes of a string of hex digit pairs (high digit first).
pub open spec fn unhex(s: Seq<char>) -> Seq<u8>
    decreases s.len(),
{
    if s.len() < 2 {
        Seq::empty()
    } else {
        unhex(s.take(s.len() - 2)) + seq![
            (hex_val(s[s.len() - 2]) * 16 + hex_val(s[s.len() - 1])) as u8,
        ]
    }
}

/// What `hex_decode` returns: the bytes, when `s` is an even number of hex
/// digits; `None` otherwise.
pub open spec fn hex_decode_spec(s: Seq<char>) -> Option<Seq<u8>> {
    if all_hex(s) && s.len() % 2 == 0 {
        Some(unhex(s))
    } else {
        None
    }
}

fn hex_value_exec(c: char) -> (r: Option<u8>)
    ensures
        match r {
            Some(v) => is_hex_digit(c) && v == hex_val(c),
            None => !is_hex_digit(c),
        },
{
    if '0' <= c && c <= '9' {
        Some((c as u32 - '0' as u32) as u8)
    } else if 'a' <= c && c <= 'f' {
        Some((c as u32 - 'a' as u32 + 10) as u8)
    } else if 'A' <= c && c <= 'F' {
        Some((c as u32 - 'A' as u32 + 10) as u8)
    } else {
        None
    }
}

/// Decode a string of hex digit pairs.
pub fn hex_decode(s: &str) -> (r: Option<Vec<u8>>)
    ensures
        match hex_decode_spec(s@) {
            Some(b) => r matches Some(v) && v@ == b,
            None => r is None,
        },
{
    let c = chars_of(s);
    if c.len() % 2 != 0 {
        return None;
    }
    let mut out: Vec<u8> = Vec::new();
    let mut i: usize = 0;
    assert(c@.take(0) =~= Seq::<char>::empty());
    while i < c.len()
        invariant
            i <= c.len(),
            c@ == s@,
            c.len() % 2 == 0,
            i % 2 == 0,
            all_hex(c@.take(i as int)),
            out@ == unhex(c@.take(i as int)),
        decreases c.len() - i,
    {
        let hi = match hex_value_exec(c[i]) {
            Some(v) => v,
            None => {
                assert(!all_hex(c@));
                return None;
            },
        };
        let lo = match hex_value_exec(c[i + 1]) {
            Some(v) => v,
            None => {
                assert(!all_hex(c@));
                return None;
            },
        };
        out.push(hi * 16 + lo);
        proof {
            let t = c@.take(i + 2);
            assert(t.take(t.len() - 2) =~= c@.take(i as int));
            assert(t[t.len() - 2] == c@[i as int]);
            assert(t[t.len() - 1] == c@[i + 1]);
            assert(all_hex(t)) by {
                assert forall|k: int| 0 <= k < t.len() implies is_hex_digit(#[trigger] t[k]) by {
                    if k < i {
                        assert(c@.take(i as int)[k] == t[k]);
                    }
                }
            }
        }
        i += 2;
    }
    assert(c@.take(c.len() as int) =~= c@);
    Some(out)
}

proof fn lemma_hex_char_val(d: nat)
    requires
        d < 16,
    ensures
        is_hex_digit(crate::num::hex_char(d)),
        hex_val(crate::num::hex_char(d)) == d,
{
}

proof fn lemma_hex_byte(b: u8)
    ensures
        pad_left(hex(b as nat), '0', 2).len() == 2,
        all_hex(pad_left(hex(b as nat), '0', 2)),
        (hex_val(pad_left(hex(b as nat), '0', 2)[0]) * 16 + hex_val(
            pad_left(hex(b as nat), '0', 2)[1],
        )) as u8 == b,
{
    let n = b as nat;
    lemma_hex_char_val(n % 16);
    if n < 16 {
        assert(hex(n) == seq![crate::num::hex_char(n)]);
        lemma_hex_char_val(n);
        assert(pad_left(hex(n), '0', 2) =~= seq!['0', crate::num::hex_char(n)]);
    } else {
        assert(n / 16 < 16);
        lemma_hex_char_val(n / 16);
        assert(hex(n / 16) == seq![crate::num::hex_char(n / 16)]);
        assert(hex(n) =~= seq![crate::num::hex_char(n / 16), crate::num::hex_char(n % 16)]);
    }
}

/// Decoding what `hex_encode` produced gives back the same bytes.
pub proof fn law_hex_round_trip(b: Seq<u8>)
    ensures
        hex_decode_spec(hex_bytes(b)) == Some(b),
    decreases b.len(),
{
    if b.len() > 0 {
        law_hex_round_trip(b.drop_last());
        lemma_hex_byte(b.last());
        let prev = hex_bytes(b.drop_last());
        let pair = pad_left(hex(b.last() as nat), '0', 2);
        let s = hex_bytes(b);
        assert(s == prev + pair);
        assert(s.take(s.len() - 2) =~= prev);
        assert(s[s.len() - 2] == pair[0]);
        assert(s[s.len() - 1] == pair[1]);
        assert(all_hex(s)) by {
            assert forall|k: int| 0 <= k < s.len() implies is_hex_digit(#[trigger] s[k]) by {
                if k < prev.len() {
                    assert(s[k] == prev[k]);
                } else {
                    assert(s[k] == pair[k - prev.len()]);
                }
            }
        }
        assert(unhex(s) =~= b);
    } else {
        assert(hex_bytes(b) =~= Seq::<char>::empty());
        assert(unhex(Seq::<char>::empty()) =~= Seq::<u8>::empty());
        assert(b =~= Seq::<u8>::empty());
    }
}


/// The saved form of a live output: its current mode's name and (positive)
/// rate, and its other settings as they are.
pub open spec fn from_output_spec(o: OutputView) -> PersistedOutputView {
    PersistedOutputView {
        name: o.name,
        mode: match o.current_mode {
            Some(m) => Some(m.name),
            None => None,
        },
        rate: match o.current_mode {
            Some(m) => if m.refresh_rate > 0 {
                Some(m.refresh_rate)
            } else {
                None
            },
            None => None,
        },
        primary: o.is_primary,
        rotation: o.rotation,
        reflection: o.reflection,
        scale: o.scale,
        scale_from: o.scale_from,
        gamma: o.gamma,
        position: o.position,
        relative: o.relative_to,
        off: o.off,
        edid_hex: match o.edid {
            Some(b) => Some(hex_bytes(b)),
            None => None,
        },
    }
}

impl PersistedOutput {
    /// Snapshot a live `Output` into a `PersistedOutput`.
    pub fn from_output(out: &Output) -> (p: Self)
        ensures
            p@ == from_output_spec(out@),
    {
        PersistedOutput {
            name: out.name.clone(),
            mode: match &out.current_mode {
                Some(m) => Some(m.name.clone()),
                None => None,
            },
            rate: match &out.current_mode {
                Some(m) => if m.refresh_rate > 0 {
                    Some(m.refresh_rate)
                } else {
                    None
                },
                None => None,
            },
            primary: out.is_primary,
            rotation: out.rotation,
            reflection: out.reflection,
            scale: out.scale,
            scale_from: out.scale_from,
            gamma: out.gamma,
            position: out.position,
            relative: match &out.relative_to {
                Some((to, pos)) => Some(PersistedRelative { to: to.clone(), pos: *pos }),
                None => None,
            },
            off: out.off,
            edid_hex: match &out.edid {
                Some(b) => Some(hex_encode(b.as_slice())),
                None => None,
            },
        }
    }
}

/// Whether some mode in `t` has the name `n`.
pub open spec fn has_custom_named(t: Seq<CustomModeView>, n: Seq<char>) -> bool {
    exists|i: int| 0 <= i < t.len() && #[trigger] t[i].name == n
}

/// The custom modes with repeated names dropped (the first one stays).
pub open spec fn dedup_customs(cms: Seq<CustomModeView>) -> Seq<CustomModeView>
    decreases cms.len(),
{
    if cms.len() == 0 {
        Seq::empty()
    } else {
        let d = dedup_customs(cms.drop_last());
        if has_custom_named(d, cms.last().name) {
            d
        } else {
            d.push(cms.last())
        }
    }
}

/// Every custom mode of every output, output by output.
pub open spec fn outputs_customs(os: Seq<OutputView>) -> Seq<CustomModeView>
    decreases os.len(),
{
    if os.len() == 0 {
        Seq::empty()
    } else {
        outputs_customs(os.drop_last()) + os.last().custom_modes
    }
}

/// The layout `LayoutConfig::from_outputs` builds: version 1, one saved
/// output per output, and each custom mode name once (first definition).
pub open spec fn from_outputs_spec(os: Seq<OutputView>) -> LayoutConfigView {
    LayoutConfigView {
        version: 1,
        outputs: os.map_values(|o: OutputView| from_output_spec(o)),
        custom_modes: dedup_customs(outputs_customs(os)),
    }
}

pub(crate) fn has_custom_named_exec(t: &Vec<CustomMode>, n: &String) -> (b: bool)
    ensures
        b == has_custom_named(customs_view(t@), n@),
{
    let mut i: usize = 0;
    while i < t.len()
        invariant
            i <= t.len(),
            forall|k: int| 0 <= k < i ==> #[trigger] customs_view(t@)[k].name != n@,
        decreases t.len() - i,
    {
        assert(customs_view(t@)[i as int] == t@[i as int]@);
        if t[i].name == *n {
            assert(customs_view(t@)[i as int].name == n@);
            return true;
        }
        i += 1;
    }
    false
}

pub open spec fn outputs_view(v: Seq<Output>) -> Seq<OutputView> {
    v.map_values(|o: Output| o@)
}

impl LayoutConfig {
    /// Build a layout from output snapshots.
    pub fn from_outputs(outputs: &[Output]) -> (cfg: Self)
        ensures
            cfg@ == from_outputs_spec(outputs_view(outputs@)),
    {
        let ghost os = outputs_view(outputs@);
        let mut customs: Vec<CustomMode> = Vec::new();
        let mut i: usize = 0;
        assert(os.take(0) =~= Seq::<OutputView>::empty());
        assert(customs_view(customs@) =~= Seq::<CustomModeView>::empty());
        while i < outputs.len()
            invariant
                i <= outputs.len(),
                os == outputs_view(outputs@),
                customs_view(customs@) == dedup_customs(outputs_customs(os.take(i as int))),
            decreases outputs.len() - i,
        {
            let o = &outputs[i];
            let ghost base = outputs_customs(os.take(i as int));
            let mut j: usize = 0;
            assert(base + o@.custom_modes.take(0) =~= base);
            while j < o.custom_modes.len()
                invariant
                    j <= o.custom_modes.len(),
                    customs_view(customs@) == dedup_customs(base + o@.custom_modes.take(j as int)),
                decreases o.custom_modes.len() - j,
            {
                let cm = &o.custom_modes[j];
                proof {
                    let x = base + o@.custom_modes.take(j + 1);
                    assert(x.drop_last() =~= base + o@.custom_modes.take(j as int));
                    assert(x.last() == cm@);
                }
                if !has_custom_named_exec(&customs, &cm.name) {
                    let ghost before = customs_view(customs@);
                    customs.push(cm.clone());
                    assert(customs_view(customs@) =~= before.push(cm@));
                }
                j += 1;
            }
            proof {
                assert(os.take(i + 1).drop_last() =~= os.take(i as int));
                assert(os.take(i + 1).last() == o@);
                assert(o@.custom_modes.take(o@.custom_modes.len() as int) =~= o@.custom_modes);
            }
            i += 1;
        }
        assert(os.take(outputs.len() as int) =~= os);
        let mut persisted: Vec<PersistedOutput> = Vec::new();
        let mut k: usize = 0;
        while k < outputs.len()
            invariant
                k <= outputs.len(),
                os == outputs_view(outputs@),
                persisted_view(persisted@) == os.take(k as int).map_values(
                    |o: OutputView| from_output_spec(o),
                ),
            decreases outputs.len() - k,
        {
            let p = PersistedOutput::from_output(&outputs[k]);
            assert(os[k as int] == outputs@[k as int]@);
            let ghost before = persisted_view(persisted@);
            persisted.push(p);
            assert(persisted_view(persisted@) =~= before.push(p@));
            assert(os.take(k + 1).map_values(|o: OutputView| from_output_spec(o)) =~= os.take(
                k as int,
            ).map_values(|o: OutputView| from_output_spec(o)).push(from_output_spec(os[k as int])));
            k += 1;
        }
        assert(os.take(outputs.len() as int) =~= os);
        LayoutConfig { version: 1, outputs: persisted, custom_modes: customs }
    }
}

/// The staged change that re-applies a saved output: off when saved off,
/// its mode (with the saved rate, or 0) when named, primary when primary,
/// rotation and reflection always (so a saved layout is applied as saved,
/// `normal` included), and scale, scale-from, gamma, position and relative
/// placement when saved.
pub open spec fn to_pending_spec(p: PersistedOutputView) -> PendingChangeView {
    PendingChangeView {
        off: if p.off {
            Some(true)
        } else {
            None
        },
        mode: match p.mode {
            Some(m) => Some(
                new_mode(
                    m,
                    match p.rate {
                        Some(r) => r,
                        None => 0,
                    },
                    true,
                    false,
                ),
            ),
            None => None,
        },
        primary: if p.primary {
            Some(true)
        } else {
            None
        },
        rotation: Some(p.rotation),
        reflection: Some(p.reflection),
        scale: p.scale,
        scale_from: p.scale_from,
        gamma: p.gamma,
        position: p.position,
        relative_to: match p.relative {
            Some(r) => Some(Some(r)),
            None => None,
        },
        ..empty_change()
    }
}

/// Convert a loaded `PersistedOutput` back into a `PendingChange` so that
/// the saved layout can be applied.
pub fn to_pending(p: &PersistedOutput) -> (c: PendingChange)
    ensures
        c@ == to_pending_spec(p@),
{
    let mut c = PendingChange::default();
    if p.off {
        c.off = Some(true);
    }
    if let Some(mode) = &p.mode {
        let rate = match p.rate {
            Some(r) => r,
            None => 0,
        };
        c.mode = Some(Mode::new(mode.clone(), rate, true, false));
    }
    if p.primary {
        c.primary = Some(true);
    }
    c.rotation = Some(p.rotation);
    c.reflection = Some(p.reflection);
    if let Some(s) = p.scale {
        c.scale = Some(s);
    }
    if let Some(s) = p.scale_from {
        c.scale_from = Some(s);
    }
    if let Some(g) = p.gamma {
        c.gamma = Some(g);
    }
    if let Some(pos) = p.position {
        c.position = Some(pos);
    }
    if let Some(rel) = &p.relative {
        c.relative_to = Some(Some((rel.to.clone(), rel.pos)));
    }
    c
}

/// Return the EDID bytes for a saved output, if any.
pub fn edid_of(p: &PersistedOutput) -> (r: Option<Vec<u8>>)
    ensures
        match p@.edid_hex {
            Some(h) => match hex_decode_spec(h) {
                Some(b) => r matches Some(v) && v@ == b,
                None => r is None,
            },
            None => r is None,
        },
{
    match &p.edid_hex {
        Some(s) => hex_decode(s.as_str()),
        None => None,
    }
}


/// `comp` appended to the path `base` as `PathBuf::push` does on Unix: an
/// absolute `comp` replaces `base`; otherwise a `/` goes between them
/// unless `base` is empty or already ends with one.
pub open spec fn join_spec(base: Seq<char>, comp: Seq<char>) -> Seq<char> {
    if comp.len() > 0 && comp[0] == '/' {
        comp
    } else if base.len() == 0 {
        comp
    } else if base.last() == '/' {
        base + comp
    } else {
        base + seq!['/'] + comp
    }
}

/// Append a path component to a base path.
pub fn join_path(base: &str, comp: &str) -> (p: String)
    ensures
        p@ == join_spec(base@, comp@),
{
    let c = chars_of(comp);
    let b = chars_of(base);
    if c.len() > 0 && c[0] == '/' {
        return String::from_str(comp);
    }
    if b.len() == 0 {
        return String::from_str(comp);
    }
    let mut p = String::from_str(base);
    if b[b.len() - 1] != '/' {
        push_char(&mut p, '/');
    }
    push_str(&mut p, comp);
    p
}

/// The configuration directory: `vrandr` under `$XDG_CONFIG_HOME` when that
/// is set, else under `.config` in `$HOME`, else under `.config`.
pub open spec fn config_dir_spec(xdg: Option<Seq<char>>, home: Option<Seq<char>>) -> Seq<char> {
    let base = match xdg {
        Some(x) => x,
        None => match home {
            Some(h) => join_spec(h, ".config"@),
            None => ".config"@,
        },
    };
    join_spec(base, "vrandr"@)
}

/// The configuration directory from the values of `XDG_CONFIG_HOME` and
/// `HOME` (see `config_dir_spec`).
pub fn config_dir(xdg: Option<&str>, home: Option<&str>) -> (p: String)
    ensures
        p@ == config_dir_spec(
            match xdg {
                Some(x) => Some(x@),
                None => None,
            },
            match home {
                Some(h) => Some(h@),
                None => None,
            },
        ),
{
    let base = match xdg {
        Some(x) => String::from_str(x),
        None => match home {
            Some(h) => join_path(h, ".config"),
            None => String::from_str(".config"),
        },
    };
    join_path(base.as_str(), "vrandr")
}

pub open spec fn profiles_dir_spec(config_dir: Seq<char>) -> Seq<char> {
    join_spec(config_dir, "profiles"@)
}

pub open spec fn profile_path_spec(config_dir: Seq<char>, name: Seq<char>) -> Seq<char> {
    join_spec(profiles_dir_spec(config_dir), name + ".toml"@)
}

/// The directory where named profiles are stored, under the configuration
/// directory.
pub fn profiles_dir(config_dir: &str) -> (p: String)
    ensures
        p@ == profiles_dir_spec(config_dir@),
{
    join_path(config_dir, "profiles")
}

/// The on-disk path of a named profile.
pub fn profile_path(config_dir: &str, name: &str) -> (p: String)
    ensures
        p@ == profile_path_spec(config_dir@, name@),
{
    let dir = profiles_dir(config_dir);
    let mut file = String::from_str(name);
    push_str(&mut file, ".toml");
    join_path(dir.as_str(), file.as_str())
}

/// The path of the legacy single-layout file.
pub fn config_path(config_dir: &str) -> (p: String)
    ensures
        p@ == join_spec(config_dir@, "layout.toml"@),
{
    join_path(config_dir, "layout.toml")
}

/// Why a profile name was refused.
#[derive(Debug, Clone, Copy, PartialEq, Eq, Structural)]
pub enum ProfileNameError {
    Empty,
    /// `.` or `..`.
    Reserved,
    /// The first character outside letters, digits, `_`, `-` and `.`.
    BadChar(char),
}

/// Characters allowed in a profile name.
pub open spec fn name_char_ok(c: char) -> bool {
    is_alnum(c) || c == '_' || c == '-' || c == '.'
}

/// Index of the first disallowed character at or after `i`, or `s.len()`.
pub open spec fn first_bad_from(s: Seq<char>, i: int) -> int
    decreases s.len() - i,
{
    if 0 <= i < s.len() && name_char_ok(s[i]) {
        first_bad_from(s, i + 1)
    } else {
        i
    }
}

/// What `validate_profile_name` returns: empty names, `.` and `..` are
/// refused, and so is a name with a character other than ASCII letters,
/// digits, `_`, `-` and `.` (the first such character is reported).
pub open spec fn validate_spec(name: Seq<char>) -> Result<(), ProfileNameError> {
    if name.len() == 0 {
        Err(ProfileNameError::Empty)
    } else if name == "."@ || name == ".."@ {
        Err(ProfileNameError::Reserved)
    } else {
        let k = first_bad_from(name, 0);
        if 0 <= k < name.len() {
            Err(ProfileNameError::BadChar(name[k]))
        } else {
            Ok(())
        }
    }
}

pub proof fn lemma_first_bad_from(s: Seq<char>, i: int)
    requires
        0 <= i <= s.len(),
    ensures
        i <= first_bad_from(s, i) <= s.len(),
        first_bad_from(s, i) < s.len() ==> !name_char_ok(s[first_bad_from(s, i)]),
        forall|k: int| i <= k < first_bad_from(s, i) ==> name_char_ok(#[trigger] s[k]),
    decreases s.len() - i,
{
    if i < s.len() && name_char_ok(s[i]) {
        lemma_first_bad_from(s, i + 1);
    }
}

/// Validate a profile name, so that a stray path separator or shell
/// metacharacter cannot escape the profile directory.
pub fn validate_profile_name(name: &str) -> (r: Result<(), ProfileNameError>)
    ensures
        r == validate_spec(name@),
{
    let c = chars_of(name);
    if c.len() == 0 {
        return Err(ProfileNameError::Empty);
    }
    if crate::text::str_is(c.as_slice(), ".") || crate::text::str_is(c.as_slice(), "..") {
        return Err(ProfileNameError::Reserved);
    }
    let mut i: usize = 0;
    while i < c.len()
        invariant
            i <= c.len(),
            c@ == name@,
            c@.len() > 0,
            c@ != "."@,
            c@ != ".."@,
            first_bad_from(c@, 0) == first_bad_from(c@, i as int),
        decreases c.len() - i,
    {
        let ch = c[i];
        let ok = ('0' <= ch && ch <= '9') || ('a' <= ch && ch <= 'z') || ('A' <= ch && ch <= 'Z')
            || ch == '_' || ch == '-' || ch == '.';
        if !ok {
            assert(!name_char_ok(c@[i as int]));
            assert(first_bad_from(c@, i as int) == i);
            return Err(ProfileNameError::BadChar(ch));
        }
        i += 1;
    }
    Ok(())
}

/// A character as `{:?}` shows it for the ASCII range: quoted, with
/// `\0`, `\t`, `\n`, `\r`, `\'`, `\\` escaped and other control characters
/// written `\u{..}` in hex. Other characters are shown as they are.
pub open spec fn char_debug(c: char) -> Seq<char> {
    let u = c as u32;
    seq!['\''] + if c == '\0' {
        seq!['\\', '0']
    } else if c == '\t' {
        seq!['\\', 't']
    } else if c == '\n' {
        seq!['\\', 'n']
    } else if c == '\r' {
        seq!['\\', 'r']
    } else if c == '\'' {
        seq!['\\', '\'']
    } else if c == '\\' {
        seq!['\\', '\\']
    } else if u < 0x20 || u == 0x7f {
        seq!['\\', 'u', '{'] + hex(u as nat) + seq!['}']
    } else {
        seq![c]
    } + seq!['\'']
}

pub open spec fn name_error_message(e: ProfileNameError) -> Seq<char> {
    match e {
        ProfileNameError::Empty => "profile name is empty"@,
        ProfileNameError::Reserved => "profile name not allowed"@,
        ProfileNameError::BadChar(c) => "profile name has disallowed character: "@ + char_debug(c),
    }
}

impl ProfileNameError {
    /// The error as a sentence.
    pub fn message(&self) -> (s: String)
        ensures
            s@ == name_error_message(*self),
    {
        match self {
            ProfileNameError::Empty => String::from_str("profile name is empty"),
            ProfileNameError::Reserved => String::from_str("profile name not allowed"),
            ProfileNameError::BadChar(c) => {
                let c = *c;
                let mut s = String::from_str("profile name has disallowed character: ");
                let ghost start = s@;
                push_char(&mut s, '\'');
                let u = c as u32;
                if c == '\0' {
                    push_char(&mut s, '\\');
                    push_char(&mut s, '0');
                } else if c == '\t' {
                    push_char(&mut s, '\\');
                    push_char(&mut s, 't');
                } else if c == '\n' {
                    push_char(&mut s, '\\');
                    push_char(&mut s, 'n');
                } else if c == '\r' {
                    push_char(&mut s, '\\');
                    push_char(&mut s, 'r');
                } else if c == '\'' {
                    push_char(&mut s, '\\');
                    push_char(&mut s, '\'');
                } else if c == '\\' {
                    push_char(&mut s, '\\');
                    push_char(&mut s, '\\');
                } else if u < 0x20 || u == 0x7f {
                    push_char(&mut s, '\\');
                    push_char(&mut s, 'u');
                    push_char(&mut s, '{');
                    crate::num::push_hex(&mut s, u as u64);
                    push_char(&mut s, '}');
                } else {
                    push_char(&mut s, c);
                }
                push_char(&mut s, '\'');
                assert(s@ =~= start + char_debug(c));
                s
            },
        }
    }
}

/// A name that passes validation keeps its profile file directly inside
/// the profiles directory: the file name holds no `/`, and the path is the
/// profiles directory, a `/`, the name and `.toml`.
pub proof fn law_valid_name_stays_in_profiles_dir(config_dir: Seq<char>, name: Seq<char>)
    requires
        validate_spec(name) is Ok,
    ensures
        !(name + ".toml"@).contains('/'),
        profiles_dir_spec(config_dir).len() > 0 && profiles_dir_spec(config_dir).last() != '/'
            ==> profile_path_spec(config_dir, name) == profiles_dir_spec(config_dir) + seq!['/']
            + name + ".toml"@,
        name != "."@ && name != ".."@,
{
    lemma_first_bad_from(name, 0);
    reveal_strlit(".toml");
    let f = name + ".toml"@;
    if f.contains('/') {
        let k = choose|k: int| 0 <= k < f.len() && f[k] == '/';
        if k < name.len() {
            assert(name_char_ok(name[k]));
        } else {
            assert(f[k] == ".toml"@[k - name.len()]);
        }
    }
    assert(f[0] != '/') by {
        assert(f[0] == name[0]);
        assert(name_char_ok(name[0]));
    }
}

/// The text of a profile file: a comment naming the profile, when named,
/// then the layout body.
pub open spec fn with_profile_header(body: Seq<char>, name: Option<Seq<char>>) -> Seq<char> {
    match name {
        Some(n) => "# vrandr profile: "@ + n + seq!['\n']
            + "# Edit by hand if needed; vrandr will not preserve unrelated fields.\n"@ + body,
        None => body,
    }
}

/// Prefix a serialised layout with a header comment that names the profile
/// (the file stays valid TOML).
pub fn serialize_with_profile_name(body: &str, profile_name: Option<&str>) -> (s: String)
    ensures
        s@ == with_profile_header(
            body@,
            match profile_name {
                Some(n) => Some(n@),
                None => None,
            },
        ),
{
    match profile_name {
        Some(n) => {
            let mut s = String::from_str("# vrandr profile: ");
            push_str(&mut s, n);
            push_char(&mut s, '\n');
            push_str(&mut s, "# Edit by hand if needed; vrandr will not preserve unrelated fields.\n");
            push_str(&mut s, body);
            s
        },
        None => String::from_str(body),
    }
}


/// Index of the last `.` in `s`, or -1.
pub open spec fn last_dot(s: Seq<char>) -> int
    decreases s.len(),
{
    if s.len() == 0 {
        -1
    } else if s.last() == '.' {
        s.len() - 1
    } else {
        last_dot(s.drop_last())
    }
}

/// The file stem of a directory entry whose extension is `toml` (as
/// `Path::extension` and `Path::file_stem` read it: the part after the last
/// `.`, when something precedes that `.`).
pub open spec fn toml_stem(name: Seq<char>) -> Option<Seq<char>> {
    let k = last_dot(name);
    if k > 0 && name.skip(k + 1) == "toml"@ {
        Some(name.take(k))
    } else {
        None
    }
}

/// The stems of the `.toml` entries, in entry order.
pub open spec fn toml_stems(names: Seq<Seq<char>>) -> Seq<Seq<char>>
    decreases names.len(),
{
    if names.len() == 0 {
        Seq::empty()
    } else {
        toml_stems(names.drop_last()) + match toml_stem(names.last()) {
            Some(s) => seq![s],
            None => Seq::empty(),
        }
    }
}

/// Ordered as `String`'s `Ord` orders (lexicographically by character).
pub open spec fn sorted_names(s: Seq<Seq<char>>) -> bool {
    forall|i: int, j: int| 0 <= i < j < s.len() ==> !lex_lt(#[trigger] s[j], #[trigger] s[i])
}

pub proof fn lemma_lex_lt_irreflexive(a: Seq<char>)
    ensures
        !lex_lt(a, a),
    decreases a.len(),
{
    if a.len() > 0 {
        lemma_lex_lt_irreflexive(a.drop_first());
    }
}

pub proof fn lemma_lex_lt_transitive(a: Seq<char>, b: Seq<char>, c: Seq<char>)
    requires
        lex_lt(a, b),
        lex_lt(b, c),
    ensures
        lex_lt(a, c),
    decreases a.len(),
{
    if a.len() > 0 && b.len() > 0 && c.len() > 0 && a[0] == b[0] && b[0] == c[0] {
        lemma_lex_lt_transitive(a.drop_first(), b.drop_first(), c.drop_first());
    }
}

fn last_dot_exec(s: &[char]) -> (k: Option<usize>)
    ensures
        match k {
            Some(i) => last_dot(s@) == i && i < s@.len(),
            None => last_dot(s@) == -1,
        },
{
    let mut e = s.len();
    assert(s@.take(e as int) =~= s@);
    while e > 0
        invariant
            e <= s.len(),
            last_dot(s@) == last_dot(s@.take(e as int)),
        decreases e,
    {
        if s[e - 1] == '.' {
            return Some(e - 1);
        }
        assert(s@.take(e as int).drop_last() =~= s@.take(e - 1));
        e -= 1;
    }
    None
}

fn toml_stem_exec(name: &String) -> (r: Option<String>)
    ensures
        match toml_stem(name@) {
            Some(st) => r matches Some(v) && v@ == st,
            None => r is None,
        },
{
    let c = chars_of(name.as_str());
    match last_dot_exec(c.as_slice()) {
        Some(k) => {
            if k == 0 {
                return None;
            }
            assert(k < c.len());
            let ext = slice_range(c.as_slice(), k + 1, c.len());
            assert(ext@ =~= c@.skip(k + 1));
            if crate::text::str_is(ext.as_slice(), "toml") {
                let stem = slice_take(c.as_slice(), k);
                Some(crate::text::string_of(stem.as_slice()))
            } else {
                None
            }
        },
        None => None,
    }
}

/// Insert `x` into the sorted list `r`, after every name not above it.
fn insert_sorted(r: &mut Vec<String>, x: String)
    requires
        sorted_names(strs_view(old(r)@)),
    ensures
        sorted_names(strs_view(final(r)@)),
        strs_view(final(r)@).to_multiset() == strs_view(old(r)@).to_multiset().insert(x@),
{
    let ghost t = strs_view(r@);
    let xc = chars_of(x.as_str());
    let mut p: usize = 0;
    while p < r.len()
        invariant
            p <= r.len(),
            t == strs_view(r@),
            xc@ == x@,
            forall|k: int| 0 <= k < p ==> !lex_lt(x@, #[trigger] t[k]),
        ensures
            p <= r.len(),
            t == strs_view(r@),
            forall|k: int| 0 <= k < p ==> !lex_lt(x@, #[trigger] t[k]),
            p < r.len() ==> lex_lt(x@, t[p as int]),
        decreases r.len() - p,
    {
        let here = chars_of(r[p].as_str());
        assert(here@ == t[p as int]);
        if lex_less(xc.as_slice(), here.as_slice()) {
            break;
        }
        p += 1;
    }
    let ghost xv = x@;
    r.insert(p, x);
    proof {
        let n = strs_view(r@);
        assert(n =~= t.insert(p as int, xv));
        vstd::seq_lib::to_multiset_insert(t, p as int, xv);
        assert forall|i: int, j: int| 0 <= i < j < n.len() implies !lex_lt(
            #[trigger] n[j],
            #[trigger] n[i],
        ) by {
            if j < p {
            } else if i > p {
                assert(n[i] == t[i - 1] && n[j] == t[j - 1]);
            } else if i < p && j == p {
                assert(n[j] == xv);
            } else if i < p && j > p {
                assert(n[i] == t[i] && n[j] == t[j - 1]);
            } else {
                assert(i == p && j > p);
                assert(n[i] == xv && n[j] == t[j - 1]);
                if lex_lt(t[j - 1], xv) {
                    lemma_lex_lt_transitive(t[j - 1], xv, t[p as int]);
                    if j - 1 == p {
                        lemma_lex_lt_irreflexive(t[p as int]);
                    }
                }
            }
        }
    }
}

/// The names of the saved profiles among the entries of the profiles
/// directory: the stems of the `.toml` entries, sorted.
pub fn profile_names(entries: &Vec<String>) -> (names: Vec<String>)
    ensures
        sorted_names(strs_view(names@)),
        strs_view(names@).to_multiset() == toml_stems(strs_view(entries@)).to_multiset(),
{
    let ghost es = strs_view(entries@);
    let mut names: Vec<String> = Vec::new();
    let mut i: usize = 0;
    assert(es.take(0) =~= Seq::<Seq<char>>::empty());
    assert(strs_view(names@) =~= Seq::<Seq<char>>::empty());
    while i < entries.len()
        invariant
            i <= entries.len(),
            es == strs_view(entries@),
            sorted_names(strs_view(names@)),
            strs_view(names@).to_multiset() == toml_stems(es.take(i as int)).to_multiset(),
        decreases entries.len() - i,
    {
        proof {
            assert(es.take(i + 1).drop_last() =~= es.take(i as int));
            assert(es.take(i + 1).last() == entries@[i as int]@);
        }
        match toml_stem_exec(&entries[i]) {
            Some(st) => {
                let ghost sv = st@;
                insert_sorted(&mut names, st);
                proof {
                    let prev = toml_stems(es.take(i as int));
                    vstd::seq_lib::to_multiset_build(prev, sv);
                    assert(toml_stems(es.take(i + 1)) =~= prev.push(sv));
                }
            },
            None => {
                assert(toml_stems(es.take(i + 1)) =~= toml_stems(es.take(i as int)));
            },
        }
        i += 1;
    }
    assert(es.take(entries.len() as int) =~= es);
    names
}

} // verus!
