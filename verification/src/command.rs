//! Build xrandr argument lists from staged `PendingChange`s, and merge
//! staged changes into output snapshots.

use vstd::prelude::*;
use crate::model::{
    Mode, ModeView, Output, OutputView, PendingChange, PendingChangeView, RelativePosition, reflection_name,
    relative_name, rotation_name, opt_mode_view,
};
use crate::num::{dec, dec_int, micro_str, milli_3dp, push_dec, push_dec_int, push_micro, push_milli_3dp};
use crate::pending::{PendingMap, PendingSeq};
use crate::text::{chars_of, lex_less, lex_lt, push_arg, push_char, push_lit, push_str, strs_view};
use crate::model::{CustomMode, CustomModeView, customs_view, visible_change, clone_opt_mode, clone_rel, rel_view};

verus! {

broadcast use vstd::string::group_string_axioms;

/// `--mode <name>` and, for a positive rate, `--rate <rate with 3 decimals>`.
pub open spec fn mode_args(m: Option<ModeView>) -> Seq<Seq<char>> {
    match m {
        Some(m) => seq!["--mode"@, m.name] + if m.refresh_rate > 0 {
            seq!["--rate"@, milli_3dp(m.refresh_rate as int)]
        } else {
            Seq::empty()
        },
        None => Seq::empty(),
    }
}

pub open spec fn pair_args(flag: Seq<char>, p: Option<(i64, i64)>) -> Seq<Seq<char>> {
    match p {
        Some((x, y)) => seq![flag, micro_str(x as int) + seq!['x'] + micro_str(y as int)],
        None => Seq::empty(),
    }
}

pub open spec fn gamma_args(g: Option<(i64, i64, i64)>) -> Seq<Seq<char>> {
    match g {
        Some((r, gg, b)) => seq![
            "--gamma"@,
            micro_str(r as int) + seq![':'] + micro_str(gg as int) + seq![':'] + micro_str(b as int),
        ],
        None => Seq::empty(),
    }
}

pub open spec fn brightness_args(b: Option<i64>) -> Seq<Seq<char>> {
    match b {
        Some(v) => seq!["--brightness"@, micro_str(v as int)],
        None => Seq::empty(),
    }
}

pub open spec fn pos_args(p: Option<(i32, i32)>) -> Seq<Seq<char>> {
    match p {
        Some((x, y)) => seq!["--pos"@, dec_int(x as int) + seq!['x'] + dec_int(y as int)],
        None => Seq::empty(),
    }
}

pub open spec fn panning_args(p: Option<(u32, u32)>) -> Seq<Seq<char>> {
    match p {
        Some((w, h)) => seq!["--panning"@, dec(w as nat) + seq!['x'] + dec(h as nat)],
        None => Seq::empty(),
    }
}

pub open spec fn relative_args(r: Option<Option<(Seq<char>, RelativePosition)>>) -> Seq<Seq<char>> {
    match r {
        Some(Some((to, pos))) => seq!["--"@ + relative_name(pos), to],
        _ => Seq::empty(),
    }
}

/// The xrandr arguments for one staged change (the tail of
/// `xrandr --output <name> ...`). `off == Some(true)` gives `--off` alone;
/// otherwise `--auto` (for `off == Some(false)`), mode and rate, primary,
/// rotation, reflection (always emitted when staged, `normal` included),
/// scale, scale-from, gamma, brightness, position, panning and relative
/// placement follow in that order.
pub open spec fn change_args(c: PendingChangeView) -> Seq<Seq<char>> {
    if c.off == Some(true) {
        seq!["--off"@]
    } else {
        (if c.off == Some(false) {
            seq!["--auto"@]
        } else {
            Seq::empty()
        }) + mode_args(c.mode) + orient_args(c) + pair_args("--scale"@, c.scale) + pair_args("--scale-from"@, c.scale_from)
            + gamma_args(c.gamma) + brightness_args(c.brightness) + pos_args(c.position) + panning_args(c.panning)
            + relative_args(c.relative_to)
    }
}

fn pair_string(x: i64, y: i64) -> (s: String)
    ensures
        s@ == micro_str(x as int) + seq!['x'] + micro_str(y as int),
{
    let mut s = String::new();
    push_micro(&mut s, x);
    push_char(&mut s, 'x');
    push_micro(&mut s, y);
    assert(s@ =~= micro_str(x as int) + seq!['x'] + micro_str(y as int));
    s
}

fn push_pair(args: &mut Vec<String>, flag: &str, p: Option<(i64, i64)>)
    ensures
        strs_view(final(args)@) == strs_view(old(args)@) + pair_args(flag@, p),
{
    match p {
        Some((x, y)) => {
            push_lit(args, flag);
            push_arg(args, pair_string(x, y));
        },
        None => {},
    }
    assert(strs_view(args@) =~= strs_view(old(args)@) + pair_args(flag@, p));
}

pub open spec fn orient_args(c: PendingChangeView) -> Seq<Seq<char>> {
    (if c.primary == Some(true) {
        seq!["--primary"@]
    } else {
        Seq::empty()
    }) + (match c.rotation {
        Some(r) => seq!["--rotate"@, rotation_name(r)],
        None => Seq::empty(),
    }) + (match c.reflection {
        Some(r) => seq!["--reflect"@, reflection_name(r)],
        None => Seq::empty(),
    })
}

fn push_mode_args(args: &mut Vec<String>, mode: &Option<Mode>)
    ensures
        strs_view(final(args)@) == strs_view(old(args)@) + mode_args(opt_mode_view(*mode)),
{
    if let Some(mode) = mode {
        push_lit(args, "--mode");
        push_arg(args, mode.name.clone());
        if mode.refresh_rate > 0 {
            push_lit(args, "--rate");
            let mut r = String::new();
            push_milli_3dp(&mut r, mode.refresh_rate);
            assert(r@ =~= milli_3dp(mode.refresh_rate as int));
            push_arg(args, r);
        }
    }
    assert(strs_view(args@) =~= strs_view(old(args)@) + mode_args(opt_mode_view(*mode)));
}

fn push_orient_args(args: &mut Vec<String>, change: &PendingChange)
    ensures
        strs_view(final(args)@) == strs_view(old(args)@) + orient_args(change@),
{
    if change.primary == Some(true) {
        push_lit(args, "--primary");
    }
    if let Some(rot) = change.rotation {
        push_lit(args, "--rotate");
        push_lit(args, rot.as_str());
    }
    if let Some(refl) = change.reflection {
        push_lit(args, "--reflect");
        push_lit(args, refl.as_str());
    }
    assert(strs_view(args@) =~= strs_view(old(args)@) + orient_args(change@));
}

fn push_gamma_args(args: &mut Vec<String>, gamma: Option<(i64, i64, i64)>)
    ensures
        strs_view(final(args)@) == strs_view(old(args)@) + gamma_args(gamma),
{
    if let Some((r, g, b)) = gamma {
        push_lit(args, "--gamma");
        let mut s = String::new();
        push_micro(&mut s, r);
        push_char(&mut s, ':');
        push_micro(&mut s, g);
        push_char(&mut s, ':');
        push_micro(&mut s, b);
        assert(s@ =~= micro_str(r as int) + seq![':'] + micro_str(g as int) + seq![':'] + micro_str(
            b as int,
        ));
        push_arg(args, s);
    }
    assert(strs_view(args@) =~= strs_view(old(args)@) + gamma_args(gamma));
}

fn push_place_args(args: &mut Vec<String>, change: &PendingChange)
    ensures
        strs_view(final(args)@) == strs_view(old(args)@) + pos_args(change.position)
            + panning_args(change.panning) + relative_args(change@.relative_to),
{
    if let Some((x, y)) = change.position {
        push_lit(args, "--pos");
        let mut s = String::new();
        push_dec_int(&mut s, x as i64);
        push_char(&mut s, 'x');
        push_dec_int(&mut s, y as i64);
        assert(s@ =~= dec_int(x as int) + seq!['x'] + dec_int(y as int));
        push_arg(args, s);
    }
    assert(strs_view(args@) =~= strs_view(old(args)@) + pos_args(change.position));
    let ghost a1 = strs_view(args@);
    if let Some((w, h)) = change.panning {
        push_lit(args, "--panning");
        let mut s = String::new();
        push_dec(&mut s, w as u64);
        push_char(&mut s, 'x');
        push_dec(&mut s, h as u64);
        assert(s@ =~= dec(w as nat) + seq!['x'] + dec(h as nat));
        push_arg(args, s);
    }
    assert(strs_view(args@) =~= a1 + panning_args(change.panning));
    let ghost a2 = strs_view(args@);
    if let Some(rel) = &change.relative_to {
        if let Some((to, pos)) = rel {
            let mut s = String::from_str("--");
            push_str(&mut s, pos.as_str());
            push_arg(args, s);
            push_arg(args, to.clone());
        }
    }
    assert(strs_view(args@) =~= a2 + relative_args(change@.relative_to));
}

/// Format a single `PendingChange` as a flat list of `xrandr` arguments.
pub fn change_to_args(change: &PendingChange) -> (args: Vec<String>)
    ensures
        strs_view(args@) == change_args(change@),
{
    let mut args: Vec<String> = Vec::new();
    let ghost c = change@;
    if let Some(off) = change.off {
        if off {
            push_lit(&mut args, "--off");
            assert(strs_view(args@) =~= change_args(c));
            return args;
        }
        push_lit(&mut args, "--auto");
    }
    let ghost a0 = strs_view(args@);
    push_mode_args(&mut args, &change.mode);
    push_orient_args(&mut args, change);
    push_pair(&mut args, "--scale", change.scale);
    push_pair(&mut args, "--scale-from", change.scale_from);
    push_gamma_args(&mut args, change.gamma);
    if let Some(v) = change.brightness {
        push_lit(&mut args, "--brightness");
        let mut t = String::new();
        push_micro(&mut t, v);
        push_arg(&mut args, t);
    }
    push_place_args(&mut args, change);
    assert(a0 =~= (if c.off == Some(false) {
        seq!["--auto"@]
    } else {
        Seq::<Seq<char>>::empty()
    }));
    assert(strs_view(args@) =~= change_args(c));
    args
}


/// Index of the first entry whose name is not below `n`.
pub open spec fn table_pos_from(t: Seq<CustomModeView>, n: Seq<char>, i: int) -> int
    decreases t.len() - i,
{
    if 0 <= i < t.len() && lex_lt(t[i].name, n) {
        table_pos_from(t, n, i + 1)
    } else {
        i
    }
}

/// `t` (ordered by name) with `cm` entered as a `BTreeMap` keyed by name
/// enters it: an entry of the same name is replaced in place, otherwise
/// `cm` is inserted where the name order puts it.
pub open spec fn table_insert(t: Seq<CustomModeView>, cm: CustomModeView) -> Seq<CustomModeView> {
    let p = table_pos_from(t, cm.name, 0);
    if p < t.len() && t[p].name == cm.name {
        t.update(p, cm)
    } else {
        t.insert(p, cm)
    }
}

/// The custom modes `cms` entered one after another into a table ordered
/// by name (the last definition of a name wins).
pub open spec fn custom_table(cms: Seq<CustomModeView>) -> Seq<CustomModeView>
    decreases cms.len(),
{
    if cms.len() == 0 {
        Seq::empty()
    } else {
        table_insert(custom_table(cms.drop_last()), cms.last())
    }
}

/// Every custom mode staged in `s`, entry by entry.
pub open spec fn all_customs(s: PendingSeq) -> Seq<CustomModeView>
    decreases s.len(),
{
    if s.len() == 0 {
        Seq::empty()
    } else {
        all_customs(s.drop_last()) + s.last().1.custom_modes
    }
}

/// `--newmode <name> <modeline>` for each table entry, in order.
pub open spec fn newmode_args(t: Seq<CustomModeView>) -> Seq<Seq<char>>
    decreases t.len(),
{
    if t.len() == 0 {
        Seq::empty()
    } else {
        newmode_args(t.drop_last()) + seq!["--newmode"@, t.last().name, t.last().modeline]
    }
}

/// `--output <name>` and the change's arguments, for an entry with a
/// visible change or with custom modes; nothing otherwise.
pub open spec fn output_block(e: (Seq<char>, PendingChangeView)) -> Seq<Seq<char>> {
    if visible_change(e.1) || e.1.custom_modes.len() > 0 {
        seq!["--output"@, e.0] + change_args(e.1)
    } else {
        Seq::empty()
    }
}

pub open spec fn output_args(s: PendingSeq) -> Seq<Seq<char>>
    decreases s.len(),
{
    if s.len() == 0 {
        Seq::empty()
    } else {
        output_args(s.drop_last()) + output_block(s.last())
    }
}

/// The full xrandr argument list: the custom mode definitions first (so
/// that modes exist before any `--mode` refers to them), then one
/// `--output` block per staged output, in the map's order.
pub open spec fn command_args(s: PendingSeq) -> Seq<Seq<char>> {
    newmode_args(custom_table(all_customs(s))) + output_args(s)
}

fn table_insert_exec(t: &mut Vec<CustomMode>, cm: &CustomMode)
    ensures
        customs_view(final(t)@) == table_insert(customs_view(old(t)@), cm@),
{
    let ghost tv = customs_view(t@);
    let name = chars_of(cm.name.as_str());
    let mut p: usize = 0;
    while p < t.len()
        invariant
            p <= t.len(),
            tv == customs_view(t@),
            name@ == cm@.name,
            table_pos_from(tv, cm@.name, 0) == table_pos_from(tv, cm@.name, p as int),
        ensures
            p <= t.len(),
            tv == customs_view(t@),
            table_pos_from(tv, cm@.name, 0) == p,
        decreases t.len() - p,
    {
        let here = chars_of(t[p].name.as_str());
        assert(here@ == tv[p as int].name);
        if !lex_less(here.as_slice(), name.as_slice()) {
            break;
        }
        p += 1;
    }
    if p < t.len() && t[p].name == cm.name {
        t.set(p, cm.clone());
        assert(customs_view(t@) =~= tv.update(p as int, cm@));
    } else {
        t.insert(p, cm.clone());
        assert(customs_view(t@) =~= tv.insert(p as int, cm@));
    }
}

pub proof fn lemma_all_customs_step(s: PendingSeq, i: int)
    requires
        0 <= i < s.len(),
    ensures
        all_customs(s.take(i + 1)) == all_customs(s.take(i)) + s[i].1.custom_modes,
{
    assert(s.take(i + 1).drop_last() =~= s.take(i));
}

/// Build the full xrandr argv for every output with staged changes.
pub fn build_command(pending: &PendingMap) -> (args: Vec<String>)
    ensures
        strs_view(args@) == command_args(pending@),
{
    let ghost s = pending@;
    let mut table: Vec<CustomMode> = Vec::new();
    let n = pending.len();
    let mut i: usize = 0;
    assert(s.take(0) =~= Seq::<(Seq<char>, PendingChangeView)>::empty());
    assert(customs_view(table@) =~= custom_table(Seq::empty()));
    while i < n
        invariant
            n == s.len(),
            s == pending@,
            i <= n,
            customs_view(table@) == custom_table(all_customs(s.take(i as int))),
        decreases n - i,
    {
        let (_, change) = pending.entry_at(i);
        let ghost base = all_customs(s.take(i as int));
        let mut j: usize = 0;
        assert(base + change@.custom_modes.take(0) =~= base);
        while j < change.custom_modes.len()
            invariant
                j <= change.custom_modes.len(),
                customs_view(table@) == custom_table(base + change@.custom_modes.take(j as int)),
            decreases change.custom_modes.len() - j,
        {
            table_insert_exec(&mut table, &change.custom_modes[j]);
            proof {
                let x = base + change@.custom_modes.take(j + 1);
                assert(x.drop_last() =~= base + change@.custom_modes.take(j as int));
                assert(x.last() == change@.custom_modes[j as int]);
            }
            j += 1;
        }
        proof {
            lemma_all_customs_step(s, i as int);
            assert(change@.custom_modes.take(change@.custom_modes.len() as int)
                =~= change@.custom_modes);
        }
        i += 1;
    }
    assert(s.take(n as int) =~= s);
    let mut args: Vec<String> = Vec::new();
    let mut k: usize = 0;
    while k < table.len()
        invariant
            k <= table.len(),
            strs_view(args@) == newmode_args(customs_view(table@).take(k as int)),
        decreases table.len() - k,
    {
        let ghost before = strs_view(args@);
        push_lit(&mut args, "--newmode");
        push_arg(&mut args, table[k].name.clone());
        push_arg(&mut args, table[k].modeline.clone());
        proof {
            let t = customs_view(table@);
            assert(t.take(k + 1).drop_last() =~= t.take(k as int));
        }
        k += 1;
    }
    assert(customs_view(table@).take(table.len() as int) =~= customs_view(table@));
    let ghost head = strs_view(args@);
    let mut i: usize = 0;
    assert(s.take(0) =~= Seq::<(Seq<char>, PendingChangeView)>::empty());
    assert(head + Seq::<Seq<char>>::empty() =~= head);
    while i < n
        invariant
            n == s.len(),
            s == pending@,
            i <= n,
            strs_view(args@) == head + output_args(s.take(i as int)),
        decreases n - i,
    {
        let (name, change) = pending.entry_at(i);
        let ghost before = strs_view(args@);
        if change.has_visible_change() || change.custom_modes.len() > 0 {
            push_lit(&mut args, "--output");
            push_arg(&mut args, name.clone());
            let tail = change_to_args(change);
            let mut t: usize = 0;
            while t < tail.len()
                invariant
                    t <= tail.len(),
                    strs_view(args@) == before + seq!["--output"@, name@] + strs_view(
                        tail@,
                    ).take(t as int),
                decreases tail.len() - t,
            {
                push_arg(&mut args, tail[t].clone());
                assert(strs_view(tail@).take(t + 1) =~= strs_view(tail@).take(t as int).push(
                    tail@[t as int]@,
                ));
                t += 1;
            }
            assert(strs_view(tail@).take(tail.len() as int) =~= strs_view(tail@));
        }
        proof {
            assert(s.take(i + 1).drop_last() =~= s.take(i as int));
            assert(s.take(i + 1).last() == s[i as int]);
            assert(strs_view(args@) =~= before + output_block(s[i as int]));
        }
        i += 1;
    }
    assert(s.take(n as int) =~= s);
    args
}

/// The preview line: `xrandr` followed by each argument after a space, or
/// `xrandr  (no pending changes)` when there are no arguments.
pub open spec fn preview_spec(args: Seq<Seq<char>>) -> Seq<char> {
    if args.len() == 0 {
        "xrandr  (no pending changes)"@
    } else {
        "xrandr"@ + join_spaced(args)
    }
}

/// Each argument preceded by a space.
pub open spec fn join_spaced(args: Seq<Seq<char>>) -> Seq<char>
    decreases args.len(),
{
    if args.len() == 0 {
        Seq::empty()
    } else {
        join_spaced(args.drop_last()) + seq![' '] + args.last()
    }
}

/// Build a single human-readable preview line like
/// `xrandr --output HDMI-1 --mode 1920x1080 --rate 60.000 ...`.
pub fn preview_command(pending: &PendingMap) -> (s: String)
    ensures
        s@ == preview_spec(command_args(pending@)),
{
    let args = build_command(pending);
    if args.len() == 0 {
        return String::from_str("xrandr  (no pending changes)");
    }
    let mut s = String::from_str("xrandr");
    let ghost start = s@;
    let mut i: usize = 0;
    assert(strs_view(args@).take(0) =~= Seq::<Seq<char>>::empty());
    assert(start + join_spaced(Seq::empty()) =~= start);
    while i < args.len()
        invariant
            i <= args.len(),
            start == "xrandr"@,
            s@ == start + join_spaced(strs_view(args@).take(i as int)),
        decreases args.len() - i,
    {
        push_char(&mut s, ' ');
        push_str(&mut s, args[i].as_str());
        proof {
            let v = strs_view(args@);
            assert(v.take(i + 1).drop_last() =~= v.take(i as int));
            assert(v.take(i + 1).last() == args@[i as int]@);
        }
        i += 1;
    }
    assert(strs_view(args@).take(args.len() as int) =~= strs_view(args@));
    s
}


/// The output `base` with the staged change `c` merged in: a staged mode
/// becomes current; a staged `off` is copied and, when true, clears the
/// current mode; `primary == Some(true)` sets primary; rotation,
/// reflection, scale, scale-from, gamma, position and relative placement
/// replace the base values when staged. Panning, EDID and custom modes
/// are not carried over.
pub open spec fn materialize_spec(base: OutputView, c: PendingChangeView) -> OutputView {
    let m1 = match c.mode {
        Some(m) => Some(m),
        None => base.current_mode,
    };
    let (off, m2) = match c.off {
        Some(o) => (o, if o {
            None
        } else {
            m1
        }),
        None => (base.off, m1),
    };
    OutputView {
        current_mode: m2,
        off: off,
        is_primary: if c.primary == Some(true) {
            true
        } else {
            base.is_primary
        },
        rotation: match c.rotation {
            Some(r) => r,
            None => base.rotation,
        },
        reflection: match c.reflection {
            Some(r) => r,
            None => base.reflection,
        },
        scale: match c.scale {
            Some(x) => Some(x),
            None => base.scale,
        },
        scale_from: match c.scale_from {
            Some(x) => Some(x),
            None => base.scale_from,
        },
        gamma: match c.gamma {
            Some(x) => Some(x),
            None => base.gamma,
        },
        position: match c.position {
            Some(x) => Some(x),
            None => base.position,
        },
        relative_to: match c.relative_to {
            Some(r) => r,
            None => base.relative_to,
        },
        ..base
    }
}

/// Convert a `PendingChange` into a fully populated `Output` snapshot.
pub fn materialize(base: &Output, change: &PendingChange) -> (out: Output)
    ensures
        out@ == materialize_spec(base@, change@),
{
    let mut out = base.clone();
    if let Some(m) = &change.mode {
        out.current_mode = Some(m.clone());
    }
    if let Some(off) = change.off {
        out.off = off;
        if off {
            out.current_mode = None;
        }
    }
    if change.primary == Some(true) {
        out.is_primary = true;
    }
    if let Some(r) = change.rotation {
        out.rotation = r;
    }
    if let Some(r) = change.reflection {
        out.reflection = r;
    }
    if let Some(s) = change.scale {
        out.scale = Some(s);
    }
    if let Some(s) = change.scale_from {
        out.scale_from = Some(s);
    }
    if let Some(g) = change.gamma {
        out.gamma = Some(g);
    }
    if let Some(p) = change.position {
        out.position = Some(p);
    }
    if let Some(rel) = &change.relative_to {
        out.relative_to = clone_rel(rel);
    }
    out
}

/// Set the relative position of one output to another.
pub fn make_relative(change: &mut PendingChange, other: &str, pos: RelativePosition)
    ensures
        final(change)@ == (PendingChangeView {
            relative_to: Some(Some((other@, pos))),
            ..old(change)@
        }),
{
    change.relative_to = Some(Some((String::from_str(other), pos)));
}

/// A staged power state always replaces the output's own: turned off,
/// the output is off with no mode; turned on (`--auto`), it is on; with
/// nothing staged, it keeps its state.
pub proof fn law_materialize_power(base: OutputView, c: PendingChangeView)
    ensures
        c.off matches Some(o) ==> materialize_spec(base, c).off == o,
        c.off == Some(true) ==> materialize_spec(base, c).current_mode is None,
        c.off is None ==> materialize_spec(base, c).off == base.off,
{
}

} // verus!
