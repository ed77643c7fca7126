//! Loading a saved layout into the staged changes, without applying it.

use vstd::prelude::*;
use crate::app::{App, AppView, flashed, outputs_view, staged};
use crate::config::{LayoutConfig, LayoutConfigView, PersistedOutputView, has_custom_named, persisted_view, to_pending, to_pending_spec};
use crate::model::{CustomModeView, OutputView, PendingChangeView, customs_view};
use crate::pending::{PendingSeq, insert_spec};

verus! {

broadcast use vstd::string::group_string_axioms;

/// Index of the first output from `i` on that carries a custom mode named
/// `n`, or `outs.len()`.
pub open spec fn first_with_custom(outs: Seq<OutputView>, n: Seq<char>, i: int) -> int
    decreases outs.len() - i,
{
    if 0 <= i < outs.len() && !has_custom_named(outs[i].custom_modes, n) {
        first_with_custom(outs, n, i + 1)
    } else {
        i
    }
}

/// Index of the first connected output from `i` on, or `outs.len()`.
pub open spec fn first_connected(outs: Seq<OutputView>, i: int) -> int
    decreases outs.len() - i,
{
    if 0 <= i < outs.len() && !outs[i].connected {
        first_connected(outs, i + 1)
    } else {
        i
    }
}

/// The output a loaded custom mode goes to: the first that already has a
/// mode of that name, else the first connected one, else the first.
pub open spec fn custom_target(outs: Seq<OutputView>, n: Seq<char>) -> int {
    let a = first_with_custom(outs, n, 0);
    if a < outs.len() {
        a
    } else {
        let c = first_connected(outs, 0);
        if c < outs.len() {
            c
        } else {
            0
        }
    }
}

proof fn lemma_first_with_custom(outs: Seq<OutputView>, n: Seq<char>, i: int)
    requires
        0 <= i <= outs.len(),
    ensures
        i <= first_with_custom(outs, n, i) <= outs.len(),
        first_with_custom(outs, n, i) < outs.len() ==> has_custom_named(
            outs[first_with_custom(outs, n, i)].custom_modes,
            n,
        ),
        forall|j: int| i <= j < first_with_custom(outs, n, i) ==> !has_custom_named(#[trigger] outs[j].custom_modes, n),
    decreases outs.len() - i,
{
    if i < outs.len() && !has_custom_named(outs[i].custom_modes, n) {
        lemma_first_with_custom(outs, n, i + 1);
    }
}

proof fn lemma_first_connected(outs: Seq<OutputView>, i: int)
    requires
        0 <= i <= outs.len(),
    ensures
        i <= first_connected(outs, i) <= outs.len(),
        first_connected(outs, i) < outs.len() ==> outs[first_connected(outs, i)].connected,
        forall|j: int| i <= j < first_connected(outs, i) ==> !(#[trigger] outs[j]).connected,
    decreases outs.len() - i,
{
    if i < outs.len() && !outs[i].connected {
        lemma_first_connected(outs, i + 1);
    }
}

/// Each saved output's change staged over `p`, in order.
pub open spec fn stage_saved_outputs(p: PendingSeq, ps: Seq<PersistedOutputView>) -> PendingSeq
    decreases ps.len(),
{
    if ps.len() == 0 {
        p
    } else {
        insert_spec(stage_saved_outputs(p, ps.drop_last()), ps.last().name, to_pending_spec(ps.last()))
    }
}

/// Custom mode `cm` added to its target output and to the change staged
/// for that output.
pub open spec fn add_custom(outs: Seq<OutputView>, p: PendingSeq, cm: CustomModeView) -> (Seq<OutputView>, PendingSeq) {
    let t = custom_target(outs, cm.name);
    let o = outs[t];
    let c = staged(p, o.name);
    (
        outs.update(t, OutputView { custom_modes: o.custom_modes.push(cm), ..o }),
        insert_spec(p, o.name, PendingChangeView { custom_modes: c.custom_modes.push(cm), ..c }),
    )
}

/// Each custom mode of `cms` added in turn (see `add_custom`).
pub open spec fn add_customs(outs: Seq<OutputView>, p: PendingSeq, cms: Seq<CustomModeView>) -> (Seq<OutputView>, PendingSeq)
    decreases cms.len(),
{
    if cms.len() == 0 {
        (outs, p)
    } else {
        let (o1, p1) = add_customs(outs, p, cms.drop_last());
        add_custom(o1, p1, cms.last())
    }
}

/// The state after loading layout `cfg` into the staged changes: each
/// saved output's settings staged, each custom mode attached to an output
/// and staged with it, and a message.
pub open spec fn load_layout_spec(a: AppView, cfg: LayoutConfigView, now: u64) -> AppView {
    let p1 = stage_saved_outputs(a.pending, cfg.outputs);
    let (outs, p2) = add_customs(a.outputs, p1, cfg.custom_modes);
    flashed(AppView { outputs: outs, pending: p2, ..a }, "Loaded saved layout into pending"@, now)
}

/// Adding custom modes keeps the number of outputs.
proof fn lemma_add_customs_len(outs: Seq<OutputView>, p: PendingSeq, cms: Seq<CustomModeView>)
    requires
        outs.len() > 0,
    ensures
        add_customs(outs, p, cms).0.len() == outs.len(),
    decreases cms.len(),
{
    if cms.len() > 0 {
        lemma_add_customs_len(outs, p, cms.drop_last());
        let o1 = add_customs(outs, p, cms.drop_last()).0;
        lemma_custom_target(o1, cms.last().name);
    }
}

proof fn lemma_custom_target(outs: Seq<OutputView>, n: Seq<char>)
    requires
        outs.len() > 0,
    ensures
        0 <= custom_target(outs, n) < outs.len(),
{
    lemma_first_with_custom(outs, n, 0);
    lemma_first_connected(outs, 0);
}

impl App {
    fn custom_target_exec(&self, n: &String) -> (t: usize)
        requires
            self.outputs.len() > 0,
        ensures
            t == custom_target(self@.outputs, n@),
    {
        let ghost outs = self@.outputs;
        proof {
            lemma_first_with_custom(outs, n@, 0);
            lemma_first_connected(outs, 0);
        }
        let mut i: usize = 0;
        while i < self.outputs.len()
            invariant
                outs == self@.outputs,
                i <= self.outputs.len(),
                forall|j: int| 0 <= j < i ==> !has_custom_named(#[trigger] outs[j].custom_modes, n@),
            decreases self.outputs.len() - i,
        {
            assert(outs[i as int] == self.outputs@[i as int]@);
            if crate::config::has_custom_named_exec(&self.outputs[i].custom_modes, n) {
                proof {
                    lemma_first_with_custom(outs, n@, 0);
                    let f = first_with_custom(outs, n@, 0);
                    assert(has_custom_named(outs[i as int].custom_modes, n@));
                    if f < i {
                        assert(!has_custom_named(outs[f].custom_modes, n@));
                    }
                    if f > i {
                        assert(!has_custom_named(outs[i as int].custom_modes, n@));
                    }
                    assert(f == i);
                }
                return i;
            }
            i += 1;
        }
        proof {
            lemma_first_with_custom(outs, n@, 0);
            let f = first_with_custom(outs, n@, 0);
            if f < outs.len() {
                assert(!has_custom_named(outs[f].custom_modes, n@));
            }
        }
        let mut k: usize = 0;
        while k < self.outputs.len()
            invariant
                outs == self@.outputs,
                k <= self.outputs.len(),
                first_with_custom(outs, n@, 0) == outs.len(),
                forall|j: int| 0 <= j < k ==> !(#[trigger] outs[j]).connected,
            decreases self.outputs.len() - k,
        {
            assert(outs[k as int] == self.outputs@[k as int]@);
            if self.outputs[k].connected {
                proof {
                    lemma_first_connected(outs, 0);
                    let f = first_connected(outs, 0);
                    if f < k {
                        assert(!outs[f].connected);
                    }
                    if f > k {
                        assert(!outs[k as int].connected);
                    }
                    assert(f == k);
                }
                return k;
            }
            k += 1;
        }
        proof {
            lemma_first_connected(outs, 0);
        }
        0
    }

    /// Stage a loaded layout without applying it (see `load_layout_spec`).
    pub fn load_layout_into_pending(&mut self, cfg: &LayoutConfig, now: u64)
        requires
            old(self).outputs.len() > 0 || cfg.custom_modes.len() == 0,
        ensures
            final(self)@ == load_layout_spec(old(self)@, cfg@, now),
    {
        let ghost a = self@;
        let ghost ps = persisted_view(cfg.outputs@);
        let mut i: usize = 0;
        while i < cfg.outputs.len()
            invariant
                i <= cfg.outputs.len(),
                ps == persisted_view(cfg.outputs@),
                self@ == (AppView { pending: stage_saved_outputs(a.pending, ps.take(i as int)), ..a }),
            decreases cfg.outputs.len() - i,
        {
            let p = &cfg.outputs[i];
            assert(ps[i as int] == p@);
            assert(ps.take(i + 1).drop_last() =~= ps.take(i as int));
            self.pending.insert(p.name.clone(), to_pending(p));
            i += 1;
        }
        assert(ps.take(ps.len() as int) =~= ps);
        let ghost b = self@;
        let ghost cms = customs_view(cfg.custom_modes@);
        let mut k: usize = 0;
        while k < cfg.custom_modes.len()
            invariant
                k <= cfg.custom_modes.len(),
                cms == customs_view(cfg.custom_modes@),
                a.outputs.len() > 0 || cms.len() == 0,
                b == (AppView { pending: stage_saved_outputs(a.pending, ps), ..a }),
                (self@.outputs, self@.pending) == add_customs(a.outputs, b.pending, cms.take(k as int)),
                self@ == (AppView { outputs: self@.outputs, pending: self@.pending, ..b }),
            decreases cfg.custom_modes.len() - k,
        {
            let cm = &cfg.custom_modes[k];
            assert(cms[k as int] == cm@);
            assert(cms.take(k + 1).drop_last() =~= cms.take(k as int));
            proof {
                lemma_add_customs_len(a.outputs, b.pending, cms.take(k as int));
            }
            let t = self.custom_target_exec(&cm.name);
            proof {
                lemma_custom_target(self@.outputs, cm.name@);
            }
            assert(self@.outputs[t as int] == self.outputs@[t as int]@);
            let mut o = self.outputs[t].clone();
            let ghost before = o@.custom_modes;
            o.custom_modes.push(cm.clone());
            assert(customs_view(o.custom_modes@) =~= before.push(cm@));
            let name = o.name.clone();
            self.set_output(t, o);
            let mut c = self.pending.get_or_default(name.as_str());
            let ghost cb = c@.custom_modes;
            c.custom_modes.push(cm.clone());
            assert(customs_view(c.custom_modes@) =~= cb.push(cm@));
            self.pending.insert(name, c);
            k += 1;
        }
        assert(cms.take(cms.len() as int) =~= cms);
        self.flash(String::from_str("Loaded saved layout into pending"), now);
    }
}

} // verus!
