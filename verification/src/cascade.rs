//! Evidence of cascades: what the gradient norms of the first four layers were before a layer was
//! frozen, and what they are a while after.
use vstd::prelude::*;

verus! {

/// Over how many steps the norms before a freeze are averaged.
pub const HISTORY: usize = 10;

/// How many steps after a freeze the norms are looked at again.
pub const CHECK_AFTER: usize = 30;

/// The norms of the first four layers, as the bits of singles.
#[derive(Clone, Copy, Debug, PartialEq, Eq, Structural)]
pub struct Norms {
    pub l0: u32,
    pub l1: u32,
    pub l2: u32,
    pub l3: u32,
}

/// A freeze whose consequences are not known yet.
#[derive(Clone, Copy, Debug, PartialEq, Eq, Structural)]
pub struct Pending {
    /// The step of the freeze.
    pub fired: usize,
    /// The layer that was frozen.
    pub layer: usize,
    /// The average of the norms before it.
    pub pre: Norms,
}

/// A freeze with its consequences.
#[derive(Clone, Copy, Debug, PartialEq, Eq, Structural)]
pub struct Evidence {
    /// The layer that was frozen.
    pub layer: usize,
    /// The step of the freeze.
    pub fired: usize,
    /// The average of the norms before it.
    pub pre: Norms,
    /// The norms after it.
    pub post: Norms,
}

/// The last `HISTORY` elements.
pub open spec fn latest(h: Seq<Norms>) -> Seq<Norms> {
    if h.len() > HISTORY {
        h.skip(h.len() - HISTORY)
    } else {
        h
    }
}

/// The freeze is looked at again at this step or later.
pub open spec fn is_due(p: Pending, step: int) -> bool {
    step >= p.fired + CHECK_AFTER
}

/// The freezes that are still to be looked at.
pub open spec fn waiting(pending: Seq<Pending>, step: int) -> Seq<Pending>
    decreases pending.len(),
{
    if pending.len() == 0 {
        pending
    } else if is_due(pending.last(), step) {
        waiting(pending.drop_last(), step)
    } else {
        waiting(pending.drop_last(), step).push(pending.last())
    }
}

/// The freezes that are due, with the norms that are seen now.
pub open spec fn resolved(pending: Seq<Pending>, step: int, now: Norms) -> Seq<Evidence>
    decreases pending.len(),
{
    if pending.len() == 0 {
        Seq::empty()
    } else if is_due(pending.last(), step) {
        let p = pending.last();
        resolved(pending.drop_last(), step, now).push(
            Evidence { layer: p.layer, fired: p.fired, pre: p.pre, post: now },
        )
    } else {
        resolved(pending.drop_last(), step, now)
    }
}

/// The evidence on a layer, in its order.
pub open spec fn evidence_on(all: Seq<Evidence>, layer: int) -> Seq<Evidence>
    decreases all.len(),
{
    if all.len() == 0 {
        all
    } else if all.last().layer == layer {
        evidence_on(all.drop_last(), layer).push(all.last())
    } else {
        evidence_on(all.drop_last(), layer)
    }
}

/// The evidence on the layers below `n`: the layers that there is any on, in rising order, each with
/// what there is.
pub open spec fn grouped(all: Seq<Evidence>, n: nat) -> Seq<(usize, Seq<Evidence>)>
    decreases n,
{
    if n == 0 {
        Seq::empty()
    } else {
        let head = grouped(all, (n - 1) as nat);
        let own = evidence_on(all, n - 1);
        if own.len() > 0 {
            head.push(((n - 1) as usize, own))
        } else {
            head
        }
    }
}

/// The evidence that an epoch gathers.
pub struct CascadeLog {
    history: Vec<Norms>,
    pending: Vec<Pending>,
    results: Vec<Evidence>,
}

impl CascadeLog {
    /// The norms of the last steps, the oldest first.
    pub closed spec fn history(&self) -> Seq<Norms> {
        self.history@
    }

    /// The freezes that are still to be looked at.
    pub closed spec fn pending(&self) -> Seq<Pending> {
        self.pending@
    }

    /// The evidence so far.
    pub closed spec fn results(&self) -> Seq<Evidence> {
        self.results@
    }

    /// The history is no longer than it may be, and every layer lies below `num_layers`.
    pub open spec fn wf(&self, num_layers: int) -> bool {
        &&& self.history().len() <= HISTORY
        &&& forall|i: int|
            0 <= i < self.pending().len() ==> (#[trigger] self.pending()[i]).layer < num_layers
        &&& forall|i: int|
            0 <= i < self.results().len() ==> (#[trigger] self.results()[i]).layer < num_layers
    }

    /// An epoch in which nothing has happened.
    pub fn new() -> (r: CascadeLog)
        ensures
            r.history() == Seq::<Norms>::empty(),
            r.pending() == Seq::<Pending>::empty(),
            r.results() == Seq::<Evidence>::empty(),
    {
        CascadeLog { history: Vec::new(), pending: Vec::new(), results: Vec::new() }
    }

    /// The norms of the last steps, the oldest first.
    pub fn recent(&self) -> (r: &Vec<Norms>)
        ensures
            r@ == self.history(),
    {
        &self.history
    }

    /// Takes the gradient norms of the layers at a step, and looks at the freezes that are due. Fewer
    /// than four norms give no evidence.
    pub fn record(&mut self, norms: &Vec<u32>, step: usize, num_layers: usize)
        requires
            old(self).wf(num_layers as int),
        ensures
            final(self).wf(num_layers as int),
            norms.len() < 4 ==> {
                &&& final(self).history() == old(self).history()
                &&& final(self).pending() == old(self).pending()
                &&& final(self).results() == old(self).results()
            },
            norms.len() >= 4 ==> ({
                let now = Norms { l0: norms[0], l1: norms[1], l2: norms[2], l3: norms[3] };
                &&& final(self).history() == latest(old(self).history().push(now))
                &&& final(self).pending() == waiting(old(self).pending(), step as int)
                &&& final(self).results() == old(self).results() + resolved(
                    old(self).pending(),
                    step as int,
                    now,
                )
            }),
    {
        if norms.len() < 4 {
            return;
        }
        let now = Norms { l0: norms[0], l1: norms[1], l2: norms[2], l3: norms[3] };
        self.history.push(now);
        if self.history.len() > HISTORY {
            self.history.remove(0);
        }
        assert(self.history@ =~= latest(old(self).history().push(now)));
        let mut kept: Vec<Pending> = Vec::new();
        let mut i: usize = 0;
        let ghost all = self.pending@;
        let ghost before = self.results@;
        assert(all.take(0) =~= Seq::<Pending>::empty());
        assert(before + Seq::<Evidence>::empty() =~= before);
        assert forall|j: int| 0 <= j < self.results@.len() implies (#[trigger] self.results@[j]).layer
            < num_layers by {
            assert(old(self).results()[j].layer < num_layers);
        }
        while i < self.pending.len()
            invariant
                i <= self.pending.len(),
                self.pending@ == all,
                all == old(self).pending(),
                before == old(self).results(),
                old(self).wf(num_layers as int),
                self.history@ == latest(old(self).history().push(now)),
                kept@ == waiting(all.take(i as int), step as int),
                self.results@ == before + resolved(all.take(i as int), step as int, now),
                forall|j: int| 0 <= j < kept@.len() ==> (#[trigger] kept@[j]).layer < num_layers,
                forall|j: int|
                    0 <= j < self.results@.len() ==> (#[trigger] self.results@[j]).layer < num_layers,
            decreases self.pending.len() - i,
        {
            let p = self.pending[i];
            proof {
                assert(all.take(i + 1).drop_last() =~= all.take(i as int));
                assert(all.take(i + 1).last() == all[i as int]);
                assert(old(self).pending()[i as int].layer < num_layers);
            }
            let ghost sofar = self.results@;
            if step >= CHECK_AFTER && step - CHECK_AFTER >= p.fired {
                let e = Evidence { layer: p.layer, fired: p.fired, pre: p.pre, post: now };
                self.results.push(e);
                assert(self.results@ =~= before + resolved(all.take(i + 1), step as int, now));
            } else {
                kept.push(p);
            }
            i = i + 1;
        }
        assert(all.take(i as int) =~= all);
        self.pending = kept;
    }

    /// Notes that a layer was frozen at a step, with the average of the norms before it.
    pub fn schedule(&mut self, step: usize, layer: usize, pre: Norms, num_layers: usize)
        requires
            old(self).wf(num_layers as int),
            layer < num_layers,
        ensures
            final(self).wf(num_layers as int),
            final(self).history() == old(self).history(),
            final(self).pending() == old(self).pending().push(Pending { fired: step, layer, pre }),
            final(self).results() == old(self).results(),
    {
        self.pending.push(Pending { fired: step, layer, pre });
        assert forall|i: int| 0 <= i < self.pending@.len() implies (#[trigger] self.pending@[i]).layer
            < num_layers by {
            if i < old(self).pending().len() {
                assert(old(self).pending()[i].layer < num_layers);
            }
        }
        assert forall|i: int| 0 <= i < self.results@.len() implies (#[trigger] self.results@[i]).layer
            < num_layers by {
            assert(old(self).results()[i].layer < num_layers);
        }
    }

    /// The evidence, by layer.
    pub fn by_layer(&self, num_layers: usize) -> (r: Vec<(usize, Vec<Evidence>)>)
        ensures
            r@.map_values(|g: (usize, Vec<Evidence>)| (g.0, g.1@)) == grouped(
                self.results(),
                num_layers as nat,
            ),
    {
        let ghost all = self.results@;
        let mut out: Vec<(usize, Vec<Evidence>)> = Vec::new();
        let mut layer: usize = 0;
        assert(out@.map_values(|g: (usize, Vec<Evidence>)| (g.0, g.1@)) =~= grouped(all, 0));
        while layer < num_layers
            invariant
                layer <= num_layers,
                all == self.results@,
                out@.map_values(|g: (usize, Vec<Evidence>)| (g.0, g.1@)) == grouped(
                    all,
                    layer as nat,
                ),
            decreases num_layers - layer,
        {
            let mut own: Vec<Evidence> = Vec::new();
            let mut i: usize = 0;
            assert(all.take(0) =~= Seq::<Evidence>::empty());
            while i < self.results.len()
                invariant
                    i <= self.results.len(),
                    all == self.results@,
                    own@ == evidence_on(all.take(i as int), layer as int),
                decreases self.results.len() - i,
            {
                proof {
                    assert(all.take(i + 1).drop_last() =~= all.take(i as int));
                    assert(all.take(i + 1).last() == all[i as int]);
                }
                if self.results[i].layer == layer {
                    own.push(self.results[i]);
                }
                i = i + 1;
            }
            assert(all.take(i as int) =~= all);
            if own.len() > 0 {
                let ghost done = out@;
                let ghost group = (layer, own);
                out.push((layer, own));
                assert(out@.map_values(|g: (usize, Vec<Evidence>)| (g.0, g.1@))
                    =~= done.map_values(|g: (usize, Vec<Evidence>)| (g.0, g.1@)).push(
                    (group.0, group.1@),
                ));
            }
            layer = layer + 1;
        }
        out
    }
}

/// No freeze is lost or counted twice: what was pending is either still waiting or now has its
/// evidence, which names the same layer, step and norms.
pub proof fn law_freezes_are_conserved(pending: Seq<Pending>, step: nat, now: Norms)
    ensures
        waiting(pending, step as int).len() + resolved(pending, step as int, now).len()
            == pending.len(),
        forall|i: int|
            0 <= i < waiting(pending, step as int).len() ==> !is_due(
                #[trigger] waiting(pending, step as int)[i],
                step as int,
            ) && pending.contains(waiting(pending, step as int)[i]),
        forall|i: int|
            0 <= i < resolved(pending, step as int, now).len() ==> ({
                let e = #[trigger] resolved(pending, step as int, now)[i];
                e.post == now && step >= e.fired + CHECK_AFTER && pending.contains(
                    Pending { fired: e.fired, layer: e.layer, pre: e.pre },
                )
            }),
    decreases pending.len(),
{
    if pending.len() > 0 {
        let rest = pending.drop_last();
        law_freezes_are_conserved(rest, step, now);
        assert(pending[pending.len() - 1] == pending.last());
        assert forall|p: Pending| rest.contains(p) implies pending.contains(p) by {
            let j = choose|j: int| 0 <= j < rest.len() && rest[j] == p;
            assert(pending[j] == p);
        }
    }
}

/// The groups of an epoch's evidence name each layer once, in rising order, and every piece of
/// evidence stands in the group of its layer.
pub proof fn law_groups_cover_evidence(all: Seq<Evidence>, n: nat)
    requires
        n <= usize::MAX,
        forall|i: int| 0 <= i < all.len() ==> (#[trigger] all[i]).layer < n,
    ensures
        forall|i: int, j: int|
            #![trigger grouped(all, n)[i], grouped(all, n)[j]]
            0 <= i < j < grouped(all, n).len() ==> grouped(all, n)[i].0 < grouped(all, n)[j].0,
        forall|i: int|
            0 <= i < all.len() ==> exists|g: int|
                0 <= g < grouped(all, n).len() && (#[trigger] grouped(all, n)[g]).0 == (
                #[trigger] all[i]).layer && grouped(all, n)[g].1.contains(all[i]),
{
    lemma_groups_rise(all, n);
    assert forall|i: int| 0 <= i < all.len() implies exists|g: int|
        0 <= g < grouped(all, n).len() && (#[trigger] grouped(all, n)[g]).0 == (
        #[trigger] all[i]).layer && grouped(all, n)[g].1.contains(all[i]) by {
        lemma_evidence_on_contains(all, i);
        lemma_group_of(all, n, all[i].layer);
        let own = evidence_on(all, all[i].layer as int);
        let g = choose|g: int|
            0 <= g < grouped(all, n).len() && #[trigger] grouped(all, n)[g] == (all[i].layer, own);
        assert(grouped(all, n)[g].0 == all[i].layer);
        assert(grouped(all, n)[g].1.contains(all[i]));
    }
}

proof fn lemma_groups_rise(all: Seq<Evidence>, n: nat)
    requires
        n <= usize::MAX,
    ensures
        forall|i: int, j: int|
            #![trigger grouped(all, n)[i], grouped(all, n)[j]]
            0 <= i < j < grouped(all, n).len() ==> grouped(all, n)[i].0 < grouped(all, n)[j].0,
        forall|i: int| 0 <= i < grouped(all, n).len() ==> (#[trigger] grouped(all, n)[i]).0 < n,
    decreases n,
{
    if n > 0 {
        lemma_groups_rise(all, (n - 1) as nat);
        let head = grouped(all, (n - 1) as nat);
        let groups = grouped(all, n);
        assert forall|i: int| 0 <= i < groups.len() implies (#[trigger] groups[i]).0 < n by {
            if i < head.len() {
                assert(groups[i] == head[i]);
            }
        }
        assert forall|i: int, j: int|
            #![trigger groups[i], groups[j]]
            0 <= i < j < groups.len() implies groups[i].0 < groups[j].0 by {
            assert(groups[i] == head[i]);
            if j < head.len() {
                assert(groups[j] == head[j]);
            }
        }
    }
}

proof fn lemma_evidence_on_contains(all: Seq<Evidence>, i: int)
    requires
        0 <= i < all.len(),
    ensures
        evidence_on(all, all[i].layer as int).contains(all[i]),
    decreases all.len(),
{
    let own = evidence_on(all, all[i].layer as int);
    if i == all.len() - 1 {
        assert(own.last() == all[i]);
        assert(own[own.len() - 1] == all[i]);
    } else {
        lemma_evidence_on_contains(all.drop_last(), i);
        let head = evidence_on(all.drop_last(), all[i].layer as int);
        let j = choose|j: int| 0 <= j < head.len() && head[j] == all[i];
        assert(own[j] == all[i]);
    }
}

proof fn lemma_group_of(all: Seq<Evidence>, n: nat, layer: usize)
    requires
        layer < n <= usize::MAX,
        evidence_on(all, layer as int).len() > 0,
    ensures
        exists|g: int|
            0 <= g < grouped(all, n).len() && #[trigger] grouped(all, n)[g] == (
                layer,
                evidence_on(all, layer as int),
            ),
    decreases n,
{
    let groups = grouped(all, n);
    if layer == n - 1 {
        assert(groups[groups.len() - 1] == (layer, evidence_on(all, layer as int)));
    } else {
        lemma_group_of(all, (n - 1) as nat, layer);
        let head = grouped(all, (n - 1) as nat);
        let g = choose|g: int|
            0 <= g < head.len() && #[trigger] head[g] == (layer, evidence_on(all, layer as int));
        assert(groups[g] == head[g]);
    }
}

/// Freezes are looked at again thirty steps after they came, and not before: those that are at least that
/// old get their evidence, with the norms of now, and the younger ones go on waiting, both in their
/// order.
pub proof fn law_freezes_are_looked_at_after_thirty_steps(
    pending: Seq<Pending>,
    step: nat,
    now: Norms,
)
    ensures
        waiting(pending, step as int) == pending.filter(|p: Pending| step < p.fired + 30),
        resolved(pending, step as int, now) == pending.filter(
            |p: Pending| step >= p.fired + 30,
        ).map_values(
            |p: Pending| Evidence { layer: p.layer, fired: p.fired, pre: p.pre, post: now },
        ),
    decreases pending.len(),
{
    reveal(Seq::filter);
    let young = |p: Pending| step < p.fired + 30;
    let old = |p: Pending| step >= p.fired + 30;
    let seen = |p: Pending| Evidence { layer: p.layer, fired: p.fired, pre: p.pre, post: now };
    if pending.len() > 0 {
        law_freezes_are_looked_at_after_thirty_steps(pending.drop_last(), step, now);
        let p = pending.last();
        if old(p) {
            assert(pending.filter(old).map_values(seen) =~= pending.drop_last().filter(old).map_values(
                seen,
            ).push(seen(p)));
        }
    } else {
        assert(waiting(pending, step as int) =~= pending.filter(young));
        assert(resolved(pending, step as int, now) =~= pending.filter(old).map_values(seen));
    }
}

/// The history is the norms of the last ten steps, or of all where there were fewer.
pub proof fn law_history_is_the_last_ten_steps(h: Seq<Norms>, i: int)
    ensures
        latest(h).len() == if h.len() < 10 {
            h.len()
        } else {
            10
        },
        0 <= i < latest(h).len() ==> latest(h)[i] == h[h.len() - latest(h).len() + i],
{
}

/// A layer's group holds all the evidence on that layer in its order, and no other; there is a group for
/// no layer that there is no evidence on.
pub proof fn law_groups_hold_their_layers_evidence(
    all: Seq<Evidence>,
    n: nat,
    g: int,
    layer: usize,
)
    requires
        n <= usize::MAX,
        0 <= g < grouped(all, n).len(),
        grouped(all, n)[g].0 == layer,
    ensures
        layer < n,
        grouped(all, n)[g].1 == all.filter(|e: Evidence| e.layer == layer),
        grouped(all, n)[g].1.len() > 0,
    decreases n,
{
    let head = grouped(all, (n - 1) as nat);
    if g < head.len() {
        assert(grouped(all, n)[g] == head[g]);
        law_groups_hold_their_layers_evidence(all, (n - 1) as nat, g, layer);
    } else {
        lemma_evidence_is_filtered(all, layer);
        assert(grouped(all, n)[g] == ((n - 1) as usize, evidence_on(all, n - 1)));
    }
}

/// The evidence on a layer is what speaks of it.
proof fn lemma_evidence_is_filtered(all: Seq<Evidence>, layer: usize)
    ensures
        evidence_on(all, layer as int) == all.filter(|e: Evidence| e.layer == layer),
    decreases all.len(),
{
    reveal(Seq::filter);
    if all.len() > 0 {
        lemma_evidence_is_filtered(all.drop_last(), layer);
    }
}

} // verus!
