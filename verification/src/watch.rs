//! Watching the gradients of all layers over an epoch: which layers burst, and what came of it.
use crate::burst::{
    burst_of, fire_total, freeze_text, level_after, Burst, BurstGuard, MAX_BURSTS_PER_EPOCH,
    TTL_FREEZE_GRAD_STEPS,
};
use crate::cascade::{
    grouped, latest, law_freezes_are_conserved, resolved, waiting, CascadeLog, Evidence, Norms, Pending,
};
use vstd::prelude::*;

verus! {

/// The layers of a model, with what their gradients have shown.
pub struct LayerWatch {
    guard: BurstGuard,
    log: CascadeLog,
    num_layers: usize,
}

/// What the gradients of a step are to the layers. For each layer there is its norm, the norm over the
/// layer's usual level, and the moving average of the two.
pub open spec fn bursts_of(
    levels: Seq<u32>,
    fires: Seq<usize>,
    norms: Seq<u32>,
    ratios: Seq<u32>,
    step: int,
) -> Seq<Burst> {
    Seq::new(
        levels.len(),
        |i: int| burst_of(levels[i], fires[i] as int, norms[i], ratios[i], step),
    )
}

/// The usual levels after a step.
pub open spec fn levels_after(
    levels: Seq<u32>,
    bursts: Seq<Burst>,
    norms: Seq<u32>,
    blends: Seq<u32>,
) -> Seq<u32> {
    Seq::new(levels.len(), |i: int| level_after(levels[i], bursts[i], norms[i], blends[i]))
}

/// How often each layer was frozen, after a step.
pub open spec fn fires_after(fires: Seq<usize>, bursts: Seq<Burst>) -> Seq<usize> {
    Seq::new(
        fires.len(),
        |i: int|
            (fires[i] + (if bursts[i] is Freeze {
                1int
            } else {
                0
            })) as usize,
    )
}

/// The freezes among the first layers' bursts, each with the norms before it.
pub open spec fn freezes_in(bursts: Seq<Burst>, pre: Norms, step: int) -> Seq<Pending>
    decreases bursts.len(),
{
    if bursts.len() == 0 {
        Seq::empty()
    } else {
        let head = freezes_in(bursts.drop_last(), pre, step);
        if bursts.last() is Freeze {
            head.push(Pending { fired: step as usize, layer: (bursts.len() - 1) as usize, pre })
        } else {
            head
        }
    }
}

impl LayerWatch {
    /// The usual levels of the layers.
    pub closed spec fn levels(&self) -> Seq<u32> {
        self.guard.levels()
    }

    /// How often each layer was frozen in the epoch.
    pub closed spec fn fires(&self) -> Seq<usize> {
        self.guard.fires()
    }

    /// The norms of the last steps.
    pub closed spec fn history(&self) -> Seq<Norms> {
        self.log.history()
    }

    /// The freezes of the epoch whose consequences are not known yet.
    pub closed spec fn pending(&self) -> Seq<Pending> {
        self.log.pending()
    }

    /// The freezes of the epoch with their consequences.
    pub closed spec fn results(&self) -> Seq<Evidence> {
        self.log.results()
    }

    /// The layers.
    pub closed spec fn layers(&self) -> nat {
        self.num_layers as nat
    }

    /// Every layer has a level and a count within its limit, and every freeze of the epoch is either
    /// still pending or has its evidence.
    pub closed spec fn wf(&self) -> bool {
        &&& self.guard.wf()
        &&& self.guard.levels().len() == self.num_layers
        &&& self.log.wf(self.num_layers as int)
        &&& fire_total(self.guard.fires()) == self.log.pending().len() + self.log.results().len()
    }

    /// A model of which no gradient has been seen.
    pub fn new(num_layers: usize) -> (r: LayerWatch)
        ensures
            r.wf(),
            r.layers() == num_layers,
            r.levels() == Seq::new(num_layers as nat, |i: int| 0u32),
            r.fires() == Seq::new(num_layers as nat, |i: int| 0usize),
            r.history() == Seq::<Norms>::empty(),
            r.pending() == Seq::<Pending>::empty(),
            r.results() == Seq::<Evidence>::empty(),
    {
        let r = LayerWatch { guard: BurstGuard::new(num_layers), log: CascadeLog::new(), num_layers };
        proof {
            lemma_no_fires(num_layers as nat);
        }
        r
    }

    /// Begins an epoch: nothing is pending, and every layer may be frozen again. The usual levels stay.
    pub fn begin_epoch(&mut self)
        requires
            old(self).wf(),
        ensures
            final(self).wf(),
            final(self).layers() == old(self).layers(),
            final(self).levels() == old(self).levels(),
            final(self).fires() == Seq::new(old(self).layers(), |i: int| 0usize),
            final(self).history() == Seq::<Norms>::empty(),
            final(self).pending() == Seq::<Pending>::empty(),
            final(self).results() == Seq::<Evidence>::empty(),
    {
        self.guard.begin_epoch();
        self.log = CascadeLog::new();
        proof {
            lemma_no_fires(self.num_layers as nat);
        }
    }

    /// The usual level of a layer.
    pub fn level(&self, layer: usize) -> (r: u32)
        requires
            self.wf(),
            layer < self.layers(),
        ensures
            r == self.levels()[layer as int],
    {
        self.guard.level(layer)
    }

    /// The norms of the last steps, the oldest first.
    pub fn recent(&self) -> (r: &Vec<Norms>)
        ensures
            r@ == self.history(),
    {
        self.log.recent()
    }

    /// Takes the gradient norms of a step into the history, and looks at the freezes that are due.
    pub fn record(&mut self, norms: &Vec<u32>, step: usize)
        requires
            old(self).wf(),
        ensures
            final(self).wf(),
            final(self).layers() == old(self).layers(),
            final(self).levels() == old(self).levels(),
            final(self).fires() == old(self).fires(),
            norms.len() < 4 ==> {
                &&& final(self).history() == old(self).history()
                &&& final(self).pending() == old(self).pending()
                &&& final(self).results() == old(self).results()
            },
            norms.len() >= 4 ==> ({
                let now = Norms { l0: norms[0], l1: norms[1], l2: norms[2], l3: norms[3] };
                &&& final(self).history() == latest(old(self).history().push(now))
                &&& final(self).pending() == waiting(old(self).pending(), step as int)
                &&& final(self).results() == old(self).results() + resolved(
                    old(self).pending(),
                    step as int,
                    now,
                )
            }),
    {
        self.log.record(norms, step, self.num_layers);
        proof {
            if norms@.len() >= 4 {
                let now = Norms { l0: norms@[0], l1: norms@[1], l2: norms@[2], l3: norms@[3] };
                law_freezes_are_conserved(old(self).pending(), step as nat, now);
            }
        }
    }

    /// Takes what the gradients of a step are to each layer, freezes the layers that burst, and notes
    /// each freeze with the average norms before it.
    pub fn observe(
        &mut self,
        norms: &Vec<u32>,
        ratios: &Vec<u32>,
        blends: &Vec<u32>,
        pre: Norms,
        step: usize,
    ) -> (r: Vec<Burst>)
        requires
            old(self).wf(),
            norms.len() >= old(self).layers(),
            ratios.len() >= old(self).layers(),
            blends.len() >= old(self).layers(),
            step + TTL_FREEZE_GRAD_STEPS <= usize::MAX,
        ensures
            final(self).wf(),
            final(self).layers() == old(self).layers(),
            r@ == bursts_of(
                old(self).levels(),
                old(self).fires(),
                norms@,
                ratios@,
                step as int,
            ),
            final(self).levels() == levels_after(old(self).levels(), r@, norms@, blends@),
            final(self).fires() == fires_after(old(self).fires(), r@),
            final(self).history() == old(self).history(),
            final(self).pending() == old(self).pending() + freezes_in(r@, pre, step as int),
            final(self).results() == old(self).results(),
    {
        let n: usize = self.num_layers;
        let ghost levels = self.guard.levels();
        let ghost fires = self.guard.fires();
        let ghost bursts = bursts_of(levels, fires, norms@, ratios@, step as int);
        let ghost becomes = levels_after(levels, bursts, norms@, blends@);
        let ghost fired = fires_after(fires, bursts);
        let mut out: Vec<Burst> = Vec::new();
        let mut i: usize = 0;
        assert(self.log.pending() + Seq::<Pending>::empty() =~= self.log.pending());
        while i < n
            invariant
                i <= n,
                n == self.num_layers,
                n == levels.len(),
                n == fires.len(),
                n == old(self).layers(),
                old(self).wf(),
                levels == old(self).levels(),
                fires == old(self).fires(),
                n <= norms.len(),
                n <= ratios.len(),
                n <= blends.len(),
                step + TTL_FREEZE_GRAD_STEPS <= usize::MAX,
                bursts == bursts_of(levels, fires, norms@, ratios@, step as int),
                becomes == levels_after(levels, bursts, norms@, blends@),
                fired == fires_after(fires, bursts),
                self.guard.wf(),
                self.guard.levels().len() == n,
                self.log.wf(n as int),
                fire_total(self.guard.fires()) == self.log.pending().len()
                    + self.log.results().len(),
                out@ == bursts.take(i as int),
                forall|j: int| 0 <= j < i ==> self.guard.levels()[j] == becomes[j],
                forall|j: int| i <= j < n ==> self.guard.levels()[j] == levels[j],
                forall|j: int| 0 <= j < i ==> self.guard.fires()[j] == fired[j],
                forall|j: int| i <= j < n ==> self.guard.fires()[j] == fires[j],
                self.log.history() == old(self).history(),
                self.log.pending() == old(self).pending() + freezes_in(
                    bursts.take(i as int),
                    pre,
                    step as int,
                ),
                self.log.results() == old(self).results(),
            decreases n - i,
        {
            let ghost was = self.guard.fires();
            let b = self.guard.observe(i, norms[i], ratios[i], blends[i], step);
            proof {
                assert(b == bursts[i as int]);
                assert(bursts.take(i + 1).drop_last() =~= bursts.take(i as int));
                assert(bursts.take(i + 1).last() == bursts[i as int]);
                lemma_fire_total_update(was, i as int, self.guard.fires()[i as int]);
            }
            match b {
                Burst::Freeze { .. } => {
                    self.log.schedule(step, i, pre, n);
                    assert(self.log.pending() =~= old(self).pending() + freezes_in(
                        bursts.take(i + 1),
                        pre,
                        step as int,
                    ));
                },
                _ => {},
            }
            out.push(b);
            assert(out@ =~= bursts.take(i + 1));
            i = i + 1;
        }
        assert(bursts.take(i as int) =~= bursts);
        assert(self.guard.levels() =~= becomes);
        assert(self.guard.fires() =~= fired);
        out
    }

    /// How often any layer was frozen in the epoch.
    pub fn total(&self) -> (r: usize)
        requires
            self.wf(),
            self.layers() * MAX_BURSTS_PER_EPOCH <= usize::MAX,
        ensures
            r == fire_total(self.fires()),
    {
        self.guard.total()
    }

    /// The layers that were frozen in the epoch, for its summary.
    pub fn freezes(&self) -> (r: String)
        ensures
            r@ == freeze_text(self.fires()),
    {
        self.guard.freezes()
    }

    /// The evidence of the epoch, by layer.
    pub fn by_layer(&self) -> (r: Vec<(usize, Vec<Evidence>)>)
        ensures
            r@.map_values(|g: (usize, Vec<Evidence>)| (g.0, g.1@)) == grouped(
                self.results(),
                self.layers(),
            ),
    {
        self.log.by_layer(self.num_layers)
    }

    /// Every freeze of an epoch is accounted for: at any time it is still pending or has its evidence,
    /// and no layer is frozen more than five times.
    pub proof fn law_freezes_are_accounted_for(&self)
        requires
            self.wf(),
        ensures
            fire_total(self.fires()) == self.pending().len() + self.results().len(),
            forall|i: int|
                0 <= i < self.layers() ==> (#[trigger] self.fires()[i]) <= MAX_BURSTS_PER_EPOCH,
    {
        assert forall|i: int| 0 <= i < self.layers() implies (#[trigger] self.fires()[i])
            <= MAX_BURSTS_PER_EPOCH by {
            assert(self.guard.fires()[i] <= MAX_BURSTS_PER_EPOCH);
        }
    }
}

/// Where no layer was frozen, none was frozen in all.
proof fn lemma_no_fires(n: nat)
    ensures
        fire_total(Seq::new(n, |i: int| 0usize)) == 0,
    decreases n,
{
    if n > 0 {
        lemma_no_fires((n - 1) as nat);
        assert(Seq::new(n, |i: int| 0usize).drop_last() =~= Seq::new(
            (n - 1) as nat,
            |i: int| 0usize,
        ));
    }
}

/// How a change of one count changes the sum.
proof fn lemma_fire_total_update(fires: Seq<usize>, i: int, n: usize)
    requires
        0 <= i < fires.len(),
    ensures
        fire_total(fires.update(i, n)) == fire_total(fires) - fires[i] + n,
    decreases fires.len(),
{
    let after = fires.update(i, n);
    if i == fires.len() - 1 {
        assert(after.drop_last() =~= fires.drop_last());
    } else {
        lemma_fire_total_update(fires.drop_last(), i, n);
        assert(after.drop_last() =~= fires.drop_last().update(i, n));
        assert(after.last() == fires.last());
    }
}

/// Every layer that bursts is noted with the step and the norms before it, in the order of the layers,
/// and no other layer is.
pub proof fn law_every_freeze_is_noted(bursts: Seq<Burst>, pre: Norms, step: nat, i: int)
    requires
        bursts.len() <= usize::MAX,
        step <= usize::MAX,
    ensures
        0 <= i < bursts.len() && bursts[i] is Freeze ==> freezes_in(bursts, pre, step as int).contains(
            Pending { fired: step as usize, layer: i as usize, pre },
        ),
        forall|k: int|
            #![trigger freezes_in(bursts, pre, step as int)[k]]
            0 <= k < freezes_in(bursts, pre, step as int).len() ==> {
                let p = freezes_in(bursts, pre, step as int)[k];
                p.fired == step && p.pre == pre && p.layer < bursts.len() && bursts[p.layer as int]
                    is Freeze
            },
        forall|j: int, k: int|
            #![trigger freezes_in(bursts, pre, step as int)[j], freezes_in(bursts, pre, step as int)[k]]
            0 <= j < k < freezes_in(bursts, pre, step as int).len() ==> freezes_in(
                bursts,
                pre,
                step as int,
            )[j].layer < freezes_in(bursts, pre, step as int)[k].layer,
    decreases bursts.len(),
{
    if bursts.len() > 0 {
        let rest = bursts.drop_last();
        let head = freezes_in(rest, pre, step as int);
        let all = freezes_in(bursts, pre, step as int);
        law_every_freeze_is_noted(rest, pre, step, i);
        assert forall|k: int| #![trigger all[k]] 0 <= k < all.len() implies {
            let p = all[k];
            p.fired == step && p.pre == pre && p.layer < bursts.len() && bursts[p.layer as int]
                is Freeze
        } by {
            if k < head.len() {
                assert(all[k] == head[k]);
                assert(rest[head[k].layer as int] == bursts[head[k].layer as int]);
            }
        }
        assert forall|j: int, k: int| #![trigger all[j], all[k]] 0 <= j < k < all.len() implies
            all[j].layer < all[k].layer by {
            assert(all[j] == head[j]);
            if k < head.len() {
                assert(all[k] == head[k]);
            }
        }
        if 0 <= i < bursts.len() && bursts[i] is Freeze {
            let p = Pending { fired: step as usize, layer: i as usize, pre };
            if i < rest.len() {
                assert(rest[i] == bursts[i]);
                let k = choose|k: int| 0 <= k < head.len() && head[k] == p;
                assert(all[k] == p);
            } else {
                assert(all[all.len() - 1] == p);
            }
        }
    }
}

/// A step is to each layer what its own norm makes of it, whatever the other layers do: the counts grow
/// by one where the layer bursts and is not at its limit, and the levels follow the layer's norm.
pub proof fn law_layers_are_watched_apart(
    levels: Seq<u32>,
    fires: Seq<usize>,
    norms: Seq<u32>,
    ratios: Seq<u32>,
    blends: Seq<u32>,
    step: nat,
    i: int,
)
    requires
        0 <= i < levels.len(),
        fires.len() == levels.len(),
        fires[i] <= 5,
        step + 50 <= usize::MAX,
    ensures
        ({
            let bursts = bursts_of(levels, fires, norms, ratios, step as int);
            let seen = 0 < norms[i] <= 0x7F80_0000;
            let known = levels[i] != 0 && levels[i] != 0x8000_0000;
            let leaps = 0x40A0_0000 < ratios[i] <= 0x7F80_0000;
            &&& bursts.len() == levels.len()
            &&& bursts[i] is Freeze <==> seen && known && leaps && fires[i] < 5
            &&& fires_after(fires, bursts)[i] == fires[i] + (if seen && known && leaps && fires[i] < 5 {
                1int
            } else {
                0
            })
            &&& levels_after(levels, bursts, norms, blends)[i] == if !seen {
                levels[i]
            } else if !known {
                norms[i]
            } else {
                blends[i]
            }
        }),
{
}

} // verus!
