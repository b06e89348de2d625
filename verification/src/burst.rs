//! Gradient bursts: a layer whose gradient norm leaps above its usual level has its traffic lights
//! frozen for a while, a bounded number of times per epoch.
use crate::fraction::{below, equal, is_below, is_equal};
use crate::numerals::{decimal, decimal_text};
use crate::text::{join, join_texts, views};
use vstd::prelude::*;
use vstd::string::*;

verus! {

/// The bits of 5.0: a norm that is more than this many times the usual one is a burst.
pub const BURST_RATIO_THRESHOLD: u32 = 0x40A0_0000;

/// For how many steps of the optimizer a layer is frozen.
pub const TTL_FREEZE_GRAD_STEPS: usize = 50;

/// How often a layer is frozen in an epoch at most.
pub const MAX_BURSTS_PER_EPOCH: usize = 5;

/// What a norm is to a layer.
#[derive(Clone, Copy, Debug, PartialEq, Eq, Structural)]
pub enum Burst {
    /// No gradient: nothing is learned from it.
    Quiet,
    /// The first gradient: it sets the usual level.
    Bootstrap,
    /// A gradient near the usual level.
    Calm,
    /// A burst. The layer is frozen up to the step `end`; this is its `nth` time in the epoch.
    Freeze { end: usize, nth: usize },
    /// A burst of a layer that was frozen often enough in this epoch.
    Suppressed,
}

/// What a norm is to a layer with this usual level, which was frozen `fires` times in the epoch.
/// `ratio` is the norm over the usual level.
pub open spec fn burst_of(level: u32, fires: int, norm: u32, ratio: u32, step: int) -> Burst {
    if !is_below(0, norm) {
        Burst::Quiet
    } else if is_equal(level, 0) {
        Burst::Bootstrap
    } else if !is_below(BURST_RATIO_THRESHOLD, ratio) {
        Burst::Calm
    } else if fires < MAX_BURSTS_PER_EPOCH {
        Burst::Freeze {
            end: (step + TTL_FREEZE_GRAD_STEPS) as usize,
            nth: (fires + 1) as usize,
        }
    } else {
        Burst::Suppressed
    }
}

/// The usual level after a norm. `blended` is the moving average of the two.
pub open spec fn level_after(level: u32, b: Burst, norm: u32, blended: u32) -> u32 {
    match b {
        Burst::Quiet => level,
        Burst::Bootstrap => norm,
        _ => blended,
    }
}

/// The layers of a model, each with the usual level of its gradient norm and the number of times that
/// it was frozen in the current epoch.
pub struct BurstGuard {
    levels: Vec<u32>,
    fires: Vec<usize>,
}

/// `L` and the layer, `x` and the number of times.
pub open spec fn fire_text(layer: nat, times: nat) -> Seq<char> {
    "L"@ + decimal(layer) + "x"@ + decimal(times)
}

/// The texts of the layers among the first `n` that were frozen.
pub open spec fn fire_texts(fires: Seq<usize>) -> Seq<Seq<char>>
    decreases fires.len(),
{
    if fires.len() == 0 {
        Seq::empty()
    } else {
        let head = fire_texts(fires.drop_last());
        if fires.last() > 0 {
            head.push(fire_text((fires.len() - 1) as nat, fires.last() as nat))
        } else {
            head
        }
    }
}

/// The layers that were frozen, for the epoch's summary.
pub open spec fn freeze_text(fires: Seq<usize>) -> Seq<char> {
    if fire_texts(fires).len() == 0 {
        "none"@
    } else {
        join(fire_texts(fires), ","@)
    }
}

/// How often any layer was frozen.
pub open spec fn fire_total(fires: Seq<usize>) -> nat
    decreases fires.len(),
{
    if fires.len() == 0 {
        0
    } else {
        fire_total(fires.drop_last()) + fires.last() as nat
    }
}

impl BurstGuard {
    /// The usual levels, in the order of the layers.
    pub closed spec fn levels(&self) -> Seq<u32> {
        self.levels@
    }

    /// How often each layer was frozen.
    pub closed spec fn fires(&self) -> Seq<usize> {
        self.fires@
    }

    /// Every layer has a level and a count, and no count passes its limit.
    pub open spec fn wf(&self) -> bool {
        &&& self.levels().len() == self.fires().len()
        &&& forall|i: int|
            0 <= i < self.fires().len() ==> (#[trigger] self.fires()[i]) <= MAX_BURSTS_PER_EPOCH
    }

    /// A model of `num_layers` layers of which no gradient has been seen.
    pub fn new(num_layers: usize) -> (r: BurstGuard)
        ensures
            r.wf(),
            r.levels() == Seq::new(num_layers as nat, |i: int| 0u32),
            r.fires() == Seq::new(num_layers as nat, |i: int| 0usize),
    {
        let mut levels: Vec<u32> = Vec::new();
        let mut fires: Vec<usize> = Vec::new();
        let mut i: usize = 0;
        while i < num_layers
            invariant
                i <= num_layers,
                levels@ == Seq::new(i as nat, |j: int| 0u32),
                fires@ == Seq::new(i as nat, |j: int| 0usize),
            decreases num_layers - i,
        {
            levels.push(0);
            fires.push(0);
            i = i + 1;
            assert(levels@ =~= Seq::new(i as nat, |j: int| 0u32));
            assert(fires@ =~= Seq::new(i as nat, |j: int| 0usize));
        }
        BurstGuard { levels, fires }
    }

    /// The usual level of a layer, against which its norm is measured.
    pub fn level(&self, layer: usize) -> (r: u32)
        requires
            layer < self.levels().len(),
        ensures
            r == self.levels()[layer as int],
    {
        self.levels[layer]
    }

    /// Begins an epoch: every layer may be frozen again. The usual levels stay.
    pub fn begin_epoch(&mut self)
        requires
            old(self).wf(),
        ensures
            final(self).wf(),
            final(self).levels() == old(self).levels(),
            final(self).fires() == Seq::new(old(self).fires().len(), |i: int| 0usize),
    {
        let n: usize = self.fires.len();
        let mut i: usize = 0;
        while i < n
            invariant
                i <= n,
                n == self.fires@.len(),
                n == old(self).fires().len(),
                self.levels@ == old(self).levels(),
                forall|j: int| 0 <= j < i ==> self.fires@[j] == 0,
            decreases n - i,
        {
            self.fires.set(i, 0);
            i = i + 1;
        }
        assert(self.fires@ =~= Seq::new(n as nat, |j: int| 0usize));
    }

    /// Takes the gradient norm of a layer at a step. `ratio` is the norm over the layer's usual level,
    /// and `blended` the moving average of the two.
    pub fn observe(&mut self, layer: usize, norm: u32, ratio: u32, blended: u32, step: usize) -> (r:
        Burst)
        requires
            old(self).wf(),
            layer < old(self).levels().len(),
            step + TTL_FREEZE_GRAD_STEPS <= usize::MAX,
        ensures
            final(self).wf(),
            r == burst_of(
                old(self).levels()[layer as int],
                old(self).fires()[layer as int] as int,
                norm,
                ratio,
                step as int,
            ),
            final(self).levels() == old(self).levels().update(
                layer as int,
                level_after(old(self).levels()[layer as int], r, norm, blended),
            ),
            final(self).fires() == old(self).fires().update(
                layer as int,
                (old(self).fires()[layer as int] + (if r is Freeze {
                    1int
                } else {
                    0
                })) as usize,
            ),
    {
        let level: u32 = self.levels[layer];
        let fires: usize = self.fires[layer];
        let r = if !below(0, norm) {
            Burst::Quiet
        } else if equal(level, 0) {
            Burst::Bootstrap
        } else if !below(BURST_RATIO_THRESHOLD, ratio) {
            Burst::Calm
        } else if fires < MAX_BURSTS_PER_EPOCH {
            Burst::Freeze { end: step + TTL_FREEZE_GRAD_STEPS, nth: fires + 1 }
        } else {
            Burst::Suppressed
        };
        match r {
            Burst::Quiet => {},
            Burst::Bootstrap => {
                self.levels.set(layer, norm);
            },
            _ => {
                self.levels.set(layer, blended);
            },
        }
        match r {
            Burst::Freeze { nth, .. } => {
                self.fires.set(layer, nth);
            },
            _ => {},
        }
        assert(self.levels@ =~= old(self).levels().update(
            layer as int,
            level_after(old(self).levels()[layer as int], r, norm, blended),
        ));
        assert(self.fires@ =~= old(self).fires().update(
            layer as int,
            (old(self).fires()[layer as int] + (if r is Freeze {
                1int
            } else {
                0
            })) as usize,
        ));
        r
    }

    /// How often any layer was frozen in the epoch.
    pub fn total(&self) -> (r: usize)
        requires
            self.wf(),
            self.fires().len() * MAX_BURSTS_PER_EPOCH <= usize::MAX,
        ensures
            r == fire_total(self.fires()),
    {
        let mut sum: usize = 0;
        let mut i: usize = 0;
        let ghost all = self.fires@;
        assert(all.take(0) =~= Seq::<usize>::empty());
        while i < self.fires.len()
            invariant
                i <= self.fires.len(),
                all == self.fires@,
                self.wf(),
                all == self.fires(),
                all.len() * MAX_BURSTS_PER_EPOCH <= usize::MAX,
                sum == fire_total(all.take(i as int)),
                sum <= i * MAX_BURSTS_PER_EPOCH,
            decreases self.fires.len() - i,
        {
            proof {
                assert(all.take(i + 1).drop_last() =~= all.take(i as int));
                assert(all.take(i + 1).last() == all[i as int]);
                assert(self.fires()[i as int] <= MAX_BURSTS_PER_EPOCH);
            }
            sum = sum + self.fires[i];
            i = i + 1;
        }
        assert(all.take(i as int) =~= all);
        sum
    }

    /// The layers that were frozen in the epoch, for its summary.
    pub fn freezes(&self) -> (r: String)
        ensures
            r@ == freeze_text(self.fires()),
    {
        let mut parts: Vec<String> = Vec::new();
        let mut i: usize = 0;
        let ghost all = self.fires@;
        assert(all.take(0) =~= Seq::<usize>::empty());
        assert(views(parts@) =~= Seq::<Seq<char>>::empty());
        while i < self.fires.len()
            invariant
                i <= self.fires.len(),
                all == self.fires@,
                views(parts@) == fire_texts(all.take(i as int)),
            decreases self.fires.len() - i,
        {
            proof {
                assert(all.take(i + 1).drop_last() =~= all.take(i as int));
                assert(all.take(i + 1).last() == all[i as int]);
            }
            let ghost done = parts@;
            if self.fires[i] > 0 {
                let mut t: String = "L".to_owned();
                t.append(decimal_text(i as u64).as_str());
                t.append("x");
                t.append(decimal_text(self.fires[i] as u64).as_str());
                parts.push(t);
                assert(views(parts@) =~= views(done).push(t@));
            }
            i = i + 1;
        }
        assert(all.take(i as int) =~= all);
        assert(views(parts@).len() == parts@.len());
        if parts.len() == 0 {
            "none".to_owned()
        } else {
            join_texts(&parts, ",")
        }
    }
}

/// A gradient of a layer: its norm, the norm over the usual level, the moving average and the step.
pub struct Observation {
    pub norm: u32,
    pub ratio: u32,
    pub blended: u32,
    pub step: nat,
}

/// The level and the count of a layer after an epoch's gradients.
pub open spec fn layer_after(level: u32, seen: Seq<Observation>) -> (u32, nat)
    decreases seen.len(),
{
    if seen.len() == 0 {
        (level, 0)
    } else {
        let (l, n) = layer_after(level, seen.drop_last());
        let o = seen.last();
        let b = burst_of(l, n as int, o.norm, o.ratio, o.step as int);
        (
            level_after(l, b, o.norm, o.blended),
            n + if b is Freeze {
                1nat
            } else {
                0
            },
        )
    }
}

/// Whatever the gradients of an epoch, a layer is frozen at most five times; one that has reached the
/// limit is not frozen again.
pub proof fn law_freezes_are_bounded(level: u32, seen: Seq<Observation>, next: Observation)
    ensures
        layer_after(level, seen).1 <= MAX_BURSTS_PER_EPOCH,
        layer_after(level, seen).1 == MAX_BURSTS_PER_EPOCH ==> !(burst_of(
            layer_after(level, seen).0,
            layer_after(level, seen).1 as int,
            next.norm,
            next.ratio,
            next.step as int,
        ) is Freeze),
    decreases seen.len(),
{
    if seen.len() > 0 {
        law_freezes_are_bounded(level, seen.drop_last(), seen.last());
    }
}

/// The first gradient of a layer never freezes it: it only sets the usual level.
pub proof fn law_first_gradient_sets_level(fires: nat, norm: u32, ratio: u32, blended: u32, step: nat)
    requires
        is_below(0, norm),
    ensures
        burst_of(0, fires as int, norm, ratio, step as int) == Burst::Bootstrap,
        level_after(0, Burst::Bootstrap, norm, blended) == norm,
{
}

/// When a norm is a burst: there is a gradient and a usual level, and the norm is more than five times
/// that level. Such a layer is frozen for fifty steps as long as it was frozen fewer than five times in
/// the epoch, and each time is counted.
pub proof fn law_bursts_freeze_for_fifty_steps(
    level: u32,
    fires: nat,
    norm: u32,
    ratio: u32,
    step: nat,
)
    requires
        fires <= 5,
        step + 50 <= usize::MAX,
    ensures
        ({
            let b = burst_of(level, fires as int, norm, ratio, step as int);
            let seen = 0 < norm <= 0x7F80_0000;
            let known = level != 0 && level != 0x8000_0000;
            let leaps = 0x40A0_0000 < ratio <= 0x7F80_0000;
            &&& b == Burst::Quiet <==> !seen
            &&& b == Burst::Bootstrap <==> seen && !known
            &&& b == Burst::Calm <==> seen && known && !leaps
            &&& (b is Freeze || b is Suppressed) <==> seen && known && leaps
            &&& b is Freeze ==> fires < 5
            &&& b is Suppressed ==> fires == 5
            &&& b matches Burst::Freeze { end, nth } ==> end == step + 50 && nth == fires + 1
        }),
{
}

/// The usual level follows every gradient: the first sets it, later ones are blended in, and without a
/// gradient it stays.
pub proof fn law_level_follows_gradients(
    level: u32,
    fires: nat,
    norm: u32,
    ratio: u32,
    blended: u32,
    step: nat,
)
    ensures
        ({
            let b = burst_of(level, fires as int, norm, ratio, step as int);
            level_after(level, b, norm, blended) == if !(0 < norm <= 0x7F80_0000) {
                level
            } else if level == 0 || level == 0x8000_0000 {
                norm
            } else {
                blended
            }
        }),
{
}

/// The sum over all layers is the sum over some and the sum over the others.
pub proof fn law_fires_add_up(a: Seq<usize>, b: Seq<usize>, n: usize)
    ensures
        fire_total(a + b) == fire_total(a) + fire_total(b),
        fire_total(seq![n]) == n,
        fire_total(Seq::<usize>::empty()) == 0,
    decreases b.len(),
{
    reveal_with_fuel(fire_total, 2);
    assert(seq![n].drop_last() =~= Seq::<usize>::empty());
    if b.len() == 0 {
        assert(a + b =~= a);
    } else {
        law_fires_add_up(a, b.drop_last(), n);
        assert((a + b).drop_last() =~= a + b.drop_last());
    }
}

/// The summary names each layer that was frozen, with how often, and no other: none where none was.
pub proof fn law_summary_names_frozen_layers(fires: Seq<usize>, i: int, k: int)
    requires
        0 <= i < fires.len(),
    ensures
        fires[i] > 0 ==> fire_texts(fires).contains(
            "L"@ + decimal(i as nat) + "x"@ + decimal(fires[i] as nat),
        ),
        fires[i] > 0 ==> freeze_text(fires) == join(fire_texts(fires), ","@),
        (forall|l: int| 0 <= l < fires.len() ==> #[trigger] fires[l] == 0) ==> freeze_text(fires)
            == "none"@,
        0 <= k < fire_texts(fires).len() ==> exists|l: int|
            0 <= l < fires.len() && #[trigger] fires[l] > 0 && fire_texts(fires)[k] == "L"@ + decimal(
                l as nat,
            ) + "x"@ + decimal(fires[l] as nat),
{
    if fires[i] > 0 {
        let j = lemma_text_of_layer(fires, i);
        assert(fire_texts(fires)[j] == "L"@ + decimal(i as nat) + "x"@ + decimal(fires[i] as nat));
    }
    if 0 <= k < fire_texts(fires).len() {
        let l = lemma_layer_of_text(fires, k);
        assert(fires[l] > 0);
    }
    if fire_texts(fires).len() > 0 {
        let l = lemma_layer_of_text(fires, 0);
        assert(fires[l] > 0);
    }
}

/// The place of a frozen layer's text.
proof fn lemma_text_of_layer(fires: Seq<usize>, i: int) -> (k: int)
    requires
        0 <= i < fires.len(),
        fires[i] > 0,
    ensures
        0 <= k < fire_texts(fires).len(),
        fire_texts(fires)[k] == fire_text(i as nat, fires[i] as nat),
    decreases fires.len(),
{
    if i == fires.len() - 1 {
        fire_texts(fires).len() - 1
    } else {
        lemma_text_of_layer(fires.drop_last(), i)
    }
}

/// The layer of a text, which was frozen.
proof fn lemma_layer_of_text(fires: Seq<usize>, k: int) -> (l: int)
    requires
        0 <= k < fire_texts(fires).len(),
    ensures
        0 <= l < fires.len(),
        fires[l] > 0,
        fire_texts(fires)[k] == fire_text(l as nat, fires[l] as nat),
    decreases fires.len(),
{
    if k < fire_texts(fires.drop_last()).len() {
        lemma_layer_of_text(fires.drop_last(), k)
    } else {
        fires.len() - 1
    }
}

} // verus!
