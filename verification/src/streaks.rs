//! What holds for several epochs in a row: an expert that takes most of the routing, and the layer
//! under most pressure.
use crate::fraction::{below, is_below};
use vstd::prelude::*;

verus! {

/// The bits of 0.70: an expert with a larger share of the routing dominates it.
pub const DOMINANT_SHARE: u32 = 0x3F33_3333;

/// After how many epochs in a row dominance is warned of.
pub const DOMINANCE_WARNING: u8 = 3;

/// One more, up to the largest `u8`.
pub open spec fn one_more(n: u8) -> u8 {
    if n < u8::MAX {
        (n + 1) as u8
    } else {
        n
    }
}

/// How long an expert has dominated, once its share of an epoch is known.
pub open spec fn dominance_after(streak: u8, share: u32) -> u8 {
    if is_below(DOMINANT_SHARE, share) {
        one_more(streak)
    } else {
        0
    }
}

/// How long each expert has dominated, once the shares of an epoch are known.
pub open spec fn dominances_after(streaks: Seq<u8>, shares: Seq<u32>) -> Seq<u8> {
    Seq::new(
        streaks.len(),
        |e: int|
            if e < shares.len() {
                dominance_after(streaks[e], shares[e])
            } else {
                streaks[e]
            },
    )
}

/// The experts among those of `streaks` that are warned of, in rising order, each with how long it
/// has dominated.
pub open spec fn warnings_in(streaks: Seq<u8>) -> Seq<(usize, u8)>
    decreases streaks.len(),
{
    if streaks.len() == 0 {
        Seq::empty()
    } else {
        let head = warnings_in(streaks.drop_last());
        if streaks.last() >= DOMINANCE_WARNING {
            head.push(((streaks.len() - 1) as usize, streaks.last()))
        } else {
            head
        }
    }
}

/// How many epochs in a row each expert has dominated the routing.
pub struct Dominance {
    streaks: Vec<u8>,
}

impl View for Dominance {
    type V = Seq<u8>;

    closed spec fn view(&self) -> Seq<u8> {
        self.streaks@
    }
}

impl Dominance {
    /// No expert has dominated yet.
    pub fn new(num_experts: usize) -> (r: Dominance)
        ensures
            r@ == Seq::new(num_experts as nat, |e: int| 0u8),
    {
        let mut streaks: Vec<u8> = Vec::new();
        let mut e: usize = 0;
        while e < num_experts
            invariant
                e <= num_experts,
                streaks@ == Seq::new(e as nat, |i: int| 0u8),
            decreases num_experts - e,
        {
            streaks.push(0);
            e = e + 1;
            assert(streaks@ =~= Seq::new(e as nat, |i: int| 0u8));
        }
        Dominance { streaks }
    }

    /// Takes the shares that the experts had of an epoch's routing, one for each, and says which are
    /// to be warned of.
    pub fn observe(&mut self, shares: &Vec<u32>) -> (r: Vec<(usize, u8)>)
        requires
            shares.len() == old(self)@.len(),
        ensures
            final(self)@ == dominances_after(old(self)@, shares@),
            r@ == warnings_in(final(self)@),
    {
        let ghost was = self.streaks@;
        let ghost becomes = dominances_after(was, shares@);
        let mut out: Vec<(usize, u8)> = Vec::new();
        let mut e: usize = 0;
        assert(becomes.take(0) =~= Seq::<u8>::empty());
        while e < shares.len()
            invariant
                e <= shares.len(),
                was == old(self)@,
                becomes == dominances_after(was, shares@),
                self.streaks@.len() == was.len(),
                shares.len() == was.len(),
                forall|i: int| 0 <= i < e ==> self.streaks@[i] == becomes[i],
                forall|i: int| e <= i < was.len() ==> self.streaks@[i] == was[i],
                out@ == warnings_in(becomes.take(e as int)),
            decreases shares.len() - e,
        {
            let s: u8 = if below(DOMINANT_SHARE, shares[e]) {
                if self.streaks[e] < u8::MAX {
                    self.streaks[e] + 1
                } else {
                    self.streaks[e]
                }
            } else {
                0
            };
            proof {
                assert(s == becomes[e as int]);
                assert(becomes.take(e + 1).drop_last() =~= becomes.take(e as int));
                assert(becomes.take(e + 1).last() == becomes[e as int]);
            }
            self.streaks.set(e, s);
            if s >= DOMINANCE_WARNING {
                out.push((e, s));
            }
            e = e + 1;
        }
        assert(self.streaks@ =~= becomes);
        assert(becomes.take(e as int) =~= becomes);
        out
    }
}

/// How long an expert has dominated after some epochs.
pub open spec fn dominance_over(shares: Seq<u32>) -> u8
    decreases shares.len(),
{
    if shares.len() == 0 {
        0
    } else {
        dominance_after(dominance_over(shares.drop_last()), shares.last())
    }
}

/// An expert is warned of exactly when it dominated each of the last three epochs.
pub proof fn law_warning_takes_three_epochs(shares: Seq<u32>)
    ensures
        dominance_over(shares) >= DOMINANCE_WARNING <==> shares.len() >= DOMINANCE_WARNING && (
        forall|i: int|
            shares.len() - DOMINANCE_WARNING <= i < shares.len() ==> is_below(
                DOMINANT_SHARE,
                #[trigger] shares[i],
            )),
{
    reveal_with_fuel(dominance_over, 4);
    if shares.len() >= 1 {
        let a = shares.drop_last();
        assert(shares.last() == shares[shares.len() - 1]);
        if shares.len() >= 2 {
            let b = a.drop_last();
            assert(a.last() == shares[shares.len() - 2]);
            if shares.len() >= 3 {
                assert(b.last() == shares[shares.len() - 3]);
                let k = dominance_over(b.drop_last());
                assert(dominance_over(b) == dominance_after(k, b.last()));
                if is_below(DOMINANT_SHARE, shares[shares.len() - 1]) && is_below(
                    DOMINANT_SHARE,
                    shares[shares.len() - 2],
                ) && is_below(DOMINANT_SHARE, shares[shares.len() - 3]) {
                    assert forall|i: int|
                        shares.len() - DOMINANCE_WARNING <= i < shares.len() implies is_below(
                        DOMINANT_SHARE,
                        #[trigger] shares[i],
                    ) by {}
                }
            }
        }
    }
}

/// The layer under most pressure, and for how many epochs in a row it has been.
#[derive(Clone, Copy, Debug, PartialEq, Eq, Structural)]
pub struct HotLayer {
    /// The layer; none before the first epoch.
    pub layer: Option<usize>,
    /// The epochs in a row.
    pub epochs: usize,
}

/// The streak after an epoch in which `hottest` was under most pressure.
pub open spec fn hot_after(h: HotLayer, hottest: usize) -> HotLayer {
    HotLayer {
        layer: Some(hottest),
        epochs: if h.layer == Some(hottest) {
            (h.epochs + 1) as usize
        } else {
            1
        },
    }
}

impl HotLayer {
    /// A run before its first epoch.
    pub fn new() -> (r: HotLayer)
        ensures
            r == (HotLayer { layer: None, epochs: 0 }),
    {
        HotLayer { layer: None, epochs: 0 }
    }

    /// Takes the layer that was under most pressure in an epoch.
    pub fn observe(&mut self, hottest: usize)
        requires
            old(self).epochs < usize::MAX,
        ensures
            *final(self) == hot_after(*old(self), hottest),
    {
        let same: bool = match self.layer {
            Some(l) => l == hottest,
            None => false,
        };
        if same {
            self.epochs = self.epochs + 1;
        } else {
            self.epochs = 1;
            self.layer = Some(hottest);
        }
    }
}

/// The streak after some epochs.
pub open spec fn hot_over(hottest: Seq<usize>) -> HotLayer
    decreases hottest.len(),
{
    if hottest.len() == 0 {
        HotLayer { layer: None, epochs: 0 }
    } else {
        hot_after(hot_over(hottest.drop_last()), hottest.last())
    }
}

/// The streak is how long the last layer has been the hottest without a break: it was in each of
/// those epochs, and not in the one before them.
pub proof fn law_hot_streak_is_the_last_run(hottest: Seq<usize>)
    requires
        0 < hottest.len() <= usize::MAX,
    ensures
        ({
            let h = hot_over(hottest);
            &&& h.layer == Some(hottest.last())
            &&& 1 <= h.epochs <= hottest.len()
            &&& forall|i: int|
                hottest.len() - h.epochs <= i < hottest.len() ==> #[trigger] hottest[i]
                    == hottest.last()
            &&& h.epochs < hottest.len() ==> hottest[hottest.len() - h.epochs - 1]
                != hottest.last()
        }),
    decreases hottest.len(),
{
    let rest = hottest.drop_last();
    if rest.len() > 0 {
        law_hot_streak_is_the_last_run(rest);
        let h = hot_over(hottest);
        let g = hot_over(rest);
        if rest.last() == hottest.last() {
            assert forall|i: int| hottest.len() - h.epochs <= i < hottest.len() implies
                #[trigger] hottest[i] == hottest.last() by {
                if i < rest.len() {
                    assert(rest[i] == hottest[i]);
                }
            }
            if h.epochs < hottest.len() {
                assert(rest[rest.len() - g.epochs - 1] == hottest[hottest.len() - h.epochs - 1]);
            }
        } else {
            assert(hottest[hottest.len() - 2] == rest.last());
        }
    }
}

/// An expert's streak is how many epochs in a row, up to the last, it had more than 0.70 of the routing,
/// as far as it can be counted: it did in each of them, and not in the one before.
pub proof fn law_dominance_is_the_last_run(shares: Seq<u32>)
    ensures
        ({
            let h = dominance_over(shares) as int;
            &&& h <= shares.len()
            &&& forall|i: int|
                shares.len() - h <= i < shares.len() ==> 0x3F33_3333 < #[trigger] shares[i]
                    <= 0x7F80_0000
            &&& h < 255 && h < shares.len() ==> !(0x3F33_3333 < shares[shares.len() - h - 1]
                <= 0x7F80_0000)
        }),
    decreases shares.len(),
{
    if shares.len() > 0 {
        let rest = shares.drop_last();
        law_dominance_is_the_last_run(rest);
        let h = dominance_over(shares) as int;
        let g = dominance_over(rest) as int;
        assert forall|i: int| shares.len() - h <= i < shares.len() implies 0x3F33_3333
            < #[trigger] shares[i] <= 0x7F80_0000 by {
            if i < rest.len() {
                assert(rest[i] == shares[i]);
            }
        }
        if h < 255 && h < shares.len() {
            if h > 0 {
                assert(h == g + 1);
                assert(rest[rest.len() - g - 1] == shares[shares.len() - h - 1]);
            }
        }
    }
}

/// Each expert is counted by its own share; an expert without a share keeps its count.
pub proof fn law_experts_are_counted_apart(streaks: Seq<u8>, shares: Seq<u32>, e: int)
    requires
        0 <= e < streaks.len(),
    ensures
        ({
            let after = dominances_after(streaks, shares);
            let leads = e < shares.len() && 0x3F33_3333 < shares[e] <= 0x7F80_0000;
            &&& after.len() == streaks.len()
            &&& leads && streaks[e] < 255 ==> after[e] == streaks[e] + 1
            &&& leads && streaks[e] == 255 ==> after[e] == 255
            &&& e < shares.len() && !leads ==> after[e] == 0
            &&& e >= shares.len() ==> after[e] == streaks[e]
        }),
{
}

/// The experts that are warned of are those that have dominated for three epochs or more, each once, in
/// rising order, with how long they have.
pub proof fn law_warnings_name_all_that_dominate(streaks: Seq<u8>, e: int)
    requires
        streaks.len() <= usize::MAX,
    ensures
        0 <= e < streaks.len() && streaks[e] >= 3 ==> warnings_in(streaks).contains(
            (e as usize, streaks[e]),
        ),
        forall|k: int|
            #![trigger warnings_in(streaks)[k]]
            0 <= k < warnings_in(streaks).len() ==> {
                let (x, n) = warnings_in(streaks)[k];
                x < streaks.len() && n == streaks[x as int] && n >= 3
            },
        forall|j: int, k: int|
            #![trigger warnings_in(streaks)[j], warnings_in(streaks)[k]]
            0 <= j < k < warnings_in(streaks).len() ==> warnings_in(streaks)[j].0 < warnings_in(
                streaks,
            )[k].0,
    decreases streaks.len(),
{
    if streaks.len() > 0 {
        let rest = streaks.drop_last();
        let head = warnings_in(rest);
        let all = warnings_in(streaks);
        law_warnings_name_all_that_dominate(rest, e);
        assert forall|k: int| #![trigger all[k]] 0 <= k < all.len() implies {
            let (x, n) = all[k];
            x < streaks.len() && n == streaks[x as int] && n >= 3
        } by {
            if k < head.len() {
                assert(all[k] == head[k]);
                assert(rest[head[k].0 as int] == streaks[head[k].0 as int]);
            }
        }
        assert forall|j: int, k: int| #![trigger all[j], all[k]] 0 <= j < k < all.len() implies all[j].0
            < all[k].0 by {
            assert(all[j] == head[j]);
            if k < head.len() {
                assert(all[k] == head[k]);
            }
        }
        if 0 <= e < streaks.len() && streaks[e] >= 3 {
            if e < rest.len() {
                assert(rest[e] == streaks[e]);
                let k = choose|k: int| 0 <= k < head.len() && head[k] == (e as usize, streaks[e]);
                assert(all[k] == head[k]);
            } else {
                assert(all[all.len() - 1] == (e as usize, streaks[e]));
            }
        }
    }
}

} // verus!
