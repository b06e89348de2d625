//! The steps of the optimizer: which batches count, which are thrown away, and which gradients are
//! clipped or boosted.
use crate::fraction::{below, finite, is_below, is_finite};
use crate::names::{block_prefix, layer_in, layer_slot, lemma_block_prefix_layer};
use crate::text::starts_with;
use vstd::prelude::*;

verus! {

/// The bits of 11.0. A batch whose loss lies above it has blown the weights up.
pub const LOSS_EXPLOSION_THRESHOLD: u32 = 0x4130_0000;

/// The bits of 1.0. Gradients of a larger norm are scaled down to it.
pub const MAX_GRAD_NORM: u32 = 0x3F80_0000;

/// The bits of 0.005. A layer whose gradient norm lies below it is cold.
pub const COLD_NORM: u32 = 0x3BA3_D70A;

/// The loss is no number, an infinity, or too large to have come from sound weights.
pub open spec fn is_explosion(loss: u32) -> bool {
    !is_finite(loss) || is_below(LOSS_EXPLOSION_THRESHOLD, loss)
}

/// Whether a loss shows that the weights have blown up.
pub fn explosion(loss: u32) -> (r: bool)
    ensures
        r == is_explosion(loss),
{
    !finite(loss) || below(LOSS_EXPLOSION_THRESHOLD, loss)
}

/// The steps of a run, and the batches of the current epoch.
#[derive(Clone, Copy, Debug, PartialEq, Eq, Structural)]
pub struct Steps {
    /// The batches since the last surgery.
    pub step: usize,
    /// A loss of the current window exploded.
    pub exploded: bool,
    /// The batches of the current window, which is not closed yet.
    pub held: u32,
    /// The batches of the epoch's closed windows that were not thrown away: those that its average loss
    /// is taken over.
    pub counted: u32,
    /// The steps of the epoch whose gradients were clipped.
    pub clipped: u32,
    /// The windows of the epoch that were thrown away.
    pub skipped: u32,
}

/// What happens to the gradients after a batch.
#[derive(Clone, Copy, Debug, PartialEq, Eq, Structural)]
pub enum WindowEnd {
    /// They are kept for the batches to come.
    Hold,
    /// They are thrown away, and nothing more is done in this batch.
    Skip,
    /// The optimizer uses them.
    Step,
}

/// A run at its first batch.
pub open spec fn no_steps() -> Steps {
    Steps { step: 0, exploded: false, held: 0, counted: 0, clipped: 0, skipped: 0 }
}

/// The state at the start of an epoch.
pub open spec fn at_epoch(s: Steps) -> Steps {
    Steps { step: s.step, ..no_steps() }
}

/// The window has exploded once this loss is known.
pub open spec fn explodes(s: Steps, loss: u32) -> bool {
    s.exploded || is_explosion(loss)
}

/// What happens after a batch with this loss.
pub open spec fn window_end(s: Steps, loss: u32, closes: bool) -> WindowEnd {
    if !closes {
        WindowEnd::Hold
    } else if explodes(s, loss) {
        WindowEnd::Skip
    } else {
        WindowEnd::Step
    }
}

/// The state after a batch with this loss. The batches of a window count in the average once it closes,
/// and not at all where it is thrown away; a batch that closes such a window ends there.
pub open spec fn after_loss(s: Steps, loss: u32, closes: bool) -> Steps {
    let skip = window_end(s, loss, closes) is Skip;
    Steps {
        step: if skip {
            (s.step + 1) as usize
        } else {
            s.step
        },
        exploded: !closes && explodes(s, loss),
        held: if closes {
            0
        } else {
            (s.held + 1) as u32
        },
        counted: if closes && !skip {
            (s.counted + s.held + 1) as u32
        } else {
            s.counted
        },
        clipped: s.clipped,
        skipped: if skip {
            (s.skipped + 1) as u32
        } else {
            s.skipped
        },
    }
}

impl Steps {
    /// A run at its first batch.
    pub fn new() -> (r: Steps)
        ensures
            r == no_steps(),
    {
        Steps { step: 0, exploded: false, held: 0, counted: 0, clipped: 0, skipped: 0 }
    }

    /// Begins an epoch.
    pub fn begin_epoch(&mut self)
        ensures
            *final(self) == at_epoch(*old(self)),
    {
        self.exploded = false;
        self.held = 0;
        self.counted = 0;
        self.clipped = 0;
        self.skipped = 0;
    }

    /// Whether the gradients of the next batch are wanted: not in a window that is lost already.
    pub fn wants_gradients(&self) -> (r: bool)
        ensures
            r == !self.exploded,
    {
        !self.exploded
    }

    /// Takes the loss of a batch, which closes its window or not.
    pub fn take_loss(&mut self, loss: u32, closes: bool) -> (r: WindowEnd)
        requires
            old(self).step < usize::MAX,
            old(self).counted + old(self).held < u32::MAX,
            old(self).skipped < u32::MAX,
        ensures
            r == window_end(*old(self), loss, closes),
            *final(self) == after_loss(*old(self), loss, closes),
    {
        if explosion(loss) {
            self.exploded = true;
        }
        if !closes {
            self.held = self.held + 1;
            WindowEnd::Hold
        } else if self.exploded {
            self.skipped = self.skipped + 1;
            self.exploded = false;
            self.held = 0;
            self.step = self.step + 1;
            WindowEnd::Skip
        } else {
            self.counted = self.counted + self.held + 1;
            self.held = 0;
            WindowEnd::Step
        }
    }

    /// Takes the norm of all gradients of a step, and says whether they have to be clipped.
    pub fn take_norm(&mut self, norm: u32) -> (r: bool)
        requires
            old(self).clipped < u32::MAX,
        ensures
            r == (is_below(MAX_GRAD_NORM, norm) && is_finite(norm)),
            *final(self) == (Steps {
                clipped: (old(self).clipped + (if r {
                    1int
                } else {
                    0
                })) as u32,
                ..*old(self)
            }),
    {
        let clips: bool = below(MAX_GRAD_NORM, norm) && finite(norm);
        if clips {
            self.clipped = self.clipped + 1;
        }
        clips
    }

    /// Ends a batch whose window was not thrown away.
    pub fn end_batch(&mut self)
        requires
            old(self).step < usize::MAX,
        ensures
            *final(self) == (Steps { step: (old(self).step + 1) as usize, ..*old(self) }),
    {
        self.step = self.step + 1;
    }

    /// Starts counting anew after a surgery.
    pub fn restart(&mut self)
        ensures
            *final(self) == (Steps { step: 0, ..*old(self) }),
    {
        self.step = 0;
    }
}

/// The state after a whole batch.
pub open spec fn after_batch(s: Steps, loss: u32, closes: bool) -> Steps {
    let t = after_loss(s, loss, closes);
    if window_end(s, loss, closes) is Skip {
        t
    } else {
        Steps { step: (t.step + 1) as usize, ..t }
    }
}

/// The state after the batches of an epoch, each of which closes its window.
pub open spec fn after_batches(s: Steps, losses: Seq<u32>) -> Steps
    decreases losses.len(),
{
    if losses.len() == 0 {
        s
    } else {
        after_batch(after_batches(s, losses.drop_last()), losses.last(), true)
    }
}

/// How many of the losses exploded.
pub open spec fn explosions(losses: Seq<u32>) -> nat
    decreases losses.len(),
{
    if losses.len() == 0 {
        0
    } else {
        explosions(losses.drop_last()) + if is_explosion(losses.last()) {
            1nat
        } else {
            0
        }
    }
}

/// Each batch is one step further, whether it was thrown away or not; as many are thrown away as
/// exploded, and the others, no more and no fewer, count in the average; no explosion outlives its
/// batch.
pub proof fn law_only_sound_batches_count(s: Steps, losses: Seq<u32>)
    requires
        s == at_epoch(s),
        s.step + losses.len() <= usize::MAX,
        losses.len() <= u32::MAX,
    ensures
        ({
            let t = after_batches(s, losses);
            &&& t.step == s.step + losses.len()
            &&& t.skipped == explosions(losses)
            &&& t.counted + t.skipped == losses.len()
            &&& t.held == 0
            &&& !t.exploded
        }),
    decreases losses.len(),
{
    if losses.len() > 0 {
        law_only_sound_batches_count(s, losses.drop_last());
    }
}

/// The state after a window: all its batches but the last leave it open.
pub open spec fn after_window(s: Steps, losses: Seq<u32>) -> Steps {
    after_batch(while_open(s, losses.drop_last()), losses.last(), true)
}

/// The state after batches that leave their window open.
pub open spec fn while_open(s: Steps, losses: Seq<u32>) -> Steps
    decreases losses.len(),
{
    if losses.len() == 0 {
        s
    } else {
        after_batch(while_open(s, losses.drop_last()), losses.last(), false)
    }
}

/// A window counts as a whole or not at all, however long it is: where none of its losses exploded all
/// its batches count in the average, and where one did none does, and the window is thrown away. Either
/// way nothing of it is left over, and each batch is one step further.
pub proof fn law_window_counts_as_a_whole(s: Steps, losses: Seq<u32>)
    requires
        losses.len() > 0,
        s.held == 0,
        !s.exploded,
        s.step + losses.len() <= usize::MAX,
        s.counted + losses.len() <= u32::MAX,
        s.skipped < u32::MAX,
    ensures
        ({
            let t = after_window(s, losses);
            &&& t.step == s.step + losses.len()
            &&& t.counted == s.counted + (if explosions(losses) == 0 {
                losses.len() as int
            } else {
                0
            })
            &&& t.skipped == s.skipped + (if explosions(losses) == 0 {
                0int
            } else {
                1
            })
            &&& t.held == 0
            &&& !t.exploded
            &&& t.clipped == s.clipped
        }),
{
    lemma_while_open(s, losses.drop_last());
}

/// While a window is open its batches are held, and an explosion stays.
proof fn lemma_while_open(s: Steps, losses: Seq<u32>)
    requires
        s.held == 0,
        !s.exploded,
        s.step + losses.len() <= usize::MAX,
        losses.len() <= u32::MAX,
    ensures
        while_open(s, losses) == (Steps {
            step: (s.step + losses.len()) as usize,
            exploded: explosions(losses) > 0,
            held: losses.len() as u32,
            ..s
        }),
    decreases losses.len(),
{
    if losses.len() > 0 {
        lemma_while_open(s, losses.drop_last());
    }
}

/// The weights change only on sound losses: where the optimizer steps, neither the loss of that batch
/// nor an earlier one of its window exploded, and the gradients of the batch were wanted.
pub proof fn law_explosions_never_step(s: Steps, loss: u32, closes: bool)
    ensures
        window_end(s, loss, closes) is Step ==> !is_explosion(loss) && !s.exploded,
        is_explosion(loss) && !closes ==> after_loss(s, loss, closes).exploded,
        s.exploded && closes ==> window_end(s, loss, closes) is Skip,
{
}

/// The tensor belongs to a layer whose gradient norm is cold.
pub open spec fn is_cold(name: Seq<char>, norms: Seq<u32>) -> bool {
    layer_in(name) matches Some(l) && l < norms.len() && is_below(norms[l as int], COLD_NORM)
}

/// Whether the tensor belongs to a layer whose gradient norm is cold.
pub fn cold(name: &String, norms: &Vec<u32>) -> (r: bool)
    ensures
        r == is_cold(name@, norms@),
{
    match layer_slot(name.as_str(), norms.len()) {
        Some(l) => below(norms[l], COLD_NORM),
        None => false,
    }
}

/// Which variables have a gradient, and which do not: those of blocks, and those of the embedding and
/// the output.
#[derive(Clone, Copy, Debug, PartialEq, Eq, Structural)]
pub struct GradCensus {
    pub block_with: usize,
    pub block_without: usize,
    pub other_with: usize,
    pub other_without: usize,
}

/// The census with one more variable, which counts toward the norm in `slot`.
pub open spec fn census_after(c: GradCensus, slot: int, num_layers: int, has: bool) -> GradCensus {
    if slot < num_layers {
        if has {
            GradCensus { block_with: (c.block_with + 1) as usize, ..c }
        } else {
            GradCensus { block_without: (c.block_without + 1) as usize, ..c }
        }
    } else if has {
        GradCensus { other_with: (c.other_with + 1) as usize, ..c }
    } else {
        GradCensus { other_without: (c.other_without + 1) as usize, ..c }
    }
}

impl GradCensus {
    /// How many variables were counted.
    pub open spec fn counted(&self) -> nat {
        (self.block_with + self.block_without + self.other_with + self.other_without) as nat
    }

    /// No variable yet.
    pub fn new() -> (r: GradCensus)
        ensures
            r.counted() == 0,
    {
        GradCensus { block_with: 0, block_without: 0, other_with: 0, other_without: 0 }
    }

    /// Counts a variable, which counts toward the norm in `slot`.
    pub fn count(&mut self, slot: usize, num_layers: usize, has: bool)
        requires
            old(self).counted() < usize::MAX,
        ensures
            *final(self) == census_after(*old(self), slot as int, num_layers as int, has),
            final(self).counted() == old(self).counted() + 1,
    {
        if slot < num_layers {
            if has {
                self.block_with = self.block_with + 1;
            } else {
                self.block_without = self.block_without + 1;
            }
        } else if has {
            self.other_with = self.other_with + 1;
        } else {
            self.other_without = self.other_without + 1;
        }
    }
}

/// A loss has exploded exactly where it is above 11.0, or an infinity, or no number.
pub proof fn law_losses_explode_above_eleven(loss: u32)
    ensures
        is_explosion(loss) <==> 0x4130_0000 < loss < 0x8000_0000 || loss >= 0xFF80_0000,
{
}

/// Gradients are clipped exactly where their norm is above 1.0 and finite.
pub proof fn law_gradients_are_clipped_above_one(norm: u32)
    ensures
        is_below(MAX_GRAD_NORM, norm) && is_finite(norm) <==> 0x3F80_0000 < norm < 0x7F80_0000,
{
}

/// A tensor is cold exactly where it lies under a layer whose norm is below 0.005.
pub proof fn law_cold_tensors_lie_under_cold_layers(
    l: nat,
    tail: Seq<char>,
    name: Seq<char>,
    norms: Seq<u32>,
)
    requires
        l <= usize::MAX,
    ensures
        is_cold(block_prefix(l) + tail, norms) <==> l < norms.len() && (norms[l as int] < 0x3BA3_D70A
            || 0x8000_0000 <= norms[l as int] <= 0xFF80_0000),
        !starts_with(name, "blocks."@) ==> !is_cold(name, norms),
{
    lemma_block_prefix_layer(l, tail);
}

/// A variable is counted among the blocks' exactly where its slot is a layer's, and among those with a
/// gradient exactly where it has one.
pub proof fn law_census_sorts_variables(c: GradCensus, slot: nat, num_layers: nat, has: bool)
    requires
        c.counted() < usize::MAX,
    ensures
        ({
            let d = census_after(c, slot as int, num_layers as int, has);
            &&& d.block_with + d.block_without == c.block_with + c.block_without + (if slot
                < num_layers {
                1int
            } else {
                0
            })
            &&& d.other_with + d.other_without == c.other_with + c.other_without + (if slot
                < num_layers {
                0int
            } else {
                1
            })
            &&& d.block_with + d.other_with == c.block_with + c.other_with + (if has {
                1int
            } else {
                0
            })
            &&& d.block_without + d.other_without == c.block_without + c.other_without + (if has {
                0int
            } else {
                1
            })
        }),
{
}

/// A batch ends in one of three ways: the gradients are held while the window is open; once it closes
/// they are used where no loss of the window exploded, and thrown away otherwise.
pub proof fn law_window_ends(s: Steps, loss: u32, closes: bool)
    requires
        s.step < usize::MAX,
        s.counted + s.held < u32::MAX,
        s.skipped < u32::MAX,
    ensures
        ({
            let end = window_end(s, loss, closes);
            let t = after_batch(s, loss, closes);
            let lost = s.exploded || 0x4130_0000 < loss < 0x8000_0000 || loss >= 0xFF80_0000;
            &&& end == WindowEnd::Hold <==> !closes
            &&& end == WindowEnd::Skip <==> closes && lost
            &&& end == WindowEnd::Step <==> closes && !lost
            &&& t.step == s.step + 1
            &&& t.clipped == s.clipped
            &&& t.held + t.counted + (if end is Skip {
                s.held + 1
            } else {
                0
            }) == s.held + s.counted + 1
            &&& t.exploded == (lost && !closes)
        }),
{
}

/// An epoch starts afresh, whatever the one before it left: nothing is counted, held, clipped or thrown
/// away yet. Only the steps go on.
pub proof fn law_epochs_start_afresh(s: Steps, t: Steps)
    ensures
        at_epoch(s).step == s.step,
        at_epoch(s).counted == 0 && at_epoch(s).held == 0 && at_epoch(s).clipped == 0 && at_epoch(
            s,
        ).skipped == 0 && !at_epoch(s).exploded,
        s.step == t.step ==> at_epoch(s) == at_epoch(t),
        no_steps() == at_epoch(no_steps()) && no_steps().step == 0,
{
}

} // verus!
