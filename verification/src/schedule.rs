//! What a run does at which epoch and at which batch.
use crate::fraction::{is_wide_positive, is_wide_zero, wide_positive, wide_zero};
use vstd::prelude::*;

verus! {

/// The epoch from which on the weight of the divergence loss falls.
pub const DIV_DECAY_START_EPOCH: usize = 105;

/// The first epoch without divergence loss.
pub const DIV_DECAY_END_EPOCH: usize = 125;

/// How many batches make up one step of the optimizer.
pub const GRAD_ACCUM_STEPS: usize = 1;

/// After how many steps the learning rate starts over.
pub const LR_CYCLE_STEPS: usize = 500;

/// Where an epoch stands in the schedule of the divergence loss.
#[derive(Clone, Copy, Debug, PartialEq, Eq, Structural)]
pub enum DivStage {
    /// The loss has its full weight.
    Start,
    /// The weight is `elapsed / span` of the way from its first to its last value.
    Decay { elapsed: usize, span: usize },
    /// There is no divergence loss any more.
    Off,
}

/// The stage of an epoch.
pub open spec fn div_stage_of(epoch: int) -> DivStage {
    if epoch < DIV_DECAY_START_EPOCH {
        DivStage::Start
    } else if epoch >= DIV_DECAY_END_EPOCH {
        DivStage::Off
    } else {
        DivStage::Decay {
            elapsed: (epoch - DIV_DECAY_START_EPOCH) as usize,
            span: (DIV_DECAY_END_EPOCH - DIV_DECAY_START_EPOCH - 1) as usize,
        }
    }
}

/// The stage of an epoch.
pub fn div_stage(epoch: usize) -> (r: DivStage)
    ensures
        r == div_stage_of(epoch as int),
{
    if epoch < DIV_DECAY_START_EPOCH {
        DivStage::Start
    } else if epoch >= DIV_DECAY_END_EPOCH {
        DivStage::Off
    } else {
        DivStage::Decay {
            elapsed: epoch - DIV_DECAY_START_EPOCH,
            span: DIV_DECAY_END_EPOCH - DIV_DECAY_START_EPOCH - 1,
        }
    }
}

/// The divergence loss counts in an epoch: a fixed weight does where it is above zero, the schedule
/// until it is off.
pub open spec fn div_counts_of(fixed: Option<u64>, epoch: int) -> bool {
    match fixed {
        Some(w) => is_wide_positive(w),
        None => !(div_stage_of(epoch) is Off),
    }
}

/// Whether the divergence loss counts in an epoch.
pub fn div_counts(fixed: Option<u64>, epoch: usize) -> (r: bool)
    ensures
        r == div_counts_of(fixed, epoch as int),
{
    match fixed {
        Some(w) => wide_positive(w),
        None => match div_stage(epoch) {
            DivStage::Off => false,
            _ => true,
        },
    }
}

/// How far along the decay an epoch is, in parts of its span; none once the loss is off.
pub open spec fn decay_position(epoch: int) -> Option<int> {
    match div_stage_of(epoch) {
        DivStage::Start => Some(0),
        DivStage::Decay { elapsed, .. } => Some(elapsed as int),
        DivStage::Off => None,
    }
}

/// The divergence loss only ever weakens: a later epoch is at least as far along the decay. The
/// decay begins and ends with the full and the last weight, and once off the loss stays off.
pub proof fn law_div_weight_never_rises(a: nat, b: nat)
    requires
        a <= b,
    ensures
        decay_position(b as int) matches Some(q) ==> (decay_position(a as int) matches Some(p) && p
            <= q),
        div_stage_of(b as int) matches DivStage::Decay { elapsed, span } ==> 0 <= elapsed <= span
            && span == 19,
        decay_position(DIV_DECAY_START_EPOCH as int) == Some(0int),
        decay_position(DIV_DECAY_END_EPOCH - 1) == Some(19int),
{
}

/// How strong the load-balancing loss is in an epoch.
#[derive(Clone, Copy, Debug, PartialEq, Eq, Structural)]
pub enum LbStrength {
    /// There is none.
    Off,
    /// It is still coming in: a tenth, and `part / of` of the rest.
    Ramp { part: usize, of: usize },
    /// It has its full weight.
    Full,
}

/// The strength in the `nth` epoch with a load-balancing loss, counted from one.
pub open spec fn lb_strength_of(weight: u64, nth: int, ramp_epochs: int) -> LbStrength {
    if is_wide_zero(weight) {
        LbStrength::Off
    } else if nth <= ramp_epochs {
        LbStrength::Ramp {
            part: (nth - 1) as usize,
            of: (if ramp_epochs == 0 {
                1
            } else {
                ramp_epochs
            }) as usize,
        }
    } else {
        LbStrength::Full
    }
}

/// The epochs that a run has had with a load-balancing loss.
pub struct LbRamp {
    /// Their number.
    pub epochs: usize,
}

impl LbRamp {
    /// None yet.
    pub fn new() -> (r: LbRamp)
        ensures
            r.epochs == 0,
    {
        LbRamp { epochs: 0 }
    }

    /// Begins an epoch, and says how strong the loss is in it.
    pub fn begin_epoch(&mut self, weight: u64, ramp_epochs: usize) -> (r: LbStrength)
        requires
            is_wide_zero(weight) || is_wide_positive(weight),
            old(self).epochs < usize::MAX,
        ensures
            final(self).epochs == old(self).epochs + (if is_wide_positive(weight) {
                1int
            } else {
                0
            }),
            r == lb_strength_of(weight, final(self).epochs as int, ramp_epochs as int),
    {
        if wide_positive(weight) {
            self.epochs = self.epochs + 1;
        }
        if wide_zero(weight) {
            LbStrength::Off
        } else if self.epochs <= ramp_epochs {
            LbStrength::Ramp {
                part: self.epochs - 1,
                of: if ramp_epochs == 0 {
                    1
                } else {
                    ramp_epochs
                },
            }
        } else {
            LbStrength::Full
        }
    }
}

/// The load-balancing loss comes in from a tenth on, never weakens from one epoch to the next, and
/// has its full weight after the ramp.
pub proof fn law_lb_ramp_rises(weight: u64, nth: nat, ramp_epochs: nat)
    requires
        is_wide_positive(weight),
        1 <= nth < usize::MAX,
        ramp_epochs <= usize::MAX,
    ensures
        lb_strength_of(weight, nth as int, ramp_epochs as int) matches LbStrength::Ramp { part, of }
            ==> part < of && part == nth - 1 && of == ramp_epochs,
        lb_strength_of(weight, nth as int, ramp_epochs as int) is Full <==> nth > ramp_epochs,
        lb_strength_of(weight, nth as int, ramp_epochs as int) is Full ==> lb_strength_of(
            weight,
            nth + 1int,
            ramp_epochs as int,
        ) is Full,
        !(lb_strength_of(weight, nth as int, ramp_epochs as int) is Off),
{
}

/// What is due at a batch.
#[derive(Clone, Copy, Debug, PartialEq, Eq, Structural)]
pub struct BatchPlan {
    /// Where in its cycle the learning rate is.
    pub lr_phase: usize,
    /// The optimizer steps after this batch.
    pub steps: bool,
    /// The divergence of the experts is measured.
    pub diverges: bool,
    /// The routing lines are written.
    pub routes: bool,
    /// The line of gradient norms is written.
    pub grads: bool,
    /// The line of the device's memory is written.
    pub memory: bool,
    /// The line of weights is written, on a device that is no processor.
    pub weights: bool,
}

/// The optimizer steps after the batch: it is the last of its window, or of the epoch.
pub open spec fn closes_window(batch: int, num_batches: int) -> bool {
    (batch + 1) % (GRAD_ACCUM_STEPS as int) == 0 || batch + 1 == num_batches
}

/// What is due at a batch of an epoch. `fixed` is the weight of the divergence loss where it is fixed for
/// the run, in place of the schedule.
pub open spec fn batch_plan_of(
    step: int,
    epoch: int,
    batch: int,
    num_batches: int,
    fixed: Option<u64>,
    on_processor: bool,
) -> BatchPlan {
    BatchPlan {
        lr_phase: (step % (LR_CYCLE_STEPS as int)) as usize,
        steps: closes_window(batch, num_batches),
        diverges: closes_window(batch, num_batches) && div_counts_of(fixed, epoch),
        routes: batch % 10 == 0 || batch == 5,
        grads: batch % 10 == 0 && batch > 0,
        memory: batch % 4 == 0,
        weights: batch % 30 == 0 && batch > 0 && !on_processor,
    }
}

/// What is due at a batch of an epoch.
pub fn batch_plan(
    step: usize,
    epoch: u32,
    batch: usize,
    num_batches: usize,
    fixed: Option<u64>,
    on_processor: bool,
) -> (r: BatchPlan)
    requires
        batch < num_batches,
    ensures
        r == batch_plan_of(
            step as int,
            epoch as int,
            batch as int,
            num_batches as int,
            fixed,
            on_processor,
        ),
{
    let steps: bool = (batch + 1) % GRAD_ACCUM_STEPS == 0 || batch + 1 == num_batches;
    BatchPlan {
        lr_phase: step % LR_CYCLE_STEPS,
        steps,
        diverges: steps && div_counts(fixed, epoch as usize),
        routes: batch % 10 == 0 || batch == 5,
        grads: batch % 10 == 0 && batch > 0,
        memory: batch % 4 == 0,
        weights: batch % 30 == 0 && batch > 0 && !on_processor,
    }
}

/// The last batch of an epoch always closes its window, so that no gradient is carried into the next
/// epoch; the costly lines are never written at the first batch; and where the gradient norms are
/// written, so is the routing. The divergence is measured where the optimizer steps and the loss counts:
/// with a fixed weight above zero in every epoch, with any other fixed weight in none.
pub proof fn law_batch_plan(
    step: nat,
    epoch: nat,
    batch: nat,
    num_batches: nat,
    fixed: Option<u64>,
    on_processor: bool,
)
    requires
        batch < num_batches,
    ensures
        ({
            let p = batch_plan_of(
                step as int,
                epoch as int,
                batch as int,
                num_batches as int,
                fixed,
                on_processor,
            );
            &&& batch + 1 == num_batches ==> p.steps
            &&& batch == 0 ==> !p.grads && !p.weights
            &&& p.grads ==> p.routes
            &&& p.diverges ==> p.steps && div_counts_of(fixed, epoch as int)
            &&& fixed matches Some(w) ==> p.diverges == (p.steps && is_wide_positive(w))
            &&& fixed is None && epoch >= DIV_DECAY_END_EPOCH ==> !p.diverges
            &&& p.lr_phase < LR_CYCLE_STEPS
        }),
{
}

/// The learning rate goes once through its cycle in five hundred steps: each step is one further, up to
/// the end of the cycle, and five hundred steps later it is where it was.
pub proof fn law_learning_rate_goes_through_its_cycle(
    step: nat,
    epoch: nat,
    batch: nat,
    num_batches: nat,
    fixed: Option<u64>,
    on_processor: bool,
)
    ensures
        ({
            let phase = |s: nat|
                batch_plan_of(
                    s as int,
                    epoch as int,
                    batch as int,
                    num_batches as int,
                    fixed,
                    on_processor,
                ).lr_phase;
            &&& step < 500 ==> phase(step) == step
            &&& phase(step + 500) == phase(step)
            &&& phase(step + 1) == (if phase(step) == 499 {
                0int
            } else {
                phase(step) + 1
            })
        }),
{
}

/// When lines are due: the routing at every tenth batch and at the sixth, the gradient norms at every
/// tenth but the first, the memory at every fourth, and the weights at every thirtieth but the first
/// where there is a device for them; at no other batch. The optimizer steps after every batch.
pub proof fn law_lines_are_due_in_turn(
    step: nat,
    epoch: nat,
    batch: nat,
    num_batches: nat,
    fixed: Option<u64>,
    on_processor: bool,
    k: nat,
)
    requires
        batch < num_batches,
    ensures
        ({
            let p = batch_plan_of(
                step as int,
                epoch as int,
                batch as int,
                num_batches as int,
                fixed,
                on_processor,
            );
            &&& batch == 10 * k ==> p.routes && p.grads == (k > 0)
            &&& 10 * k < batch < 10 * (k + 1) ==> !p.grads && p.routes == (batch == 5)
            &&& batch == 4 * k ==> p.memory
            &&& 4 * k < batch < 4 * (k + 1) ==> !p.memory
            &&& batch == 30 * k ==> p.weights == (k > 0 && !on_processor)
            &&& 30 * k < batch < 30 * (k + 1) ==> !p.weights
            &&& p.steps
            &&& fixed is None ==> p.diverges == (epoch < 125)
            &&& fixed matches Some(w) ==> p.diverges == (0 < w <= 0x7FF0_0000_0000_0000)
        }),
{
}

/// The weight of the divergence loss is whole up to epoch 105, falls in even parts of nineteen over the
/// twenty epochs from there on, and is nothing from epoch 125 on.
pub proof fn law_div_weight_falls_evenly(epoch: nat)
    ensures
        div_stage_of(epoch as int) is Start <==> epoch < 105,
        div_stage_of(epoch as int) is Off <==> epoch >= 125,
        div_stage_of(epoch as int) matches DivStage::Decay { elapsed, span } ==> 105 + elapsed == epoch
            && span == 19,
{
}

/// There is no load-balancing loss exactly where its weight is zero, whatever the sign of the zero.
pub proof fn law_lb_off_at_zero(weight: u64, nth: nat, ramp_epochs: nat)
    requires
        1 <= nth <= usize::MAX,
        ramp_epochs <= usize::MAX,
    ensures
        lb_strength_of(weight, nth as int, ramp_epochs as int) is Off <==> weight == 0 || weight
            == 0x8000_0000_0000_0000,
        ramp_epochs == 0 && weight != 0 && weight != 0x8000_0000_0000_0000 ==> lb_strength_of(
            weight,
            nth as int,
            ramp_epochs as int,
        ) is Full,
{
}

/// The seconds that the rest of an epoch takes, if it goes on as it went so far; zero at the first
/// batch.
pub open spec fn remaining_of(elapsed: int, batch: int, num_batches: int) -> int {
    if batch > 0 {
        elapsed * (num_batches - batch) / batch
    } else {
        0
    }
}

/// The seconds that the rest of an epoch takes.
pub fn remaining_seconds(elapsed: u64, batch: usize, num_batches: usize) -> (r: u64)
    requires
        batch <= num_batches,
        batch > 0 ==> elapsed * (num_batches - batch) <= u64::MAX,
    ensures
        r == remaining_of(elapsed as int, batch as int, num_batches as int),
{
    if batch > 0 {
        elapsed * (num_batches as u64 - batch as u64) / batch as u64
    } else {
        0
    }
}

/// The estimate goes by the pace so far: as many batches as are left take, second by second, what they
/// would take if each took as long as those before, rounded down; nothing is left after the last batch.
pub proof fn law_remaining_time_keeps_the_pace(elapsed: nat, batch: nat, num_batches: nat)
    requires
        0 < batch <= num_batches,
    ensures
        remaining_of(elapsed as int, batch as int, num_batches as int) * batch <= elapsed * (num_batches
            - batch) < (remaining_of(elapsed as int, batch as int, num_batches as int) + 1) * batch,
        remaining_of(elapsed as int, num_batches as int, num_batches as int) == 0,
        remaining_of(elapsed as int, 0, num_batches as int) == 0,
{
    let x = elapsed * (num_batches - batch);
    let b = batch as int;
    vstd::arithmetic::div_mod::lemma_fundamental_div_mod(x, b);
    vstd::arithmetic::div_mod::lemma_mod_bound(x, b);
    let q = x / b;
    assert(q * b == b * q) by (nonlinear_arith);
    assert((q + 1) * b == b * q + b) by (nonlinear_arith);
    assert(elapsed * (num_batches - num_batches) == 0) by (nonlinear_arith);
    assert(0int / (num_batches as int) == 0) by (nonlinear_arith)
        requires
            num_batches > 0,
    ;
}

} // verus!
