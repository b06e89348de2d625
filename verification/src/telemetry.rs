//! The lines of the training log, which a dashboard reads.
//!
//! Fractions come as texts: how many digits they are shown with is up to the caller.
use crate::burst::{MAX_BURSTS_PER_EPOCH, TTL_FREEZE_GRAD_STEPS};
use crate::clock::{minutes_at, minutes_text};
use crate::fraction::{is_wide_zero, magnitude, wide_zero, SIGN};
use crate::names::{block_prefix, is_weight, layer_in, layer_slot, lemma_block_prefix_layer};
use crate::numerals::{
    all_digits, decimal, decimal_text, is_digit, lemma_decimal, number_in, number_up_to, parse_u64,
};
use crate::schedule::{DIV_DECAY_END_EPOCH, DIV_DECAY_START_EPOCH};
use crate::text::{
    before, char_views, chars_of, contains_text, is_white_space, join, join_texts,
    law_split_undoes_join, law_trim_takes_white_space_off, lemma_char_from_is, lemma_starts_with,
    part_before, split_chars, split_on, starts_with, trim, trim_chars, views,
};
use vstd::prelude::*;
use vstd::string::*;

verus! {

/// `s`, with spaces before it so that it is at least `width` long.
pub open spec fn pad_left(s: Seq<char>, width: nat) -> Seq<char> {
    if s.len() >= width {
        s
    } else {
        Seq::new((width - s.len()) as nat, |i: int| ' ') + s
    }
}

/// `s`, with spaces before it so that it is at least `width` long.
fn padded(s: &str, width: usize) -> (r: String)
    ensures
        r@ == pad_left(s@, width as nat),
{
    proof {
        reveal_strlit(" ");
    }
    let n: usize = s.unicode_len();
    let mut out: String = String::new();
    let mut i: usize = n;
    while i < width
        invariant
            n <= i,
            n < width ==> i <= width,
            n >= width ==> i == n,
            " "@ =~= seq![' '],
            out@ == Seq::new((i - n) as nat, |j: int| ' '),
        decreases width - i,
    {
        out.append(" ");
        i = i + 1;
        assert(out@ =~= Seq::new((i - n) as nat, |j: int| ' '));
    }
    out.append(s);
    assert(out@ =~= pad_left(s@, width as nat));
    out
}

/// The shape of the model, at the start of a training cycle.
pub open spec fn arch_line_of(layers: nat, hidden: nat, experts: nat, ctx: nat, vocab: nat) -> Seq<char> {
    "ARCH "@
        + decimal(layers)
        + "L "@
        + decimal(hidden)
        + "H "@
        + decimal(experts)
        + "E "@
        + decimal(ctx)
        + "CTX "@
        + decimal(vocab)
        + "V"@
}

/// The shape of the model, at the start of a training cycle.
pub fn arch_line(layers: usize, hidden: usize, experts: usize, ctx: usize, vocab: usize) -> (r: String)
    ensures
        r@ == arch_line_of(layers as nat, hidden as nat, experts as nat, ctx as nat, vocab as nat),
{
    let mut out: String = "ARCH ".to_owned();
    out.append(decimal_text(layers as u64).as_str());
    out.append("L ");
    out.append(decimal_text(hidden as u64).as_str());
    out.append("H ");
    out.append(decimal_text(experts as u64).as_str());
    out.append("E ");
    out.append(decimal_text(ctx as u64).as_str());
    out.append("CTX ");
    out.append(decimal_text(vocab as u64).as_str());
    out.append("V");
    out
}

/// The loss of a batch.
pub open spec fn batch_line_of(layers: nat, epoch: nat, batch: nat, loss: Seq<char>) -> Seq<char> {
    "Epoch "@
        + decimal(layers)
        + " (Global "@
        + decimal(epoch)
        + "), Batch "@
        + decimal(batch)
        + ": loss = "@
        + loss
}

/// The loss of a batch.
pub fn batch_line(layers: usize, epoch: u32, batch: usize, loss: &str) -> (r: String)
    ensures
        r@ == batch_line_of(layers as nat, epoch as nat, batch as nat, loss@),
{
    let mut out: String = "Epoch ".to_owned();
    out.append(decimal_text(layers as u64).as_str());
    out.append(" (Global ");
    out.append(decimal_text(epoch as u64).as_str());
    out.append("), Batch ");
    out.append(decimal_text(batch as u64).as_str());
    out.append(": loss = ");
    out.append(loss);
    out
}

/// The loss of a batch, in columns, with the time that the rest of the epoch takes.
pub open spec fn console_line_of(layers: nat, epoch: nat, batch: nat, num_batches: nat, loss: Seq<char>, rate: Seq<char>, millis: nat, left: nat) -> Seq<char> {
    "Epoch "@
        + pad_left(decimal(layers), 2)
        + "L (Global "@
        + pad_left(decimal(epoch), 4)
        + ") | "@
        + pad_left(decimal(batch), 3)
        + "/"@
        + decimal(num_batches)
        + " | Loss: "@
        + loss
        + " | LR: "@
        + rate
        + " | "@
        + pad_left(decimal(millis), 3)
        + "ms | ETA "@
        + minutes_text(left)
}

/// The loss of a batch, in columns, with the time that the rest of the epoch takes.
pub fn console_line(layers: usize, epoch: u32, batch: usize, num_batches: usize, loss: &str, rate: &str, millis: u64, left: u64) -> (r: String)
    ensures
        r@ == console_line_of(layers as nat, epoch as nat, batch as nat, num_batches as nat, loss@, rate@, millis as nat, left as nat),
{
    let mut out: String = "Epoch ".to_owned();
    out.append(padded(decimal_text(layers as u64).as_str(), 2).as_str());
    out.append("L (Global ");
    out.append(padded(decimal_text(epoch as u64).as_str(), 4).as_str());
    out.append(") | ");
    out.append(padded(decimal_text(batch as u64).as_str(), 3).as_str());
    out.append("/");
    out.append(decimal_text(num_batches as u64).as_str());
    out.append(" | Loss: ");
    out.append(loss);
    out.append(" | LR: ");
    out.append(rate);
    out.append(" | ");
    out.append(padded(decimal_text(millis).as_str(), 3).as_str());
    out.append("ms | ETA ");
    out.append(minutes_at(left).as_str());
    out
}

/// A loss that shows that the weights have blown up.
pub open spec fn critical_line_of(loss: Seq<char>, limit: Seq<char>, step: nat) -> Seq<char> {
    "[CRITICAL] loss="@
        + loss
        + " > "@
        + limit
        + " at step="@
        + decimal(step)
        + " — explosion, skipping accumulation window"@
}

/// A loss that shows that the weights have blown up.
pub fn critical_line(loss: &str, limit: &str, step: usize) -> (r: String)
    ensures
        r@ == critical_line_of(loss@, limit@, step as nat),
{
    let mut out: String = "[CRITICAL] loss=".to_owned();
    out.append(loss);
    out.append(" > ");
    out.append(limit);
    out.append(" at step=");
    out.append(decimal_text(step as u64).as_str());
    out.append(" — explosion, skipping accumulation window");
    out
}

/// The gradient norms: of all weights, of each layer, of the embedding and of the output.
pub open spec fn grad_line_of(step: nat, norm: Seq<char>, norms: Seq<Seq<char>>) -> Seq<char> {
    "GRAD step="@
        + decimal(step)
        + " n="@
        + norm
        + " L="@
        + join(norms, ","@)
}

/// The gradient norms: of all weights, of each layer, of the embedding and of the output.
pub fn grad_line(step: usize, norm: &str, norms: &Vec<String>) -> (r: String)
    ensures
        r@ == grad_line_of(step as nat, norm@, views(norms@)),
{
    let mut out: String = "GRAD step=".to_owned();
    out.append(decimal_text(step as u64).as_str());
    out.append(" n=");
    out.append(norm);
    out.append(" L=");
    out.append(join_texts(norms, ",").as_str());
    out
}

/// The memory of the device, in megabytes.
pub open spec fn memory_line_of(step: nat, used: nat, free: nat, total: nat) -> Seq<char> {
    "GPUMEM step="@
        + decimal(step)
        + " used="@
        + decimal(used)
        + "MB free="@
        + decimal(free)
        + "MB total="@
        + decimal(total)
        + "MB"@
}

/// The memory of the device, in megabytes.
pub fn memory_line(step: usize, used: u64, free: u64, total: u64) -> (r: String)
    ensures
        r@ == memory_line_of(step as nat, used as nat, free as nat, total as nat),
{
    let mut out: String = "GPUMEM step=".to_owned();
    out.append(decimal_text(step as u64).as_str());
    out.append(" used=");
    out.append(decimal_text(used).as_str());
    out.append("MB free=");
    out.append(decimal_text(free).as_str());
    out.append("MB total=");
    out.append(decimal_text(total).as_str());
    out.append("MB");
    out
}

/// How the routing is shared among the experts.
pub open spec fn route_line_of(step: nat, shares: Seq<Seq<char>>) -> Seq<char> {
    "ROUTE step="@
        + decimal(step)
        + " E="@
        + join(shares, ","@)
}

/// How the routing is shared among the experts.
pub fn route_line(step: usize, shares: &Vec<String>) -> (r: String)
    ensures
        r@ == route_line_of(step as nat, views(shares@)),
{
    let mut out: String = "ROUTE step=".to_owned();
    out.append(decimal_text(step as u64).as_str());
    out.append(" E=");
    out.append(join_texts(shares, ",").as_str());
    out
}

/// How evenly a layer routes.
pub open spec fn entropy_line_of(step: nat, entropy: Seq<char>) -> Seq<char> {
    "ENTR step="@
        + decimal(step)
        + " avg="@
        + entropy
}

/// How evenly a layer routes.
pub fn entropy_line(step: usize, entropy: &str) -> (r: String)
    ensures
        r@ == entropy_line_of(step as nat, entropy@),
{
    let mut out: String = "ENTR step=".to_owned();
    out.append(decimal_text(step as u64).as_str());
    out.append(" avg=");
    out.append(entropy);
    out
}

/// The load-balancing loss.
pub open spec fn balance_line_of(step: nat, loss: Seq<char>) -> Seq<char> {
    "LB step="@
        + decimal(step)
        + " val="@
        + loss
}

/// The load-balancing loss.
pub fn balance_line(step: usize, loss: &str) -> (r: String)
    ensures
        r@ == balance_line_of(step as nat, loss@),
{
    let mut out: String = "LB step=".to_owned();
    out.append(decimal_text(step as u64).as_str());
    out.append(" val=");
    out.append(loss);
    out
}

/// How open the gates between the streams are, and how alike the streams.
pub open spec fn cord_line_of(step: nat, gates: Seq<Seq<char>>, cosines: Seq<Seq<char>>) -> Seq<char> {
    "CORD step="@
        + decimal(step)
        + " gate=["@
        + join(gates, ","@)
        + "] cos=["@
        + join(cosines, ","@)
        + "]"@
}

/// How open the gates between the streams are, and how alike the streams.
pub fn cord_line(step: usize, gates: &Vec<String>, cosines: &Vec<String>) -> (r: String)
    ensures
        r@ == cord_line_of(step as nat, views(gates@), views(cosines@)),
{
    let mut out: String = "CORD step=".to_owned();
    out.append(decimal_text(step as u64).as_str());
    out.append(" gate=[");
    out.append(join_texts(gates, ",").as_str());
    out.append("] cos=[");
    out.append(join_texts(cosines, ",").as_str());
    out.append("]");
    out
}

/// How far the outputs of the experts differ, in each layer.
pub open spec fn div_line_of(step: nat, weight: Seq<char>, values: Seq<Seq<char>>) -> Seq<char> {
    "DIV step="@
        + decimal(step)
        + " w="@
        + weight
        + " L="@
        + join(values, ","@)
}

/// How far the outputs of the experts differ, in each layer.
pub fn div_line(step: usize, weight: &str, values: &Vec<String>) -> (r: String)
    ensures
        r@ == div_line_of(step as nat, weight@, views(values@)),
{
    let mut out: String = "DIV step=".to_owned();
    out.append(decimal_text(step as u64).as_str());
    out.append(" w=");
    out.append(weight);
    out.append(" L=");
    out.append(join_texts(values, ",").as_str());
    out
}

/// How far the weights of the experts differ, in each layer.
pub open spec fn div_weights_line_of(step: nat, values: Seq<Seq<char>>) -> Seq<char> {
    "DIVF32 step="@
        + decimal(step)
        + " L="@
        + join(values, ","@)
}

/// How far the weights of the experts differ, in each layer.
pub fn div_weights_line(step: usize, values: &Vec<String>) -> (r: String)
    ensures
        r@ == div_weights_line_of(step as nat, views(values@)),
{
    let mut out: String = "DIVF32 step=".to_owned();
    out.append(decimal_text(step as u64).as_str());
    out.append(" L=");
    out.append(join_texts(values, ",").as_str());
    out
}

/// How far the gradients of the experts differ, in each layer.
pub open spec fn div_grads_line_of(step: nat, values: Seq<Seq<char>>) -> Seq<char> {
    "DIVGRAD step="@
        + decimal(step)
        + " L="@
        + join(values, ","@)
}

/// How far the gradients of the experts differ, in each layer.
pub fn div_grads_line(step: usize, values: &Vec<String>) -> (r: String)
    ensures
        r@ == div_grads_line_of(step as nat, views(values@)),
{
    let mut out: String = "DIVGRAD step=".to_owned();
    out.append(decimal_text(step as u64).as_str());
    out.append(" L=");
    out.append(join_texts(values, ",").as_str());
    out
}

/// The gradients of the experts against the pull of the weight decay, in each layer.
pub open spec fn decay_line_of(step: nat, values: Seq<Seq<char>>) -> Seq<char> {
    "DIVWD step="@
        + decimal(step)
        + " grad/wdequiv/ratio="@
        + join(values, ","@)
}

/// The gradients of the experts against the pull of the weight decay, in each layer.
pub fn decay_line(step: usize, values: &Vec<String>) -> (r: String)
    ensures
        r@ == decay_line_of(step as nat, views(values@)),
{
    let mut out: String = "DIVWD step=".to_owned();
    out.append(decimal_text(step as u64).as_str());
    out.append(" grad/wdequiv/ratio=");
    out.append(join_texts(values, ",").as_str());
    out
}

/// The sparsity of each layer and the activity of each expert.
pub open spec fn tele_line_of(layers: nat, sparsity: Seq<Seq<char>>, activity: Seq<Seq<char>>) -> Seq<char> {
    "TELE L="@
        + decimal(layers)
        + " S="@
        + join(sparsity, ","@)
        + " E="@
        + join(activity, ","@)
}

/// The sparsity of each layer and the activity of each expert.
pub fn tele_line(layers: usize, sparsity: &Vec<String>, activity: &Vec<String>) -> (r: String)
    ensures
        r@ == tele_line_of(layers as nat, views(sparsity@), views(activity@)),
{
    let mut out: String = "TELE L=".to_owned();
    out.append(decimal_text(layers as u64).as_str());
    out.append(" S=");
    out.append(join_texts(sparsity, ",").as_str());
    out.append(" E=");
    out.append(join_texts(activity, ",").as_str());
    out
}

/// A layer that was frozen.
pub open spec fn freeze_line_of(step: nat, layer: nat, norm: Seq<char>, level: Seq<char>, ratio: Seq<char>, rate: Seq<char>, end: nat) -> Seq<char> {
    "TTLFREEZE step="@
        + decimal(step)
        + " layer="@
        + decimal(layer)
        + " grad="@
        + norm
        + " baseline="@
        + level
        + " ratio="@
        + ratio
        + " lr="@
        + rate
        + " freeze_end="@
        + decimal(end)
}

/// A layer that was frozen.
pub fn freeze_line(step: usize, layer: usize, norm: &str, level: &str, ratio: &str, rate: &str, end: usize) -> (r: String)
    ensures
        r@ == freeze_line_of(step as nat, layer as nat, norm@, level@, ratio@, rate@, end as nat),
{
    let mut out: String = "TTLFREEZE step=".to_owned();
    out.append(decimal_text(step as u64).as_str());
    out.append(" layer=");
    out.append(decimal_text(layer as u64).as_str());
    out.append(" grad=");
    out.append(norm);
    out.append(" baseline=");
    out.append(level);
    out.append(" ratio=");
    out.append(ratio);
    out.append(" lr=");
    out.append(rate);
    out.append(" freeze_end=");
    out.append(decimal_text(end as u64).as_str());
    out
}

/// A layer that is not frozen again in this epoch.
pub open spec fn freeze_limit_line_of(step: nat, layer: nat, limit: nat) -> Seq<char> {
    "TTLFREEZE WARN step="@
        + decimal(step)
        + " layer="@
        + decimal(layer)
        + " max_bursts_reached="@
        + decimal(limit)
}

/// A layer that is not frozen again in this epoch.
pub fn freeze_limit_line(step: usize, layer: usize, limit: usize) -> (r: String)
    ensures
        r@ == freeze_limit_line_of(step as nat, layer as nat, limit as nat),
{
    let mut out: String = "TTLFREEZE WARN step=".to_owned();
    out.append(decimal_text(step as u64).as_str());
    out.append(" layer=");
    out.append(decimal_text(layer as u64).as_str());
    out.append(" max_bursts_reached=");
    out.append(decimal_text(limit as u64).as_str());
    out
}

/// A layer that would have been frozen, but for the limit.
pub open spec fn freeze_skip_line_of(step: nat, layer: nat, norm: Seq<char>, level: Seq<char>, ratio: Seq<char>) -> Seq<char> {
    "TTLFREEZE SKIP step="@
        + decimal(step)
        + " layer="@
        + decimal(layer)
        + " grad="@
        + norm
        + " baseline="@
        + level
        + " ratio="@
        + ratio
}

/// A layer that would have been frozen, but for the limit.
pub fn freeze_skip_line(step: usize, layer: usize, norm: &str, level: &str, ratio: &str) -> (r: String)
    ensures
        r@ == freeze_skip_line_of(step as nat, layer as nat, norm@, level@, ratio@),
{
    let mut out: String = "TTLFREEZE SKIP step=".to_owned();
    out.append(decimal_text(step as u64).as_str());
    out.append(" layer=");
    out.append(decimal_text(layer as u64).as_str());
    out.append(" grad=");
    out.append(norm);
    out.append(" baseline=");
    out.append(level);
    out.append(" ratio=");
    out.append(ratio);
    out
}

/// What became of the first layers after a layer was frozen.
pub open spec fn cascade_line_of(layer: nat, events: nat, pre: Seq<char>, post: Seq<char>, change: Seq<char>) -> Seq<char> {
    "TTLFREEZE CASCADE layer=L"@
        + decimal(layer)
        + " events="@
        + decimal(events)
        + " L0-L3_pre="@
        + pre
        + " post="@
        + post
        + " ("@
        + change
        + "%)"@
}

/// What became of the first layers after a layer was frozen.
pub fn cascade_line(layer: usize, events: usize, pre: &str, post: &str, change: &str) -> (r: String)
    ensures
        r@ == cascade_line_of(layer as nat, events as nat, pre@, post@, change@),
{
    let mut out: String = "TTLFREEZE CASCADE layer=L".to_owned();
    out.append(decimal_text(layer as u64).as_str());
    out.append(" events=");
    out.append(decimal_text(events as u64).as_str());
    out.append(" L0-L3_pre=");
    out.append(pre);
    out.append(" post=");
    out.append(post);
    out.append(" (");
    out.append(change);
    out.append("%)");
    out
}

/// The end of an epoch.
pub open spec fn epoch_line_of(layers: nat, loss: Seq<char>, clipped: nat, skipped: nat, secs: nat) -> Seq<char> {
    "=== Epoch "@
        + decimal(layers)
        + "L done | Avg Loss: "@
        + loss
        + " | Clipped: "@
        + decimal(clipped)
        + " | Skipped: "@
        + decimal(skipped)
        + " | "@
        + minutes_text(secs)
        + " elapsed ==="@
}

/// The end of an epoch.
pub fn epoch_line(layers: usize, loss: &str, clipped: u32, skipped: u32, secs: u64) -> (r: String)
    ensures
        r@ == epoch_line_of(layers as nat, loss@, clipped as nat, skipped as nat, secs as nat),
{
    let mut out: String = "=== Epoch ".to_owned();
    out.append(decimal_text(layers as u64).as_str());
    out.append("L done | Avg Loss: ");
    out.append(loss);
    out.append(" | Clipped: ");
    out.append(decimal_text(clipped as u64).as_str());
    out.append(" | Skipped: ");
    out.append(decimal_text(skipped as u64).as_str());
    out.append(" | ");
    out.append(minutes_at(secs).as_str());
    out.append(" elapsed ===");
    out
}

/// There was no load-balancing loss in an epoch.
pub open spec fn balance_off_line_of(epoch: nat) -> Seq<char> {
    "[lb] disabled epoch="@
        + decimal(epoch)
}

/// There was no load-balancing loss in an epoch.
pub fn balance_off_line(epoch: u32) -> (r: String)
    ensures
        r@ == balance_off_line_of(epoch as nat),
{
    let mut out: String = "[lb] disabled epoch=".to_owned();
    out.append(decimal_text(epoch as u64).as_str());
    out
}

/// The weight of the load-balancing loss in an epoch.
pub open spec fn balance_on_line_of(weight: Seq<char>, epoch: nat) -> Seq<char> {
    "[lb] active weight="@
        + weight
        + " epoch="@
        + decimal(epoch)
}

/// The weight of the load-balancing loss in an epoch.
pub fn balance_on_line(weight: &str, epoch: u32) -> (r: String)
    ensures
        r@ == balance_on_line_of(weight@, epoch as nat),
{
    let mut out: String = "[lb] active weight=".to_owned();
    out.append(weight);
    out.append(" epoch=");
    out.append(decimal_text(epoch as u64).as_str());
    out
}

/// An expert that has dominated the routing for several epochs.
pub open spec fn dominance_line_of(expert: nat, percent: Seq<char>, epochs: nat) -> Seq<char> {
    "[lb] WARNING: Expert "@
        + decimal(expert)
        + " dominated routing "@
        + percent
        + "% for "@
        + decimal(epochs)
        + " consecutive epochs — collapse risk"@
}

/// An expert that has dominated the routing for several epochs.
pub fn dominance_line(expert: usize, percent: &str, epochs: u32) -> (r: String)
    ensures
        r@ == dominance_line_of(expert as nat, percent@, epochs as nat),
{
    let mut out: String = "[lb] WARNING: Expert ".to_owned();
    out.append(decimal_text(expert as u64).as_str());
    out.append(" dominated routing ");
    out.append(percent);
    out.append("% for ");
    out.append(decimal_text(epochs as u64).as_str());
    out.append(" consecutive epochs — collapse risk");
    out
}

/// The state of the experts and the pressure on the layers.
pub open spec fn mycelium_line_of(epoch: nat, dead: nat, vestigial: nat, blooming: nat, hot: nat, cold: nat, pressure: Seq<Seq<char>>, stable: nat) -> Seq<char> {
    "MYCELIUM epoch="@
        + decimal(epoch)
        + " dead="@
        + decimal(dead)
        + " vestigial="@
        + decimal(vestigial)
        + " blooming="@
        + decimal(blooming)
        + " hot=L"@
        + decimal(hot)
        + " cold=L"@
        + decimal(cold)
        + " pressure=["@
        + join(pressure, ","@)
        + "] myc_stable="@
        + decimal(stable)
}

/// The state of the experts and the pressure on the layers.
pub fn mycelium_line(epoch: u32, dead: usize, vestigial: usize, blooming: usize, hot: usize, cold: usize, pressure: &Vec<String>, stable: usize) -> (r: String)
    ensures
        r@ == mycelium_line_of(epoch as nat, dead as nat, vestigial as nat, blooming as nat, hot as nat, cold as nat, views(pressure@), stable as nat),
{
    let mut out: String = "MYCELIUM epoch=".to_owned();
    out.append(decimal_text(epoch as u64).as_str());
    out.append(" dead=");
    out.append(decimal_text(dead as u64).as_str());
    out.append(" vestigial=");
    out.append(decimal_text(vestigial as u64).as_str());
    out.append(" blooming=");
    out.append(decimal_text(blooming as u64).as_str());
    out.append(" hot=L");
    out.append(decimal_text(hot as u64).as_str());
    out.append(" cold=L");
    out.append(decimal_text(cold as u64).as_str());
    out.append(" pressure=[");
    out.append(join_texts(pressure, ",").as_str());
    out.append("] myc_stable=");
    out.append(decimal_text(stable as u64).as_str());
    out
}

/// The best epoch so far.
pub open spec fn best_line_of(epoch: nat, loss: Seq<char>, gain: Seq<char>, credit: Seq<char>) -> Seq<char> {
    "ATL_BEST epoch="@
        + decimal(epoch)
        + " loss="@
        + loss
        + " improvement="@
        + gain
        + " "@
        + credit
}

/// The best epoch so far.
pub fn best_line(epoch: u32, loss: &str, gain: &str, credit: &str) -> (r: String)
    ensures
        r@ == best_line_of(epoch as nat, loss@, gain@, credit@),
{
    let mut out: String = "ATL_BEST epoch=".to_owned();
    out.append(decimal_text(epoch as u64).as_str());
    out.append(" loss=");
    out.append(loss);
    out.append(" improvement=");
    out.append(gain);
    out.append(" ");
    out.append(credit);
    out
}

/// A return to the best weights.
pub open spec fn rollback_line_of(streak: nat, loss: Seq<char>, source: Seq<char>) -> Seq<char> {
    "COLLAPSE_ROLLBACK streak="@
        + decimal(streak)
        + " avg="@
        + loss
        + " src="@
        + source
}

/// A return to the best weights.
pub fn rollback_line(streak: u32, loss: &str, source: &str) -> (r: String)
    ensures
        r@ == rollback_line_of(streak as nat, loss@, source@),
{
    let mut out: String = "COLLAPSE_ROLLBACK streak=".to_owned();
    out.append(decimal_text(streak as u64).as_str());
    out.append(" avg=");
    out.append(loss);
    out.append(" src=");
    out.append(source);
    out
}

/// How near the model is to its next surgery.
pub open spec fn gate_line_of(epoch: nat, delta: Seq<char>, threshold: Seq<char>, window: nat, filled: nat, stable: nat, needed: nat) -> Seq<char> {
    "GATE epoch="@
        + decimal(epoch)
        + " smoothed_delta="@
        + delta
        + " threshold="@
        + threshold
        + " window="@
        + decimal(window)
        + " filled="@
        + decimal(filled)
        + " myc_stable="@
        + decimal(stable)
        + " myc_thresh="@
        + decimal(needed)
}

/// How near the model is to its next surgery.
pub fn gate_line(epoch: u32, delta: &str, threshold: &str, window: usize, filled: usize, stable: usize, needed: usize) -> (r: String)
    ensures
        r@ == gate_line_of(epoch as nat, delta@, threshold@, window as nat, filled as nat, stable as nat, needed as nat),
{
    let mut out: String = "GATE epoch=".to_owned();
    out.append(decimal_text(epoch as u64).as_str());
    out.append(" smoothed_delta=");
    out.append(delta);
    out.append(" threshold=");
    out.append(threshold);
    out.append(" window=");
    out.append(decimal_text(window as u64).as_str());
    out.append(" filled=");
    out.append(decimal_text(filled as u64).as_str());
    out.append(" myc_stable=");
    out.append(decimal_text(stable as u64).as_str());
    out.append(" myc_thresh=");
    out.append(decimal_text(needed as u64).as_str());
    out
}

/// The traffic light of a layer: how many of its experts are boosted, left alone and held back, and
/// the state of each.
pub struct Light {
    /// The experts that are boosted.
    pub green: usize,
    /// The experts that are left alone.
    pub orange: usize,
    /// The experts that are held back.
    pub red: usize,
    /// The state of each expert, as letters.
    pub state: String,
}

/// The traffic light of layer `i`.
pub open spec fn light_text(l: Light, i: nat) -> Seq<char> {
    "L"@ + decimal(i) + ":"@ + l.state@ + "(G"@ + decimal(l.green as nat) + "/O"@ + decimal(
        l.orange as nat,
    ) + "/R"@ + decimal(l.red as nat) + ")"@
}

/// The traffic lights of the layers.
pub open spec fn light_texts(lights: Seq<Light>) -> Seq<Seq<char>> {
    Seq::new(lights.len(), |i: int| light_text(lights[i], i as nat))
}

/// The traffic lights of all layers.
pub open spec fn lights_line_of(step: nat, lights: Seq<Light>) -> Seq<char> {
    "TLIGHT step="@ + decimal(step) + " "@ + join(light_texts(lights), " "@)
}

/// The traffic lights of all layers.
pub fn lights_line(step: usize, lights: &Vec<Light>) -> (r: String)
    ensures
        r@ == lights_line_of(step as nat, lights@),
{
    let mut parts: Vec<String> = Vec::new();
    let mut i: usize = 0;
    while i < lights.len()
        invariant
            i <= lights.len(),
            views(parts@) == light_texts(lights@).take(i as int),
        decreases lights.len() - i,
    {
        let ghost done = parts@;
        let mut t: String = "L".to_owned();
        t.append(decimal_text(i as u64).as_str());
        t.append(":");
        t.append(lights[i].state.as_str());
        t.append("(G");
        t.append(decimal_text(lights[i].green as u64).as_str());
        t.append("/O");
        t.append(decimal_text(lights[i].orange as u64).as_str());
        t.append("/R");
        t.append(decimal_text(lights[i].red as u64).as_str());
        t.append(")");
        assert(t@ == light_text(lights@[i as int], i as nat));
        parts.push(t);
        i = i + 1;
        assert(views(parts@) =~= views(done).push(t@));
        assert(views(parts@) =~= light_texts(lights@).take(i as int));
    }
    assert(light_texts(lights@).take(i as int) =~= light_texts(lights@));
    let mut out: String = "TLIGHT step=".to_owned();
    out.append(decimal_text(step as u64).as_str());
    out.append(" ");
    out.append(join_texts(&parts, " ").as_str());
    out
}

/// What the experts of each layer were last told: the lights that are known replace those before, and
/// layers beyond the model are left out.
pub open spec fn states_after(states: Seq<Seq<char>>, lights: Seq<Light>) -> Seq<Seq<char>> {
    Seq::new(
        states.len(),
        |i: int|
            if i < lights.len() {
                lights[i].state@
            } else {
                states[i]
            },
    )
}

/// Keeps what the experts of each layer were last told.
pub fn keep_states(states: &mut Vec<String>, lights: &Vec<Light>)
    ensures
        views(final(states)@) == states_after(views(old(states)@), lights@),
{
    let n: usize = states.len();
    let mut i: usize = 0;
    while i < n && i < lights.len()
        invariant
            i <= n,
            i <= lights.len(),
            n == states@.len(),
            n == old(states)@.len(),
            forall|j: int| 0 <= j < i ==> (#[trigger] states@[j])@ == lights@[j].state@,
            forall|j: int| i <= j < n ==> #[trigger] states@[j] == old(states)@[j],
        decreases n - i,
    {
        states.set(i, lights[i].state.clone());
        i = i + 1;
    }
    assert(views(states@) =~= states_after(views(old(states)@), lights@));
}

/// The memory of the device that its tool reports: the first line holds the megabytes that are used,
/// free and there at all, with commas between.
pub open spec fn memory_in(report: Seq<char>) -> Option<(nat, nat, nat)> {
    let parts = split_on(before(report, '\n'), ',');
    if parts.len() < 3 {
        None
    } else {
        match (
            number_up_to(trim(parts[0]), u64::MAX as int),
            number_up_to(trim(parts[1]), u64::MAX as int),
            number_up_to(trim(parts[2]), u64::MAX as int),
        ) {
            (Some(used), Some(free), Some(total)) => Some((used, free, total)),
            _ => None,
        }
    }
}

/// The memory of the device that its tool reports.
pub fn parse_memory(report: &str) -> (r: Option<(u64, u64, u64)>)
    ensures
        r matches Some(m) ==> memory_in(report@) == Some((m.0 as nat, m.1 as nat, m.2 as nat)),
        r is None ==> memory_in(report@) is None,
{
    let parts = split_chars(&part_before(&chars_of(report), '\n'), ',');
    let ghost pv = split_on(before(report@, '\n'), ',');
    assert(pv =~= char_views(parts@));
    if parts.len() < 3 {
        return None;
    }
    assert(pv[0] == parts@[0]@ && pv[1] == parts@[1]@ && pv[2] == parts@[2]@);
    match (
        parse_u64(&trim_chars(&parts[0])),
        parse_u64(&trim_chars(&parts[1])),
        parse_u64(&trim_chars(&parts[2])),
    ) {
        (Some(used), Some(free), Some(total)) => Some((used, free, total)),
        _ => None,
    }
}

/// The bits of 0.1: a weight that is smaller, whatever its sign, counts as zero.
pub const ZERO_WEIGHT: u32 = 0x3DCC_CCCD;

/// How many of the weights, which are the bits of singles, count as zero.
pub open spec fn zeros_among(weights: Seq<u32>) -> nat
    decreases weights.len(),
{
    if weights.len() == 0 {
        0
    } else {
        zeros_among(weights.drop_last()) + if magnitude(weights.last()) < ZERO_WEIGHT {
            1nat
        } else {
            0
        }
    }
}

/// How many of the weights count as zero.
fn count_zeros(weights: &Vec<u32>) -> (r: usize)
    ensures
        r == zeros_among(weights@),
        r <= weights.len(),
{
    let mut n: usize = 0;
    let mut i: usize = 0;
    assert(weights@.take(0) =~= Seq::<u32>::empty());
    while i < weights.len()
        invariant
            i <= weights.len(),
            n <= i,
            n == zeros_among(weights@.take(i as int)),
        decreases weights.len() - i,
    {
        proof {
            assert(weights@.take(i + 1).drop_last() =~= weights@.take(i as int));
            assert(weights@.take(i + 1).last() == weights@[i as int]);
        }
        let b: u32 = weights[i];
        if b < ZERO_WEIGHT || (b >= SIGN && b - SIGN < ZERO_WEIGHT) {
            n = n + 1;
        }
        i = i + 1;
    }
    assert(weights@.take(i as int) =~= weights@);
    n
}

/// The weights of each layer, and how many of them count as zero.
pub struct Sparsity {
    zeros: Vec<u64>,
    total: Vec<u64>,
}

impl Sparsity {
    /// How many weights of each layer count as zero.
    pub closed spec fn zeros(&self) -> Seq<u64> {
        self.zeros@
    }

    /// How many weights each layer has.
    pub closed spec fn total(&self) -> Seq<u64> {
        self.total@
    }

    /// No layer has more zeros than weights.
    pub open spec fn wf(&self) -> bool {
        &&& self.zeros().len() == self.total().len()
        &&& forall|l: int|
            0 <= l < self.total().len() ==> (#[trigger] self.zeros()[l]) <= self.total()[l]
    }

    /// A model of which no weight has been looked at.
    pub fn new(num_layers: usize) -> (r: Sparsity)
        ensures
            r.wf(),
            r.zeros() == Seq::new(num_layers as nat, |l: int| 0u64),
            r.total() == Seq::new(num_layers as nat, |l: int| 0u64),
    {
        let mut zeros: Vec<u64> = Vec::new();
        let mut total: Vec<u64> = Vec::new();
        let mut l: usize = 0;
        while l < num_layers
            invariant
                l <= num_layers,
                zeros@ == Seq::new(l as nat, |i: int| 0u64),
                total@ == Seq::new(l as nat, |i: int| 0u64),
            decreases num_layers - l,
        {
            zeros.push(0);
            total.push(0);
            l = l + 1;
            assert(zeros@ =~= Seq::new(l as nat, |i: int| 0u64));
            assert(total@ =~= Seq::new(l as nat, |i: int| 0u64));
        }
        Sparsity { zeros, total }
    }

    /// Adds the weights of a tensor, which are the bits of singles, to the layer `l`.
    pub fn add_weights(&mut self, l: usize, weights: &Vec<u32>)
        requires
            old(self).wf(),
            l < old(self).total().len(),
            old(self).total()[l as int] + weights.len() <= u64::MAX,
        ensures
            final(self).wf(),
            final(self).zeros() == old(self).zeros().update(
                l as int,
                (old(self).zeros()[l as int] + zeros_among(weights@)) as u64,
            ),
            final(self).total() == old(self).total().update(
                l as int,
                (old(self).total()[l as int] + weights.len()) as u64,
            ),
    {
        let zeros: u64 = count_zeros(weights) as u64;
        let len: u64 = weights.len() as u64;
        assert(self.zeros()[l as int] <= self.total()[l as int]);
        let z: u64 = self.zeros[l] + zeros;
        let t: u64 = self.total[l] + len;
        self.zeros.set(l, z);
        self.total.set(l, t);
        assert forall|i: int| 0 <= i < self.total().len() implies (#[trigger] self.zeros()[i])
            <= self.total()[i] by {
            if i != l {
                assert(old(self).zeros()[i] <= old(self).total()[i]);
            }
        }
    }

    /// The zeros and the weights of the layer `l`.
    pub fn counts(&self, l: usize) -> (r: (u64, u64))
        requires
            self.wf(),
            l < self.total().len(),
        ensures
            r.0 == self.zeros()[l as int],
            r.1 == self.total()[l as int],
            r.0 <= r.1,
    {
        assert(self.zeros()[l as int] <= self.total()[l as int]);
        (self.zeros[l], self.total[l])
    }
}

/// The layer whose sparsity the tensor counts toward.
pub open spec fn sparsity_slot_of(name: Seq<char>, num_layers: nat) -> Option<nat> {
    match layer_in(name) {
        Some(l) => if contains_text(name, "weight"@) && l < num_layers {
            Some(l)
        } else {
            None
        },
        None => None,
    }
}

/// The layer whose sparsity the tensor counts toward.
pub fn sparsity_slot(name: &str, num_layers: usize) -> (r: Option<usize>)
    ensures
        r matches Some(l) ==> sparsity_slot_of(name@, num_layers as nat) == Some(l as nat),
        r is None ==> sparsity_slot_of(name@, num_layers as nat) is None,
{
    if is_weight(name) {
        layer_slot(name, num_layers)
    } else {
        None
    }
}

/// What the summary of an epoch tells.
pub struct Summary {
    /// The epoch.
    pub epoch: u32,
    /// Its average loss.
    pub loss: String,
    /// How the loss changed since the epoch before.
    pub change: String,
    /// The lowest loss so far.
    pub best: String,
    /// The epochs since then.
    pub since_best: u32,
    /// How severe the gap in the losses is.
    pub severity: String,
    /// How much of the losses' range is filled, in percent.
    pub fill: String,
    /// How often layers were frozen.
    pub freezes: usize,
    /// Which layers were.
    pub frozen: String,
    /// The gradient norms of the first four layers.
    pub norms: Vec<String>,
    /// The layer under most pressure.
    pub hot: usize,
    /// The layer under least pressure.
    pub cold: usize,
    /// The tensors that were loaded at the start.
    pub tensors: usize,
}

/// The summary of an epoch.
pub open spec fn summary_line_of(s: Summary) -> Seq<char> {
    "EPOCH_SUMMARY epoch="@ + decimal(s.epoch as nat) + " loss_avg="@ + s.loss@ + " (d"@ + s.change@
        + ") loss_best="@ + s.best@ + " since_best="@ + decimal(s.since_best as nat) + " wald_sev="@
        + s.severity@ + " wald_fill="@ + s.fill@ + "% ttlfreeze="@ + decimal(s.freezes as nat)
        + " ("@ + s.frozen@ + ") myc_L0-L3=["@ + join(views(s.norms@), "/"@) + "] hot=L"@ + decimal(
        s.hot as nat,
    ) + " cold=L"@ + decimal(s.cold as nat) + " tns="@ + decimal(s.tensors as nat)
}

/// The summary of an epoch.
pub fn summary_line(s: &Summary) -> (r: String)
    ensures
        r@ == summary_line_of(*s),
{
    let mut out: String = "EPOCH_SUMMARY epoch=".to_owned();
    out.append(decimal_text(s.epoch as u64).as_str());
    out.append(" loss_avg=");
    out.append(s.loss.as_str());
    out.append(" (d");
    out.append(s.change.as_str());
    out.append(") loss_best=");
    out.append(s.best.as_str());
    out.append(" since_best=");
    out.append(decimal_text(s.since_best as u64).as_str());
    out.append(" wald_sev=");
    out.append(s.severity.as_str());
    out.append(" wald_fill=");
    out.append(s.fill.as_str());
    out.append("% ttlfreeze=");
    out.append(decimal_text(s.freezes as u64).as_str());
    out.append(" (");
    out.append(s.frozen.as_str());
    out.append(") myc_L0-L3=[");
    out.append(join_texts(&s.norms, "/").as_str());
    out.append("] hot=L");
    out.append(decimal_text(s.hot as u64).as_str());
    out.append(" cold=L");
    out.append(decimal_text(s.cold as u64).as_str());
    out.append(" tns=");
    out.append(decimal_text(s.tensors as u64).as_str());
    out
}

/// What a run says of its load-balancing loss at its start.
pub open spec fn balance_banner_of(weight: u64, text: Seq<char>, ramp_epochs: nat) -> Seq<char> {
    if is_wide_zero(weight) {
        "[lb] disabled — LB gradient will NOT flow this run"@
    } else {
        "[lb] active weight="@ + text + " ramp_epochs="@ + decimal(ramp_epochs)
    }
}

/// What a run says of its load-balancing loss, of this weight, at its start; `text` shows the weight.
pub fn balance_banner(weight: u64, text: &str, ramp_epochs: usize) -> (r: String)
    ensures
        r@ == balance_banner_of(weight, text@, ramp_epochs as nat),
{
    if wide_zero(weight) {
        "[lb] disabled — LB gradient will NOT flow this run".to_owned()
    } else {
        let mut out: String = "[lb] active weight=".to_owned();
        out.append(text);
        out.append(" ramp_epochs=");
        out.append(decimal_text(ramp_epochs as u64).as_str());
        out
    }
}

/// What a run says of its divergence loss at its start: a fixed weight, or the schedule.
pub open spec fn divergence_banner_of(
    fixed: bool,
    weight: Seq<char>,
    first: Seq<char>,
    last: Seq<char>,
) -> Seq<char> {
    if fixed {
        "[divloss] enabled weight="@ + weight + " (OVERRIDE — schedule bypassed)"@
    } else {
        "[divloss] enabled weight="@ + weight + " (decay "@ + first + "->"@ + last + " epochs "@
            + decimal(DIV_DECAY_START_EPOCH as nat) + "-"@ + decimal(
            (DIV_DECAY_END_EPOCH - 1) as nat,
        ) + ")"@
    }
}

/// What a run says of its divergence loss at its start.
pub fn divergence_banner(fixed: bool, weight: &str, first: &str, last: &str) -> (r: String)
    ensures
        r@ == divergence_banner_of(fixed, weight@, first@, last@),
{
    let mut out: String = "[divloss] enabled weight=".to_owned();
    out.append(weight);
    if fixed {
        out.append(" (OVERRIDE — schedule bypassed)");
    } else {
        out.append(" (decay ");
        out.append(first);
        out.append("->");
        out.append(last);
        out.append(" epochs ");
        out.append(decimal_text(DIV_DECAY_START_EPOCH as u64).as_str());
        out.append("-");
        out.append(decimal_text((DIV_DECAY_END_EPOCH - 1) as u64).as_str());
        out.append(")");
    }
    out
}

/// What a run says of itself at its start.
pub open spec fn banner_of(
    alpha: Seq<char>,
    window: nat,
    ratio: Seq<char>,
    balance: Seq<char>,
    divergence: Seq<char>,
) -> Seq<char> {
    "[ttlfreeze] enabled\n[ttlfreeze]   ema_alpha="@ + alpha + " (effective window ~"@ + decimal(window)
        + " steps)\n[ttlfreeze]   burst_threshold="@ + ratio
        + "x baseline\n[ttlfreeze]   freeze_steps="@ + decimal(TTL_FREEZE_GRAD_STEPS as nat)
        + "\n[ttlfreeze]   max_bursts_per_epoch_per_layer="@ + decimal(MAX_BURSTS_PER_EPOCH as nat)
        + "\n[ttlfreeze]   ema_init=bootstrap_to_first_observation\n"@ + balance + "\n"@ + divergence
}

/// What a run says of itself at its start.
pub fn banner(alpha: &str, window: usize, ratio: &str, balance: &str, divergence: &str) -> (r: String)
    ensures
        r@ == banner_of(alpha@, window as nat, ratio@, balance@, divergence@),
{
    let mut out: String = "[ttlfreeze] enabled\n[ttlfreeze]   ema_alpha=".to_owned();
    out.append(alpha);
    out.append(" (effective window ~");
    out.append(decimal_text(window as u64).as_str());
    out.append(" steps)\n[ttlfreeze]   burst_threshold=");
    out.append(ratio);
    out.append("x baseline\n[ttlfreeze]   freeze_steps=");
    out.append(decimal_text(TTL_FREEZE_GRAD_STEPS as u64).as_str());
    out.append("\n[ttlfreeze]   max_bursts_per_epoch_per_layer=");
    out.append(decimal_text(MAX_BURSTS_PER_EPOCH as u64).as_str());
    out.append("\n[ttlfreeze]   ema_init=bootstrap_to_first_observation\n");
    out.append(balance);
    out.append("\n");
    out.append(divergence);
    out
}

/// A number behind a tag, up to a space or the end, reads back.
proof fn lemma_number_reads_back(tag: Seq<char>, n: nat, tail: Seq<char>)
    requires
        tail.len() > 0 ==> tail[0] == ' ',
    ensures
        number_in(before((tag + decimal(n) + tail).skip(tag.len() as int), ' ')) == Some(n),
        (tag + decimal(n) + tail).skip((tag.len() + decimal(n).len()) as int) == tail,
{
    lemma_decimal(n);
    let s = tag + decimal(n) + tail;
    let rest = s.skip(tag.len() as int);
    assert(rest =~= decimal(n) + tail);
    let d = decimal(n).len() as int;
    assert forall|j: int| 0 <= j < d implies rest[j] != ' ' by {
        assert(rest[j] == decimal(n)[j]);
        assert(all_digits(decimal(n)));
    }
    if tail.len() > 0 {
        assert(rest[d] == tail[0]);
    }
    lemma_char_from_is(rest, ' ', 0, d);
    assert(before(rest, ' ') =~= decimal(n));
    assert(s.skip((tag.len() + decimal(n).len()) as int) =~= tail);
}

/// The shares of the routing read back from their line: the step stands behind `ROUTE step=`, and
/// the shares, where there is one and none holds a comma, behind ` E=` with commas between.
pub proof fn law_route_line_reads_back(step: nat, shares: Seq<Seq<char>>)
    requires
        shares.len() > 0,
        forall|i: int| 0 <= i < shares.len() ==> !(#[trigger] shares[i]).contains(','),
    ensures
        ({
            let rest = route_line_of(step, shares).skip("ROUTE step="@.len() as int);
            &&& starts_with(route_line_of(step, shares), "ROUTE step="@)
            &&& number_in(before(rest, ' ')) == Some(step)
            &&& split_on(rest.skip((decimal(step).len() + " E="@.len()) as int), ',') == shares
        }),
{
    reveal_strlit(" E=");
    reveal_strlit(",");
    let tag = "ROUTE step="@;
    let list = join(shares, ","@);
    let tail = " E="@ + list;
    let s = route_line_of(step, shares);
    assert(s =~= tag + decimal(step) + tail);
    lemma_number_reads_back(tag, step, tail);
    lemma_starts_with(decimal(step) + tail, tag);
    assert(s =~= tag + (decimal(step) + tail));
    let rest = s.skip(tag.len() as int);
    assert(rest.skip((decimal(step).len() + " E="@.len()) as int) =~= list);
    assert(","@ =~= seq![',']);
    law_split_undoes_join(shares, ',');
}

/// The norms of the layers read back from their line in the same way, behind ` L=`, where the norm of
/// all weights, which stands before them, holds no space.
pub proof fn law_grad_line_reads_back(step: nat, norm: Seq<char>, norms: Seq<Seq<char>>)
    requires
        norms.len() > 0,
        !norm.contains(' '),
        forall|i: int| 0 <= i < norms.len() ==> !(#[trigger] norms[i]).contains(','),
    ensures
        ({
            let rest = grad_line_of(step, norm, norms).skip("GRAD step="@.len() as int);
            let value = rest.skip((decimal(step).len() + " n="@.len()) as int);
            &&& starts_with(grad_line_of(step, norm, norms), "GRAD step="@)
            &&& number_in(before(rest, ' ')) == Some(step)
            &&& before(value, ' ') == norm
            &&& split_on(value.skip((norm.len() + " L="@.len()) as int), ',') == norms
        }),
{
    reveal_strlit(" n=");
    reveal_strlit(" L=");
    reveal_strlit(",");
    let tag = "GRAD step="@;
    let list = join(norms, ","@);
    let tail = " n="@ + norm + " L="@ + list;
    let s = grad_line_of(step, norm, norms);
    assert(s =~= tag + decimal(step) + tail);
    lemma_number_reads_back(tag, step, tail);
    lemma_starts_with(decimal(step) + tail, tag);
    assert(s =~= tag + (decimal(step) + tail));
    let rest = s.skip(tag.len() as int);
    let value = rest.skip((decimal(step).len() + " n="@.len()) as int);
    assert(value =~= norm + " L="@ + list);
    assert forall|j: int| 0 <= j < norm.len() implies value[j] != ' ' by {
        assert(value[j] == norm[j]);
    }
    assert(value[norm.len() as int] == ' ');
    lemma_char_from_is(value, ' ', 0, norm.len() as int);
    assert(before(value, ' ') =~= norm);
    assert(value.skip((norm.len() + " L="@.len()) as int) =~= list);
    assert(","@ =~= seq![',']);
    law_split_undoes_join(norms, ',');
}

/// The weights that count as zero are those between -0.1 and 0.1.
pub proof fn law_small_weights_count_as_zero(weights: Seq<u32>)
    ensures
        zeros_among(weights) == weights.filter(
            |w: u32| w < 0x3DCC_CCCD || 0x8000_0000 <= w < 0xBDCC_CCCD,
        ).len(),
    decreases weights.len(),
{
    reveal(Seq::filter);
    if weights.len() > 0 {
        law_small_weights_count_as_zero(weights.drop_last());
    }
}

/// A weight counts toward the sparsity of the layer that its name lies under, where the model has that
/// layer; what is no weight, or lies under no block, counts nowhere.
pub proof fn law_sparsity_goes_by_layer(l: nat, t: Seq<char>, name: Seq<char>, num_layers: nat)
    requires
        l <= usize::MAX,
    ensures
        sparsity_slot_of(block_prefix(l) + t, num_layers) == (if l < num_layers && contains_text(
            block_prefix(l) + t,
            "weight"@,
        ) {
            Some(l)
        } else {
            None
        }),
        !contains_text(name, "weight"@) ==> sparsity_slot_of(name, num_layers) is None,
        !starts_with(name, "blocks."@) ==> sparsity_slot_of(name, num_layers) is None,
{
    lemma_block_prefix_layer(l, t);
}

/// A column is at least as wide as it should be, ends in its text, and has nothing but spaces before it.
pub proof fn law_columns_are_filled_with_spaces(s: Seq<char>, width: nat, i: int)
    ensures
        pad_left(s, width).len() == if s.len() < width {
            width
        } else {
            s.len()
        },
        pad_left(s, width).skip(pad_left(s, width).len() - s.len()) == s,
        0 <= i < pad_left(s, width).len() - s.len() ==> pad_left(s, width)[i] == ' ',
{
    assert(pad_left(s, width).skip(pad_left(s, width).len() - s.len()) =~= s);
}

/// What is kept of each layer is the light that was seen last, and what was kept before where none was.
pub proof fn law_last_lights_are_kept(states: Seq<Seq<char>>, lights: Seq<Light>, i: int)
    requires
        0 <= i < states.len(),
    ensures
        states_after(states, lights).len() == states.len(),
        i < lights.len() ==> states_after(states, lights)[i] == lights[i].state@,
        i >= lights.len() ==> states_after(states, lights)[i] == states[i],
{
}

/// The tool's report is read back: three numbers in the first line, with a comma and a space between,
/// whatever the further lines hold.
pub proof fn law_memory_report_is_read(used: nat, free: nat, total: nat, more: Seq<char>)
    requires
        used <= u64::MAX,
        free <= u64::MAX,
        total <= u64::MAX,
    ensures
        memory_in(
            decimal(used) + ", "@ + decimal(free) + ", "@ + decimal(total) + "\n"@ + more,
        ) == Some((used, free, total)),
{
    reveal_strlit(", ");
    reveal_strlit("\n");
    lemma_decimal(used);
    lemma_decimal(free);
    lemma_decimal(total);
    let gap = seq![' '];
    let none = Seq::<char>::empty();
    let parts = seq![decimal(used), gap + decimal(free), gap + decimal(total)];
    let line = decimal(used) + ", "@ + decimal(free) + ", "@ + decimal(total);
    let report = line + "\n"@ + more;
    assert(decimal(used) + ", "@ + decimal(free) + ", "@ + decimal(total) + "\n"@ + more =~= report);
    lemma_plain(used);
    lemma_plain(free);
    lemma_plain(total);
    assert forall|j: int| 0 <= j < line.len() implies line[j] != '\n' by {
        let a = decimal(used).len() as int;
        let b = a + 2 + decimal(free).len();
        if j < a {
            assert(line[j] == decimal(used)[j]);
        } else if a + 2 <= j < b {
            assert(line[j] == decimal(free)[j - a - 2]);
        } else if j >= b + 2 {
            assert(line[j] == decimal(total)[j - b - 2]);
        }
    }
    assert forall|j: int| 0 <= j < line.len() implies report[j] != '\n' by {
        assert(report[j] == line[j]);
    }
    lemma_char_from_is(report, '\n', 0, line.len() as int);
    assert(before(report, '\n') =~= line);
    reveal_with_fuel(join, 4);
    assert(join(parts, seq![',']) =~= line);
    assert forall|i: int| 0 <= i < parts.len() implies !(#[trigger] parts[i]).contains(',') by {
        if parts[i].contains(',') {
            let j = choose|j: int| 0 <= j < parts[i].len() && parts[i][j] == ',';
            if i > 0 && j > 0 {
                assert(parts[i][j] == parts[i].skip(1)[j - 1]);
                assert(parts[i].skip(1) =~= if i == 1 {
                    decimal(free)
                } else {
                    decimal(total)
                });
            }
        }
    }
    law_split_undoes_join(parts, ',');
    law_trim_takes_white_space_off(none, decimal(used), none);
    law_trim_takes_white_space_off(gap, decimal(free), none);
    law_trim_takes_white_space_off(gap, decimal(total), none);
    assert(none + decimal(used) + none =~= parts[0]);
    assert(gap + decimal(free) + none =~= parts[1]);
    assert(gap + decimal(total) + none =~= parts[2]);
}

/// A decimal number holds digits alone.
proof fn lemma_plain(n: nat)
    ensures
        forall|j: int|
            0 <= j < decimal(n).len() ==> (#[trigger] decimal(n)[j]) != '\n' && decimal(n)[j] != ','
                && !is_white_space(decimal(n)[j]),
        decimal(n).len() > 0,
{
    lemma_decimal(n);
    assert forall|j: int| 0 <= j < decimal(n).len() implies (#[trigger] decimal(n)[j]) != '\n'
        && decimal(n)[j] != ',' && !is_white_space(decimal(n)[j]) by {
        assert(is_digit(decimal(n)[j]));
    }
}

/// A run says at its start whether there is a load-balancing loss, which there is not exactly where its
/// weight is zero, and over which epochs the divergence loss falls unless its weight is fixed.
pub proof fn law_banners_tell_the_schedule(
    weight: u64,
    text: Seq<char>,
    ramp_epochs: nat,
    first: Seq<char>,
    last: Seq<char>,
)
    ensures
        weight == 0 || weight == 0x8000_0000_0000_0000 ==> balance_banner_of(weight, text, ramp_epochs)
            == "[lb] disabled — LB gradient will NOT flow this run"@,
        weight != 0 && weight != 0x8000_0000_0000_0000 ==> balance_banner_of(weight, text, ramp_epochs)
            == "[lb] active weight="@ + text + " ramp_epochs="@ + decimal(ramp_epochs),
        divergence_banner_of(true, text, first, last) == "[divloss] enabled weight="@ + text
            + " (OVERRIDE — schedule bypassed)"@,
        divergence_banner_of(false, text, first, last) == "[divloss] enabled weight="@ + text
            + " (decay "@ + first + "->"@ + last + " epochs "@ + decimal(105) + "-"@ + decimal(124)
            + ")"@,
{
}

/// A text that was put together ends in its last part.
proof fn lemma_last_part(head: Seq<char>, tail: Seq<char>)
    ensures
        (head + tail).skip((head + tail).len() - tail.len()) == tail,
{
    assert((head + tail).skip((head + tail).len() - tail.len()) =~= tail);
}

/// A line of one value for each layer or expert ends in all of them, none left out, with commas between.
pub proof fn law_lines_end_in_their_values(
    step: nat,
    text: Seq<char>,
    others: Seq<Seq<char>>,
    values: Seq<Seq<char>>,
)
    ensures
        ({
            let list = join(values, ","@);
            let ends = |line: Seq<char>|
                line.len() >= list.len() && line.skip(line.len() - list.len()) == list;
            &&& ends(grad_line_of(step, text, values))
            &&& ends(route_line_of(step, values))
            &&& ends(div_line_of(step, text, values))
            &&& ends(div_weights_line_of(step, values))
            &&& ends(div_grads_line_of(step, values))
            &&& ends(decay_line_of(step, values))
            &&& ends(tele_line_of(step, others, values))
        }),
{
    let list = join(values, ","@);
    lemma_last_part("GRAD step="@ + decimal(step) + " n="@ + text + " L="@, list);
    lemma_last_part("ROUTE step="@ + decimal(step) + " E="@, list);
    lemma_last_part("DIV step="@ + decimal(step) + " w="@ + text + " L="@, list);
    lemma_last_part("DIVF32 step="@ + decimal(step) + " L="@, list);
    lemma_last_part("DIVGRAD step="@ + decimal(step) + " L="@, list);
    lemma_last_part("DIVWD step="@ + decimal(step) + " grad/wdequiv/ratio="@, list);
    lemma_last_part(
        "TELE L="@ + decimal(step) + " S="@ + join(others, ","@) + " E="@,
        list,
    );
}

/// Words that hold no space, with commas between, hold none.
proof fn lemma_list_without_spaces(values: Seq<Seq<char>>)
    requires
        forall|i: int| 0 <= i < values.len() ==> !(#[trigger] values[i]).contains(' '),
    ensures
        !join(values, ","@).contains(' '),
    decreases values.len(),
{
    reveal_strlit(",");
    let list = join(values, ","@);
    if list.contains(' ') {
        let j = choose|j: int| 0 <= j < list.len() && list[j] == ' ';
        if values.len() == 1 {
            assert(values[0][j] == ' ');
        } else if values.len() > 1 {
            let rest = values.drop_last();
            let head = join(rest, ","@);
            assert forall|i: int| 0 <= i < rest.len() implies !(#[trigger] rest[i]).contains(' ') by {
                assert(rest[i] == values[i]);
            }
            lemma_list_without_spaces(rest);
            if j < head.len() {
                assert(head[j] == ' ');
            } else if j > head.len() {
                assert(values[values.len() - 1][j - head.len() - 1] == ' ');
            }
        }
    }
}

/// The telemetry of an epoch reads back from its line: the depth behind `TELE L=`, the sparsity of each
/// layer behind ` S=`, and the activity of each expert behind ` E=`, where none of them holds a space or
/// a comma.
pub proof fn law_tele_line_reads_back(
    layers: nat,
    sparsity: Seq<Seq<char>>,
    activity: Seq<Seq<char>>,
)
    requires
        sparsity.len() > 0,
        activity.len() > 0,
        forall|i: int|
            0 <= i < sparsity.len() ==> !(#[trigger] sparsity[i]).contains(',')
                && !sparsity[i].contains(' '),
        forall|i: int| 0 <= i < activity.len() ==> !(#[trigger] activity[i]).contains(','),
    ensures
        ({
            let line = tele_line_of(layers, sparsity, activity);
            let rest = line.skip("TELE L="@.len() as int);
            let first = rest.skip((decimal(layers).len() + " S="@.len()) as int);
            let second = first.skip((before(first, ' ').len() + " E="@.len()) as int);
            &&& starts_with(line, "TELE L="@)
            &&& number_in(before(rest, ' ')) == Some(layers)
            &&& split_on(before(first, ' '), ',') == sparsity
            &&& split_on(second, ',') == activity
        }),
{
    reveal_strlit(" S=");
    reveal_strlit(" E=");
    reveal_strlit(",");
    let tag = "TELE L="@;
    let s = join(sparsity, ","@);
    let e = join(activity, ","@);
    let tail = " S="@ + s + " E="@ + e;
    let line = tele_line_of(layers, sparsity, activity);
    assert(line =~= tag + decimal(layers) + tail);
    lemma_number_reads_back(tag, layers, tail);
    lemma_starts_with(decimal(layers) + tail, tag);
    assert(line =~= tag + (decimal(layers) + tail));
    let rest = line.skip(tag.len() as int);
    let first = rest.skip((decimal(layers).len() + " S="@.len()) as int);
    assert(first =~= s + " E="@ + e);
    lemma_list_without_spaces(sparsity);
    assert forall|j: int| 0 <= j < s.len() implies first[j] != ' ' by {
        assert(first[j] == s[j]);
    }
    assert(first[s.len() as int] == ' ');
    lemma_char_from_is(first, ' ', 0, s.len() as int);
    assert(before(first, ' ') =~= s);
    assert(first.skip((s.len() + " E="@.len()) as int) =~= e);
    assert(","@ =~= seq![',']);
    law_split_undoes_join(sparsity, ',');
    law_split_undoes_join(activity, ',');
}

/// The line of the traffic lights names each layer in its order, with the state of its experts and how
/// many of them are boosted, left alone and held back.
pub proof fn law_lights_line_names_every_layer(step: nat, lights: Seq<Light>, i: int)
    requires
        0 <= i < lights.len(),
    ensures
        light_texts(lights).len() == lights.len(),
        light_texts(lights)[i] == "L"@ + decimal(i as nat) + ":"@ + lights[i].state@ + "(G"@ + decimal(
            lights[i].green as nat,
        ) + "/O"@ + decimal(lights[i].orange as nat) + "/R"@ + decimal(lights[i].red as nat) + ")"@,
        lights_line_of(step, lights).skip(
            lights_line_of(step, lights).len() - join(light_texts(lights), " "@).len(),
        ) == join(light_texts(lights), " "@),
{
    lemma_last_part("TLIGHT step="@ + decimal(step) + " "@, join(light_texts(lights), " "@));
}

} // verus!
