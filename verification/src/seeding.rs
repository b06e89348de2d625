//! Breaking the symmetry between experts: which tensors are reset, rotated or scaled, and the
//! numbers that the rotations are drawn from.
use crate::checkpoint::{find_tensor, names_of, TensorInfo};
use crate::fraction::{below, is_below};
use crate::names::{block_prefix, expert_prefix, expert_prefix_text, lemma_expert_prefix_unique};
use crate::numerals::decimal;
use crate::text::{
    cat, contains_text, ends_with, has_prefix, has_suffix, has_text, lemma_starts_with, starts_with,
};
use vstd::prelude::*;

verus! {

/// What the state of the generator is multiplied by.
pub const MULTIPLIER: u64 = 6364136223846793005;

/// What is added to it.
pub const INCREMENT: u64 = 1442695040888963407;

/// The bits of 0.001: the experts of a layer have to vary by at least so much once they are seeded.
pub const MIN_VARIANCE: u32 = 0x3A83_126F;

/// The state that follows a state of the generator.
pub open spec fn next_state(state: nat) -> nat {
    (state * (MULTIPLIER as nat) + INCREMENT as nat) % 0x1_0000_0000_0000_0000
}

/// The state after `n` steps from a seed.
pub open spec fn state_after(seed: nat, n: nat) -> nat
    decreases n,
{
    if n == 0 {
        seed
    } else {
        next_state(state_after(seed, (n - 1) as nat))
    }
}

/// The number that a state gives: its upper 53 bits.
pub open spec fn drawn(state: nat) -> nat {
    state / 2048
}

/// How many pairs of numbers a vector of `dim` coordinates takes.
pub open spec fn pairs_for(dim: nat) -> nat {
    (dim + 1) / 2
}

/// The state that follows a state of the generator.
fn step(state: u64) -> (r: u64)
    ensures
        r == next_state(state as nat),
{
    let product: u64 = state.wrapping_mul(MULTIPLIER);
    proof {
        let m = 0x1_0000_0000_0000_0000int;
        let p = state as nat * MULTIPLIER as nat;
        assert(product == p % (m as nat));
        vstd::arithmetic::div_mod::lemma_add_mod_noop(p as int, INCREMENT as int, m);
        vstd::arithmetic::div_mod::lemma_small_mod(INCREMENT as nat, m as nat);
        assert((product + INCREMENT) % m == (p + INCREMENT) % m);
    }
    product.wrapping_add(INCREMENT)
}

/// The numbers below 2^53 that a unit vector of `dim` coordinates is made of, in pairs.
pub fn draw_pairs(dim: usize, seed: usize) -> (r: Vec<(u64, u64)>)
    ensures
        r.len() == pairs_for(dim as nat),
        forall|i: int|
            0 <= i < r.len() ==> (#[trigger] r[i]).0 == drawn(
                state_after(seed as nat, (2 * i + 2) as nat),
            ) && r[i].1 == drawn(state_after(seed as nat, (2 * i + 3) as nat)),
{
    let n: usize = if dim % 2 == 0 {
        dim / 2
    } else {
        dim / 2 + 1
    };
    let mut out: Vec<(u64, u64)> = Vec::new();
    let mut state: u64 = step(seed as u64);
    let mut i: usize = 0;
    proof {
        reveal_with_fuel(state_after, 2);
        assert(state_after(seed as nat, 1) == next_state(seed as nat));
    }
    while i < n
        invariant
            i <= n,
            out.len() == i,
            state == state_after(seed as nat, (2 * i + 1) as nat),
            forall|j: int|
                0 <= j < out.len() ==> (#[trigger] out[j]).0 == drawn(
                    state_after(seed as nat, (2 * j + 2) as nat),
                ) && out[j].1 == drawn(state_after(seed as nat, (2 * j + 3) as nat)),
        decreases n - i,
    {
        let first: u64 = step(state);
        let second: u64 = step(first);
        proof {
            assert(first == state_after(seed as nat, (2 * i + 2) as nat));
            assert(second == state_after(seed as nat, (2 * i + 3) as nat));
        }
        state = second;
        out.push((first / 2048, second / 2048));
        i = i + 1;
    }
    out
}

/// Every number that is drawn is below 2^53, so that over 2^53 it is a fraction below one.
pub proof fn law_drawn_numbers_are_fractions(seed: nat, n: nat)
    requires
        n > 0,
    ensures
        drawn(state_after(seed, n)) < 0x20_0000_0000_0000,
{
    assert(next_state(state_after(seed, (n - 1) as nat)) < 0x1_0000_0000_0000_0000);
}

/// What is done to a tensor of an expert, besides scaling it.
#[derive(Clone, Copy, Debug, PartialEq, Eq, Structural)]
pub enum Turn {
    /// Its rows are reflected: they are as long as the model is wide.
    Rows,
    /// Its columns are.
    Columns,
    /// Nothing.
    Neither,
}

/// A tensor that is seeded.
#[derive(Clone, Copy, Debug, PartialEq, Eq, Structural)]
pub struct SeedOp {
    /// The layer of its expert.
    pub layer: usize,
    /// The expert.
    pub expert: usize,
    /// What the expert's reflection is drawn from.
    pub seed: usize,
    /// The tensor's place.
    pub tensor: usize,
    /// How it is reflected.
    pub turn: Turn,
}

/// What an expert's reflection is drawn from.
pub open spec fn seed_of(layer: int, expert: int) -> int {
    layer * 100 + expert
}

/// How a tensor is reflected.
pub open spec fn turn_of(t: TensorInfo) -> Turn {
    if ends_with(t.name@, "c_fc.weight"@) && t.dims@.len() == 2 {
        Turn::Rows
    } else if ends_with(t.name@, "c_proj.weight"@) && t.dims@.len() == 2 {
        Turn::Columns
    } else {
        Turn::Neither
    }
}

/// The tensor at `i`, seeded for an expert.
pub open spec fn op_of(tensors: Seq<TensorInfo>, layer: int, expert: int, i: int) -> SeedOp {
    SeedOp {
        layer: layer as usize,
        expert: expert as usize,
        seed: seed_of(layer, expert) as usize,
        tensor: i as usize,
        turn: turn_of(tensors[i]),
    }
}

/// The tensors of an expert among the first `n`.
pub open spec fn expert_ops(tensors: Seq<TensorInfo>, layer: nat, expert: nat, n: nat) -> Seq<SeedOp>
    decreases n,
{
    if n == 0 {
        Seq::empty()
    } else {
        let head = expert_ops(tensors, layer, expert, (n - 1) as nat);
        if starts_with(tensors[n - 1].name@, expert_prefix(layer, expert)) {
            head.push(op_of(tensors, layer as int, expert as int, n - 1))
        } else {
            head
        }
    }
}

/// The tensors of the first `n` experts of a layer.
pub open spec fn layer_ops(tensors: Seq<TensorInfo>, layer: nat, n: nat) -> Seq<SeedOp>
    decreases n,
{
    if n == 0 {
        Seq::empty()
    } else {
        layer_ops(tensors, layer, (n - 1) as nat) + expert_ops(
            tensors,
            layer,
            (n - 1) as nat,
            tensors.len(),
        )
    }
}

/// The tensors of all experts of the first `n` layers.
pub open spec fn seed_ops(tensors: Seq<TensorInfo>, n: nat, num_experts: nat) -> Seq<SeedOp>
    decreases n,
{
    if n == 0 {
        Seq::empty()
    } else {
        seed_ops(tensors, (n - 1) as nat, num_experts) + layer_ops(
            tensors,
            (n - 1) as nat,
            num_experts,
        )
    }
}

/// How a tensor is reflected.
fn turn(t: &TensorInfo) -> (r: Turn)
    ensures
        r == turn_of(*t),
{
    if has_suffix(t.name.as_str(), "c_fc.weight") && t.dims.len() == 2 {
        Turn::Rows
    } else if has_suffix(t.name.as_str(), "c_proj.weight") && t.dims.len() == 2 {
        Turn::Columns
    } else {
        Turn::Neither
    }
}

/// Adds the tensors of an expert to a plan.
fn push_expert(out: &mut Vec<SeedOp>, tensors: &Vec<TensorInfo>, layer: usize, expert: usize)
    requires
        seed_of(layer as int, expert as int) <= usize::MAX,
    ensures
        final(out)@ == old(out)@ + expert_ops(
            tensors@,
            layer as nat,
            expert as nat,
            tensors@.len(),
        ),
{
    let prefix = expert_prefix_text(layer, expert);
    let seed: usize = layer * 100 + expert;
    let mut i: usize = 0;
    assert(out@ + Seq::<SeedOp>::empty() =~= out@);
    while i < tensors.len()
        invariant
            i <= tensors.len(),
            prefix@ == expert_prefix(layer as nat, expert as nat),
            seed == seed_of(layer as int, expert as int),
            out@ == old(out)@ + expert_ops(tensors@, layer as nat, expert as nat, i as nat),
        decreases tensors.len() - i,
    {
        if has_prefix(tensors[i].name.as_str(), prefix.as_str()) {
            let op = SeedOp { layer, expert, seed, tensor: i, turn: turn(&tensors[i]) };
            out.push(op);
            assert(op == op_of(tensors@, layer as int, expert as int, i as int));
        }
        i = i + 1;
        assert(out@ =~= old(out)@ + expert_ops(tensors@, layer as nat, expert as nat, i as nat));
    }
}

/// The tensors that are seeded, layer by layer and expert by expert.
pub fn plan_seeding(tensors: &Vec<TensorInfo>, num_layers: usize, num_experts: usize) -> (r: Vec<
    SeedOp,
>)
    requires
        num_layers * 100 + num_experts <= usize::MAX,
    ensures
        r@ == seed_ops(tensors@, num_layers as nat, num_experts as nat),
{
    let mut out: Vec<SeedOp> = Vec::new();
    let mut layer: usize = 0;
    while layer < num_layers
        invariant
            layer <= num_layers,
            num_layers * 100 + num_experts <= usize::MAX,
            out@ == seed_ops(tensors@, layer as nat, num_experts as nat),
        decreases num_layers - layer,
    {
        let mut expert: usize = 0;
        assert(out@ + Seq::<SeedOp>::empty() =~= out@);
        while expert < num_experts
            invariant
                layer < num_layers,
                expert <= num_experts,
                num_layers * 100 + num_experts <= usize::MAX,
                out@ == seed_ops(tensors@, layer as nat, num_experts as nat) + layer_ops(
                    tensors@,
                    layer as nat,
                    expert as nat,
                ),
            decreases num_experts - expert,
        {
            push_expert(&mut out, tensors, layer, expert);
            expert = expert + 1;
            assert(out@ =~= seed_ops(tensors@, layer as nat, num_experts as nat) + layer_ops(
                tensors@,
                layer as nat,
                expert as nat,
            ));
        }
        layer = layer + 1;
    }
    out
}

/// The step of the plan seeds the tensor for the expert that its name lies under.
pub open spec fn is_sound(tensors: Seq<TensorInfo>, op: SeedOp) -> bool {
    &&& op.tensor < tensors.len()
    &&& starts_with(
        tensors[op.tensor as int].name@,
        expert_prefix(op.layer as nat, op.expert as nat),
    )
    &&& op.turn == turn_of(tensors[op.tensor as int])
    &&& op.seed == seed_of(op.layer as int, op.expert as int)
}

/// Every step of the plan is sound, and lies within the layers and experts of the model.
proof fn lemma_ops_sound(tensors: Seq<TensorInfo>, n: nat, num_experts: nat)
    requires
        tensors.len() <= usize::MAX,
        n * 100 + num_experts <= usize::MAX,
    ensures
        forall|i: int|
            0 <= i < seed_ops(tensors, n, num_experts).len() ==> is_sound(
                tensors,
                #[trigger] seed_ops(tensors, n, num_experts)[i],
            ) && seed_ops(tensors, n, num_experts)[i].layer < n && seed_ops(
                tensors,
                n,
                num_experts,
            )[i].expert < num_experts,
    decreases n,
{
    if n > 0 {
        let l = (n - 1) as nat;
        lemma_ops_sound(tensors, l, num_experts);
        lemma_layer_ops_sound(tensors, l, num_experts, num_experts);
        let head = seed_ops(tensors, l, num_experts);
        let tail = layer_ops(tensors, l, num_experts);
        let all = seed_ops(tensors, n, num_experts);
        assert forall|i: int| 0 <= i < all.len() implies is_sound(tensors, #[trigger] all[i])
            && all[i].layer < n && all[i].expert < num_experts by {
            if i < head.len() {
                assert(all[i] == head[i]);
            } else {
                assert(all[i] == tail[i - head.len()]);
            }
        }
    }
}

proof fn lemma_layer_ops_sound(tensors: Seq<TensorInfo>, l: nat, n: nat, num_experts: nat)
    requires
        tensors.len() <= usize::MAX,
        n <= num_experts,
        (l + 1) * 100 + num_experts <= usize::MAX,
    ensures
        forall|i: int|
            0 <= i < layer_ops(tensors, l, n).len() ==> is_sound(
                tensors,
                #[trigger] layer_ops(tensors, l, n)[i],
            ) && layer_ops(tensors, l, n)[i].layer == l && layer_ops(tensors, l, n)[i].expert < n,
    decreases n,
{
    if n > 0 {
        let e = (n - 1) as nat;
        lemma_layer_ops_sound(tensors, l, e, num_experts);
        lemma_expert_ops_sound(tensors, l, e, tensors.len());
        let head = layer_ops(tensors, l, e);
        let tail = expert_ops(tensors, l, e, tensors.len());
        let all = layer_ops(tensors, l, n);
        assert forall|i: int| 0 <= i < all.len() implies is_sound(tensors, #[trigger] all[i])
            && all[i].layer == l && all[i].expert < n by {
            if i < head.len() {
                assert(all[i] == head[i]);
            } else {
                assert(all[i] == tail[i - head.len()]);
            }
        }
    }
}

proof fn lemma_expert_ops_sound(tensors: Seq<TensorInfo>, l: nat, e: nat, n: nat)
    requires
        n <= tensors.len() <= usize::MAX,
        seed_of(l as int, e as int) <= usize::MAX,
    ensures
        forall|i: int|
            0 <= i < expert_ops(tensors, l, e, n).len() ==> is_sound(
                tensors,
                #[trigger] expert_ops(tensors, l, e, n)[i],
            ) && expert_ops(tensors, l, e, n)[i].layer == l && expert_ops(tensors, l, e, n)[i].expert
                == e && expert_ops(tensors, l, e, n)[i].tensor < n,
        forall|i: int, j: int|
            #![trigger expert_ops(tensors, l, e, n)[i], expert_ops(tensors, l, e, n)[j]]
            0 <= i < j < expert_ops(tensors, l, e, n).len() ==> expert_ops(tensors, l, e, n)[i].tensor
                < expert_ops(tensors, l, e, n)[j].tensor,
    decreases n,
{
    if n > 0 {
        lemma_expert_ops_sound(tensors, l, e, (n - 1) as nat);
        let head = expert_ops(tensors, l, e, (n - 1) as nat);
        let all = expert_ops(tensors, l, e, n);
        assert forall|i: int| 0 <= i < all.len() implies is_sound(tensors, #[trigger] all[i])
            && all[i].layer == l && all[i].expert == e && all[i].tensor < n by {
            if i < head.len() {
                assert(all[i] == head[i]);
            }
        }
        assert forall|i: int, j: int|
            #![trigger all[i], all[j]]
            0 <= i < j < all.len() implies all[i].tensor < all[j].tensor by {
            assert(all[i] == head[i]);
            if j < head.len() {
                assert(all[j] == head[j]);
            }
        }
    }
}

/// A tensor is seeded only for the expert that its name lies under, and only for an expert of the
/// model.
pub proof fn law_seeding_is_sound(tensors: Seq<TensorInfo>, num_layers: nat, num_experts: nat)
    requires
        tensors.len() <= usize::MAX,
        num_layers * 100 + num_experts <= usize::MAX,
    ensures
        forall|i: int|
            0 <= i < seed_ops(tensors, num_layers, num_experts).len() ==> {
                let op = #[trigger] seed_ops(tensors, num_layers, num_experts)[i];
                is_sound(tensors, op) && op.layer < num_layers && op.expert < num_experts
            },
{
    lemma_ops_sound(tensors, num_layers, num_experts);
}

/// Every tensor of every expert is seeded.
pub proof fn law_seeding_is_complete(
    tensors: Seq<TensorInfo>,
    num_layers: nat,
    num_experts: nat,
    layer: nat,
    expert: nat,
    i: int,
)
    requires
        tensors.len() <= usize::MAX,
        num_layers * 100 + num_experts <= usize::MAX,
        layer < num_layers,
        expert < num_experts,
        0 <= i < tensors.len(),
        starts_with(tensors[i].name@, expert_prefix(layer, expert)),
    ensures
        seed_ops(tensors, num_layers, num_experts).contains(
            op_of(tensors, layer as int, expert as int, i),
        ),
{
    let op = op_of(tensors, layer as int, expert as int, i);
    lemma_expert_ops_contain(tensors, layer, expert, tensors.len(), i);
    lemma_layer_ops_contain(tensors, layer, num_experts, expert, op);
    lemma_seed_ops_contain(tensors, num_layers, num_experts, layer, op);
}

proof fn lemma_expert_ops_contain(tensors: Seq<TensorInfo>, l: nat, e: nat, n: nat, i: int)
    requires
        0 <= i < n <= tensors.len(),
        starts_with(tensors[i].name@, expert_prefix(l, e)),
    ensures
        expert_ops(tensors, l, e, n).contains(op_of(tensors, l as int, e as int, i)),
    decreases n,
{
    let op = op_of(tensors, l as int, e as int, i);
    let all = expert_ops(tensors, l, e, n);
    if i == n - 1 {
        assert(all[all.len() - 1] == op);
    } else {
        lemma_expert_ops_contain(tensors, l, e, (n - 1) as nat, i);
        let head = expert_ops(tensors, l, e, (n - 1) as nat);
        let j = choose|j: int| 0 <= j < head.len() && head[j] == op;
        assert(all[j] == op);
    }
}

proof fn lemma_layer_ops_contain(tensors: Seq<TensorInfo>, l: nat, n: nat, e: nat, op: SeedOp)
    requires
        e < n,
        expert_ops(tensors, l, e, tensors.len()).contains(op),
    ensures
        layer_ops(tensors, l, n).contains(op),
    decreases n,
{
    let head = layer_ops(tensors, l, (n - 1) as nat);
    let tail = expert_ops(tensors, l, (n - 1) as nat, tensors.len());
    let all = layer_ops(tensors, l, n);
    if e == n - 1 {
        let j = choose|j: int| 0 <= j < tail.len() && tail[j] == op;
        assert(all[head.len() + j] == op);
    } else {
        lemma_layer_ops_contain(tensors, l, (n - 1) as nat, e, op);
        let j = choose|j: int| 0 <= j < head.len() && head[j] == op;
        assert(all[j] == op);
    }
}

proof fn lemma_seed_ops_contain(
    tensors: Seq<TensorInfo>,
    n: nat,
    num_experts: nat,
    l: nat,
    op: SeedOp,
)
    requires
        l < n,
        layer_ops(tensors, l, num_experts).contains(op),
    ensures
        seed_ops(tensors, n, num_experts).contains(op),
    decreases n,
{
    let head = seed_ops(tensors, (n - 1) as nat, num_experts);
    let tail = layer_ops(tensors, (n - 1) as nat, num_experts);
    let all = seed_ops(tensors, n, num_experts);
    if l == n - 1 {
        let j = choose|j: int| 0 <= j < tail.len() && tail[j] == op;
        assert(all[head.len() + j] == op);
    } else {
        lemma_seed_ops_contain(tensors, (n - 1) as nat, num_experts, l, op);
        let j = choose|j: int| 0 <= j < head.len() && head[j] == op;
        assert(all[j] == op);
    }
}

/// No tensor is seeded twice.
pub proof fn law_seeding_touches_once(tensors: Seq<TensorInfo>, num_layers: nat, num_experts: nat)
    requires
        tensors.len() <= usize::MAX,
        num_layers * 100 + num_experts <= usize::MAX,
    ensures
        forall|i: int, j: int|
            #![trigger seed_ops(tensors, num_layers, num_experts)[i], seed_ops(tensors, num_layers, num_experts)[j]]
            0 <= i < j < seed_ops(tensors, num_layers, num_experts).len() ==> seed_ops(
                tensors,
                num_layers,
                num_experts,
            )[i].tensor != seed_ops(tensors, num_layers, num_experts)[j].tensor,
    decreases num_layers,
{
    if num_layers > 0 {
        let l = (num_layers - 1) as nat;
        law_seeding_touches_once(tensors, l, num_experts);
        lemma_ops_sound(tensors, l, num_experts);
        lemma_layer_ops_sound(tensors, l, num_experts, num_experts);
        lemma_layer_touches_once(tensors, l, num_experts, num_experts);
        let head = seed_ops(tensors, l, num_experts);
        let tail = layer_ops(tensors, l, num_experts);
        let all = seed_ops(tensors, num_layers, num_experts);
        assert forall|i: int, j: int|
            #![trigger all[i], all[j]]
            0 <= i < j < all.len() implies all[i].tensor != all[j].tensor by {
            if j < head.len() {
                assert(all[i] == head[i] && all[j] == head[j]);
            } else if i >= head.len() {
                assert(all[i] == tail[i - head.len()] && all[j] == tail[j - head.len()]);
            } else {
                let a = head[i];
                let b = tail[j - head.len()];
                assert(all[i] == a && all[j] == b);
                assert(is_sound(tensors, a) && is_sound(tensors, b));
                if a.tensor == b.tensor {
                    lemma_expert_prefix_unique(
                        tensors[a.tensor as int].name@,
                        a.layer as nat,
                        a.expert as nat,
                        b.layer as nat,
                        b.expert as nat,
                    );
                }
            }
        }
    }
}

proof fn lemma_layer_touches_once(tensors: Seq<TensorInfo>, l: nat, n: nat, num_experts: nat)
    requires
        tensors.len() <= usize::MAX,
        n <= num_experts,
        (l + 1) * 100 + num_experts <= usize::MAX,
    ensures
        forall|i: int, j: int|
            #![trigger layer_ops(tensors, l, n)[i], layer_ops(tensors, l, n)[j]]
            0 <= i < j < layer_ops(tensors, l, n).len() ==> layer_ops(tensors, l, n)[i].tensor
                != layer_ops(tensors, l, n)[j].tensor,
    decreases n,
{
    if n > 0 {
        let e = (n - 1) as nat;
        lemma_layer_touches_once(tensors, l, e, num_experts);
        lemma_layer_ops_sound(tensors, l, e, num_experts);
        lemma_expert_ops_sound(tensors, l, e, tensors.len());
        let head = layer_ops(tensors, l, e);
        let tail = expert_ops(tensors, l, e, tensors.len());
        let all = layer_ops(tensors, l, n);
        assert forall|i: int, j: int|
            #![trigger all[i], all[j]]
            0 <= i < j < all.len() implies all[i].tensor != all[j].tensor by {
            if j < head.len() {
                assert(all[i] == head[i] && all[j] == head[j]);
            } else if i >= head.len() {
                assert(all[i] == tail[i - head.len()] && all[j] == tail[j - head.len()]);
            } else {
                let a = head[i];
                let b = tail[j - head.len()];
                assert(all[i] == a && all[j] == b);
                if a.tensor == b.tensor {
                    lemma_expert_prefix_unique(
                        tensors[a.tensor as int].name@,
                        a.layer as nat,
                        a.expert as nat,
                        b.layer as nat,
                        b.expert as nat,
                    );
                }
            }
        }
    }
}

/// Where a layer has no more than a hundred experts, no two experts share a reflection.
pub proof fn law_seeds_are_distinct(l: nat, e: nat, m: nat, f: nat)
    requires
        e < 100,
        f < 100,
    ensures
        seed_of(l as int, e as int) == seed_of(m as int, f as int) <==> l == m && e == f,
{
}

/// The name of an expert's first matrix.
pub open spec fn fc_name(layer: nat, expert: nat) -> Seq<char> {
    expert_prefix(layer, expert) + "c_fc.weight"@
}

/// The name of an expert's second matrix.
pub open spec fn proj_name(layer: nat, expert: nat) -> Seq<char> {
    expert_prefix(layer, expert) + "c_proj.weight"@
}

/// Both matrices of the expert are there.
pub open spec fn has_matrices(tensors: Seq<TensorInfo>, layer: nat, expert: nat) -> bool {
    names_of(tensors).contains(fc_name(layer, expert)) && names_of(tensors).contains(
        proj_name(layer, expert),
    )
}

/// The places of the two matrices of each expert of a layer, by which the experts' variance is
/// measured; none where an expert lacks one.
pub fn expert_matrices(tensors: &Vec<TensorInfo>, layer: usize, num_experts: usize) -> (r: Option<
    Vec<(usize, usize)>,
>)
    ensures
        r is Some <==> forall|e: nat|
            e < num_experts ==> #[trigger] has_matrices(tensors@, layer as nat, e),
        r matches Some(v) ==> v.len() == num_experts && forall|e: int|
            0 <= e < v.len() ==> {
                let (fc, proj) = #[trigger] v[e];
                &&& fc < tensors.len() && tensors[fc as int].name@ == fc_name(
                    layer as nat,
                    e as nat,
                )
                &&& proj < tensors.len() && tensors[proj as int].name@ == proj_name(
                    layer as nat,
                    e as nat,
                )
            },
{
    let mut out: Vec<(usize, usize)> = Vec::new();
    let mut e: usize = 0;
    while e < num_experts
        invariant
            e <= num_experts,
            out.len() == e,
            forall|i: nat| i < e ==> #[trigger] has_matrices(tensors@, layer as nat, i),
            forall|i: int|
                0 <= i < out.len() ==> {
                    let (fc, proj) = #[trigger] out[i];
                    &&& fc < tensors.len() && tensors[fc as int].name@ == fc_name(
                        layer as nat,
                        i as nat,
                    )
                    &&& proj < tensors.len() && tensors[proj as int].name@ == proj_name(
                        layer as nat,
                        i as nat,
                    )
                },
        decreases num_experts - e,
    {
        let prefix = expert_prefix_text(layer, e);
        let fc = find_tensor(tensors, &cat(prefix.as_str(), "c_fc.weight"));
        let proj = find_tensor(tensors, &cat(prefix.as_str(), "c_proj.weight"));
        match (fc, proj) {
            (Some(a), Some(b)) => {
                proof {
                    assert(names_of(tensors@)[a as int] == fc_name(layer as nat, e as nat));
                    assert(names_of(tensors@)[b as int] == proj_name(layer as nat, e as nat));
                    assert(has_matrices(tensors@, layer as nat, e as nat));
                }
                out.push((a, b));
            },
            _ => {
                assert(!has_matrices(tensors@, layer as nat, e as nat));
                return None;
            },
        }
        e = e + 1;
    }
    Some(out)
}

/// Whether the experts of a layer vary too little for training to tell them apart.
pub fn varies_too_little(variance: u32) -> (r: bool)
    ensures
        r == is_below(variance, MIN_VARIANCE),
{
    below(variance, MIN_VARIANCE)
}

/// The places among the first `n` of the tensors whose names hold `piece`.
pub open spec fn places_of(tensors: Seq<TensorInfo>, piece: Seq<char>, n: nat) -> Seq<usize>
    decreases n,
{
    if n == 0 {
        Seq::empty()
    } else {
        let head = places_of(tensors, piece, (n - 1) as nat);
        if contains_text(tensors[n - 1].name@, piece) {
            head.push((n - 1) as usize)
        } else {
            head
        }
    }
}

fn places(tensors: &Vec<TensorInfo>, piece: &str) -> (r: Vec<usize>)
    ensures
        r@ == places_of(tensors@, piece@, tensors@.len()),
{
    let mut out: Vec<usize> = Vec::new();
    let mut i: usize = 0;
    while i < tensors.len()
        invariant
            i <= tensors.len(),
            out@ == places_of(tensors@, piece@, i as nat),
        decreases tensors.len() - i,
    {
        if has_text(tensors[i].name.as_str(), piece) {
            out.push(i);
        }
        i = i + 1;
    }
    out
}

/// The routers, whose weights are drawn anew when the symmetry between experts is broken.
pub fn routers(tensors: &Vec<TensorInfo>) -> (r: Vec<usize>)
    ensures
        r@ == places_of(tensors@, ".moe.gate.weight"@, tensors@.len()),
{
    places(tensors, ".moe.gate.weight")
}

/// The tensors of experts, to which noise is added when the symmetry between experts is broken.
pub fn expert_tensors(tensors: &Vec<TensorInfo>) -> (r: Vec<usize>)
    ensures
        r@ == places_of(tensors@, ".moe.experts."@, tensors@.len()),
{
    places(tensors, ".moe.experts.")
}

/// Whether a run has seeded its experts.
#[derive(Clone, Copy, Debug, PartialEq, Eq, Structural)]
pub struct SeedOnce {
    /// It has.
    pub done: bool,
}

/// The experts are seeded at the start of a cycle.
pub open spec fn seeds_now(s: SeedOnce, asked: bool) -> bool {
    asked && !s.done
}

/// The state after the start of a cycle.
pub open spec fn after_cycle(s: SeedOnce, asked: bool) -> SeedOnce {
    SeedOnce { done: s.done || asked }
}

/// The state after the start of several cycles.
pub open spec fn after_cycles(s: SeedOnce, asked: Seq<bool>) -> SeedOnce
    decreases asked.len(),
{
    if asked.len() == 0 {
        s
    } else {
        after_cycle(after_cycles(s, asked.drop_last()), asked.last())
    }
}

/// How often the experts are seeded over several cycles.
pub open spec fn seedings(s: SeedOnce, asked: Seq<bool>) -> nat
    decreases asked.len(),
{
    if asked.len() == 0 {
        0
    } else {
        seedings(s, asked.drop_last()) + if seeds_now(
            after_cycles(s, asked.drop_last()),
            asked.last(),
        ) {
            1nat
        } else {
            0
        }
    }
}

/// However many cycles a run has, its experts are seeded once where that was ever asked for, and never
/// otherwise.
pub proof fn law_seeded_once(s: SeedOnce, asked: Seq<bool>)
    requires
        !s.done,
    ensures
        seedings(s, asked) == (if asked.contains(true) {
            1nat
        } else {
            0
        }),
        after_cycles(s, asked).done == asked.contains(true),
    decreases asked.len(),
{
    if asked.len() > 0 {
        let front = asked.drop_last();
        law_seeded_once(s, front);
        assert(asked == front.push(asked.last()));
        if front.contains(true) {
            let i = choose|i: int| 0 <= i < front.len() && front[i] == true;
            assert(asked[i] == true);
        } else if asked.last() {
            assert(asked[asked.len() - 1] == true);
        } else if asked.contains(true) {
            let i = choose|i: int| 0 <= i < asked.len() && asked[i] == true;
            assert(front[i] == true);
        }
    }
}

impl SeedOnce {
    /// A run that has not.
    pub fn new() -> (r: SeedOnce)
        ensures
            !r.done,
    {
        SeedOnce { done: false }
    }

    /// Whether the experts are seeded at the start of a cycle: where that was asked for, and it has not
    /// been done before in this run.
    pub fn begin_cycle(&mut self, asked: bool) -> (r: bool)
        ensures
            r == seeds_now(*old(self), asked),
            *final(self) == after_cycle(*old(self), asked),
    {
        let now: bool = asked && !self.done;
        if asked {
            self.done = true;
        }
        now
    }
}

/// What seeding does to a tensor of an expert: it is seeded from a hundred times its layer and its
/// expert; the rows of the first matrix are reflected and the columns of the second, where they are
/// matrices, and nothing of any other tensor is.
pub proof fn law_seeding_goes_by_name(
    tensors: Seq<TensorInfo>,
    num_layers: nat,
    num_experts: nat,
    layer: nat,
    expert: nat,
    i: int,
    t: Seq<char>,
)
    requires
        tensors.len() <= usize::MAX,
        num_layers * 100 + num_experts <= usize::MAX,
        layer < num_layers,
        expert < num_experts,
        0 <= i < tensors.len(),
        tensors[i].name@ == block_prefix(layer) + "moe.experts."@ + decimal(expert) + "."@ + t,
    ensures
        exists|k: int|
            0 <= k < seed_ops(tensors, num_layers, num_experts).len() && ({
                let op = #[trigger] seed_ops(tensors, num_layers, num_experts)[k];
                &&& op.layer == layer
                &&& op.expert == expert
                &&& op.seed == layer * 100 + expert
                &&& op.tensor == i
                &&& tensors[i].dims@.len() == 2 && t == "c_fc.weight"@ ==> op.turn == Turn::Rows
                &&& tensors[i].dims@.len() == 2 && t == "c_proj.weight"@ ==> op.turn == Turn::Columns
                &&& tensors[i].dims@.len() != 2 ==> op.turn == Turn::Neither
                &&& !ends_with(tensors[i].name@, "c_fc.weight"@) && !ends_with(
                    tensors[i].name@,
                    "c_proj.weight"@,
                ) ==> op.turn == Turn::Neither
            }),
{
    let name = tensors[i].name@;
    let ops = seed_ops(tensors, num_layers, num_experts);
    lemma_starts_with(t, expert_prefix(layer, expert));
    law_seeding_is_complete(tensors, num_layers, num_experts, layer, expert, i);
    let op = op_of(tensors, layer as int, expert as int, i);
    let k = choose|k: int| 0 <= k < ops.len() && ops[k] == op;
    reveal_strlit("c_fc.weight");
    reveal_strlit("c_proj.weight");
    if t == "c_fc.weight"@ {
        assert(name.subrange(name.len() - 11, name.len() as int) =~= t);
    }
    if t == "c_proj.weight"@ {
        assert(name.subrange(name.len() - 13, name.len() as int) =~= t);
        if ends_with(name, "c_fc.weight"@) {
            assert(name.subrange(name.len() - 11, name.len() as int)[3] == "c_fc.weight"@[3]);
            assert(name[name.len() - 8] == t[5]);
        }
    }
    assert(ops[k] == op);
}

/// The generator goes from one state to the next by a fixed factor and a fixed summand: states that are
/// one apart lead to states that are that factor apart. A number is a state without its lowest eleven
/// bits, and a vector takes two numbers for each two coordinates.
pub proof fn law_generator_is_linear(state: nat, dim: nat)
    ensures
        next_state(0) == 1442695040888963407,
        next_state(state + 1) == (next_state(state) + 6364136223846793005) % 0x1_0000_0000_0000_0000,
        2048 * drawn(state) <= state < 2048 * (drawn(state) + 1),
        dim <= 2 * pairs_for(dim) <= dim + 1,
{
    let m = 0x1_0000_0000_0000_0000int;
    let x = (state * (MULTIPLIER as nat) + INCREMENT as nat) as int;
    let f = MULTIPLIER as int;
    assert((state + 1) * (MULTIPLIER as nat) == state * (MULTIPLIER as nat) + MULTIPLIER as nat)
        by (nonlinear_arith);
    vstd::arithmetic::div_mod::lemma_add_mod_noop(x, f, m);
    vstd::arithmetic::div_mod::lemma_add_mod_noop(x % m, f, m);
    vstd::arithmetic::div_mod::lemma_mod_twice(x, m);
}

/// The places of the tensors that hold a piece of text in their names are all of them, each once, in
/// rising order.
pub proof fn law_places_are_all_that_hold_the_piece(
    tensors: Seq<TensorInfo>,
    piece: Seq<char>,
    n: nat,
    i: int,
)
    requires
        n <= tensors.len() <= usize::MAX,
    ensures
        0 <= i < n && contains_text(tensors[i].name@, piece) ==> places_of(tensors, piece, n).contains(
            i as usize,
        ),
        forall|k: int|
            #![trigger places_of(tensors, piece, n)[k]]
            0 <= k < places_of(tensors, piece, n).len() ==> places_of(tensors, piece, n)[k] < n
                && contains_text(
                tensors[places_of(tensors, piece, n)[k] as int].name@,
                piece,
            ),
        forall|j: int, k: int|
            #![trigger places_of(tensors, piece, n)[j], places_of(tensors, piece, n)[k]]
            0 <= j < k < places_of(tensors, piece, n).len() ==> places_of(tensors, piece, n)[j]
                < places_of(tensors, piece, n)[k],
    decreases n,
{
    if n > 0 {
        let m = (n - 1) as nat;
        let head = places_of(tensors, piece, m);
        let all = places_of(tensors, piece, n);
        law_places_are_all_that_hold_the_piece(tensors, piece, m, i);
        assert forall|k: int| #![trigger all[k]] 0 <= k < all.len() implies all[k] < n && contains_text(
            tensors[all[k] as int].name@,
            piece,
        ) by {
            if k < head.len() {
                assert(all[k] == head[k]);
            }
        }
        assert forall|j: int, k: int| #![trigger all[j], all[k]] 0 <= j < k < all.len() implies all[j]
            < all[k] by {
            assert(all[j] == head[j]);
            if k < head.len() {
                assert(all[k] == head[k]);
            }
        }
        if 0 <= i < n && contains_text(tensors[i].name@, piece) {
            if i < m {
                let k = choose|k: int| 0 <= k < head.len() && head[k] == i as usize;
                assert(all[k] == head[k]);
            } else {
                assert(all[all.len() - 1] == i as usize);
            }
        }
    }
}

/// Experts vary too little exactly where their variance is below 0.001.
pub proof fn law_least_variance(variance: u32)
    ensures
        is_below(variance, MIN_VARIANCE) <==> variance < 0x3A83_126F || 0x8000_0000 <= variance
            <= 0xFF80_0000,
{
}

/// The two matrices by which the variance is measured are those that are reflected: the first by its
/// rows, the second by its columns.
pub proof fn law_measured_matrices_are_reflected(
    layer: nat,
    expert: nat,
    fc: TensorInfo,
    proj: TensorInfo,
)
    requires
        fc.name@ == fc_name(layer, expert),
        proj.name@ == proj_name(layer, expert),
        fc.dims@.len() == 2,
        proj.dims@.len() == 2,
    ensures
        turn_of(fc) == Turn::Rows,
        turn_of(proj) == Turn::Columns,
        fc_name(layer, expert) == block_prefix(layer) + "moe.experts."@ + decimal(expert) + "."@
            + "c_fc.weight"@,
        proj_name(layer, expert) == block_prefix(layer) + "moe.experts."@ + decimal(expert) + "."@
            + "c_proj.weight"@,
{
    reveal_strlit("c_fc.weight");
    reveal_strlit("c_proj.weight");
    let a = fc.name@;
    let b = proj.name@;
    assert(a.subrange(a.len() - 11, a.len() as int) =~= "c_fc.weight"@);
    assert(b.subrange(b.len() - 13, b.len() as int) =~= "c_proj.weight"@);
    if ends_with(b, "c_fc.weight"@) {
        assert(b.subrange(b.len() - 11, b.len() as int)[3] == "c_fc.weight"@[3]);
        assert(b[b.len() - 8] == "c_proj.weight"@[5]);
    }
}

/// The generator goes on from wherever it stands: some steps and then some more are all of them.
pub proof fn law_generator_goes_on(seed: nat, a: nat, b: nat)
    ensures
        state_after(seed, a + b) == state_after(state_after(seed, a), b),
        state_after(seed, 0) == seed,
        state_after(seed, a + 1) == next_state(state_after(seed, a)),
    decreases b,
{
    if b > 0 {
        law_generator_goes_on(seed, a, (b - 1) as nat);
    }
}

} // verus!
