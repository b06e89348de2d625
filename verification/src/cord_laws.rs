//! What cord surgery does to each tensor of a checkpoint, spelled out by the names of the tensors.
use crate::checkpoint::{
    distinct_names, gate_bias_name, gate_weight_name, has_planned, is_gate, is_gate_bias,
    is_gate_weight, lemma_gate_names_distinct, Origin, Planned, TensorInfo,
};
use crate::config::numbers_at;
use crate::cord::{
    cord_course, cord_names, corded_config, is_cord, is_corded, is_corded_checkpoint, shared_name,
    stream_a_name,
    stream_b_name, CordCourse,
};
use crate::fusion::{fusion, fusion_count, fusion_layers, lemma_fusion_count};
use crate::growth::{tail_in, SurgeryError};
use crate::growth_laws::lemma_fresh_gate_names;
use crate::json::{number_at, Members};
use crate::names::{block_of, block_prefix, lemma_block_of};
use crate::numerals::{decimal, is_digit, lemma_decimal};
use crate::surgery_laws::{
    law_cord_keeps_every_tensor, law_cord_lists_fusion_layers, lemma_block_is_no_gate,
    lemma_stream_b_marked,
};
use crate::text::{contains_text, lemma_starts_with, occurs_at, starts_with};
use vstd::prelude::*;

verus! {

/// `.stream_b.` in a name under a block stands behind the block, or begins with the block's last dot.
proof fn lemma_mark_behind_block(l: nat, u: Seq<char>, i: int)
    requires
        occurs_at(block_prefix(l) + u, ".stream_b."@, i),
    ensures
        i >= block_prefix(l).len() - 1,
        occurs_at(seq!['.'] + u, ".stream_b."@, i - (block_prefix(l).len() - 1)),
{
    reveal_strlit("blocks.");
    reveal_strlit(".");
    reveal_strlit(".stream_b.");
    lemma_decimal(l);
    let p = block_prefix(l);
    let name = p + u;
    let k = p.len() - 1;
    let sub = name.subrange(i, i + 10);
    assert(sub == ".stream_b."@);
    assert(sub[0] == '.' && sub[1] == 's');
    assert(name[i] == '.' && name[i + 1] == 's');
    assert(p[k] == '.');
    if i < k {
        assert(name[i] == p[i] && name[i + 1] == p[i + 1]);
        if i < 7 {
            assert(p[i] == "blocks."@[i]);
            assert(i == 6);
            assert(p[7] == decimal(l)[0]);
            assert(is_digit(decimal(l)[0]));
        } else {
            assert(p[i] == decimal(l)[i - 7]);
            assert(is_digit(decimal(l)[i - 7]));
        }
        assert(false);
    }
    let dotted = seq!['.'] + u;
    let there = dotted.subrange(i - k, i - k + 10);
    assert forall|j: int| 0 <= j < 10 implies there[j] == sub[j] by {
        assert(dotted[i - k + j] == name[i + j]);
    }
    assert(there =~= sub);
}

/// What holds `.stream_b.` behind a dot holds it behind any block.
proof fn lemma_mark_in_block(l: nat, u: Seq<char>)
    ensures
        contains_text(block_prefix(l) + u, ".stream_b."@) <==> contains_text(
            seq!['.'] + u,
            ".stream_b."@,
        ),
{
    reveal_strlit(".");
    reveal_strlit(".stream_b.");
    let p = block_prefix(l);
    let k = p.len() - 1;
    let dotted = seq!['.'] + u;
    if contains_text(p + u, ".stream_b."@) {
        let i = choose|i: int| occurs_at(p + u, ".stream_b."@, i);
        lemma_mark_behind_block(l, u, i);
        assert(occurs_at(dotted, ".stream_b."@, i - k));
    }
    if contains_text(dotted, ".stream_b."@) {
        let i = choose|i: int| occurs_at(dotted, ".stream_b."@, i);
        assert(p[k] == '.');
        assert((p + u).subrange(i + k, i + k + 10) =~= dotted.subrange(i, i + 10));
        assert(occurs_at(p + u, ".stream_b."@, i + k));
    }
}

/// The first stream's name of a tensor holds `.stream_b.` only where the tensor's own does.
proof fn lemma_stream_a_unmarked(l: nat, tail: Seq<char>)
    ensures
        contains_text(stream_a_name(l, tail), ".stream_b."@) ==> contains_text(
            block_prefix(l) + tail,
            ".stream_b."@,
        ),
{
    reveal_strlit("stream_a.");
    reveal_strlit(".stream_b.");
    let a = "stream_a."@ + tail;
    assert(stream_a_name(l, tail) =~= block_prefix(l) + a);
    lemma_mark_in_block(l, a);
    lemma_mark_in_block(l, tail);
    let dotted = seq!['.'] + a;
    if contains_text(dotted, ".stream_b."@) {
        let i = choose|i: int| occurs_at(dotted, ".stream_b."@, i);
        let sub = dotted.subrange(i, i + 10);
        assert(sub[0] == '.' && sub[8] == 'b');
        assert(dotted[i] == '.' && dotted[i + 8] == 'b');
        if i < 9 {
            if i == 0 {
                assert(dotted[8] == "stream_a."@[7]);
            } else {
                assert(dotted[i] == "stream_a."@[i - 1]);
            }
            assert(false);
        }
        let old = seq!['.'] + tail;
        let there = old.subrange(i - 9, i + 1);
        assert forall|j: int| 0 <= j < 10 implies there[j] == sub[j] by {
            assert(old[i - 9 + j] == dotted[i + j]);
        }
        assert(there =~= sub);
        assert(occurs_at(old, ".stream_b."@, i - 9));
    }
}

/// The shared name of an expert's tensor holds `.stream_b.` only where the tensor's own does.
proof fn lemma_shared_unmarked(l: nat, t: Seq<char>)
    ensures
        contains_text(block_prefix(l) + ("experts."@ + t), ".stream_b."@) ==> contains_text(
            block_prefix(l) + ("moe.experts."@ + t),
            ".stream_b."@,
        ),
{
    reveal_strlit("experts.");
    reveal_strlit("moe.experts.");
    reveal_strlit(".stream_b.");
    lemma_mark_in_block(l, "experts."@ + t);
    lemma_mark_in_block(l, "moe.experts."@ + t);
    let new = seq!['.'] + ("experts."@ + t);
    let old = seq!['.'] + ("moe.experts."@ + t);
    if contains_text(new, ".stream_b."@) {
        let i = choose|i: int| occurs_at(new, ".stream_b."@, i);
        let here = new.subrange(i, i + 10);
        let there = old.subrange(i + 4, i + 14);
        assert forall|j: int| 0 <= j < 10 implies there[j] == here[j] by {
            assert(old[i + 4 + j] == new[i + j]);
        }
        assert(there =~= here);
        assert(occurs_at(old, ".stream_b."@, i + 4));
    }
}

/// An expert's tensor under its block.
proof fn lemma_expert_name(l: nat, t: Seq<char>)
    ensures
        starts_with("moe.experts."@ + t, "moe.experts."@),
        shared_name(l, "moe.experts."@ + t) == block_prefix(l) + ("experts."@ + t),
{
    reveal_strlit("moe.");
    reveal_strlit("experts.");
    reveal_strlit("moe.experts.");
    lemma_starts_with(t, "moe.experts."@);
    assert(("moe.experts."@ + t).skip(4) =~= "experts."@ + t);
}

/// What lies under no block of the model keeps its name, and is perturbed nowhere unless that name
/// itself holds `.stream_b.`.
pub proof fn law_cord_keeps_what_is_in_no_block(
    tensors: Seq<TensorInfo>,
    n: nat,
    gates: nat,
    columns: nat,
    plan: Seq<Planned>,
    i: int,
)
    requires
        n <= usize::MAX,
        distinct_names(tensors),
        is_cord(tensors, n, gates, columns, plan),
        0 <= i < tensors.len(),
        forall|l: nat| l < n ==> !starts_with(tensors[i].name@, #[trigger] block_prefix(l)),
        !is_gate(tensors[i].name@, 0, gates),
    ensures
        exists|j: int|
            0 <= j < plan.len() && (#[trigger] plan[j]).name@ == tensors[i].name@ && plan[j].origin
                == Origin::Copied(i as usize) && !plan[j].nudged && (!contains_text(
                tensors[i].name@,
                ".stream_b."@,
            ) ==> plan[j].latitude is None),
{
    let name = tensors[i].name@;
    match block_of(name, n) {
        Some(l) => {
            lemma_block_of(name, n, l);
        },
        None => {},
    }
    assert(cord_names(name, n)[0] == name);
    assert(cord_names(name, n).contains(name));
    law_cord_keeps_every_tensor(tensors, n, gates, columns, plan, i, name);
    let j = choose|j: int|
        0 <= j < plan.len() && (#[trigger] plan[j]).name@ == name && plan[j].origin
            == Origin::Copied(i as usize);
    assert(is_corded(tensors, n, plan[j]));
}

/// The streams share the experts: each tensor of an expert moves out of `moe.` and stands once in its
/// block, unperturbed.
pub proof fn law_cord_shares_experts(
    tensors: Seq<TensorInfo>,
    n: nat,
    gates: nat,
    columns: nat,
    plan: Seq<Planned>,
    i: int,
    l: nat,
    t: Seq<char>,
)
    requires
        l < n <= usize::MAX,
        distinct_names(tensors),
        is_cord(tensors, n, gates, columns, plan),
        0 <= i < tensors.len(),
        tensors[i].name@ == block_prefix(l) + "moe.experts."@ + t,
    ensures
        exists|j: int|
            0 <= j < plan.len() && (#[trigger] plan[j]).name@ == block_prefix(l) + "experts."@ + t
                && plan[j].origin == Origin::Copied(i as usize) && !plan[j].nudged && (
            !contains_text(tensors[i].name@, ".stream_b."@) ==> plan[j].latitude is None),
{
    let name = tensors[i].name@;
    let tail = "moe.experts."@ + t;
    let new = block_prefix(l) + ("experts."@ + t);
    assert(name =~= block_prefix(l) + tail);
    lemma_starts_with(tail, block_prefix(l));
    lemma_block_of(name, n, l);
    lemma_expert_name(l, t);
    assert(cord_names(name, n)[0] == new);
    assert(cord_names(name, n).contains(new));
    lemma_starts_with("experts."@ + t, block_prefix(l));
    lemma_block_is_no_gate(new, l, 0, gates);
    law_cord_keeps_every_tensor(tensors, n, gates, columns, plan, i, new);
    lemma_shared_unmarked(l, t);
    assert(new =~= block_prefix(l) + "experts."@ + t);
    let j = choose|j: int|
        0 <= j < plan.len() && (#[trigger] plan[j]).name@ == new && plan[j].origin
            == Origin::Copied(i as usize);
    assert(is_corded(tensors, n, plan[j]));
}

/// Every other tensor of a block stands in both streams: in the first as it was, in the second
/// perturbed at a latitude fifty beyond the depth of the model.
pub proof fn law_cord_doubles_the_rest(
    tensors: Seq<TensorInfo>,
    n: nat,
    gates: nat,
    columns: nat,
    plan: Seq<Planned>,
    i: int,
    l: nat,
    t: Seq<char>,
)
    requires
        l < n <= usize::MAX,
        distinct_names(tensors),
        is_cord(tensors, n, gates, columns, plan),
        0 <= i < tensors.len(),
        tensors[i].name@ == block_prefix(l) + t,
        !starts_with(t, "moe.experts."@),
    ensures
        exists|j: int|
            0 <= j < plan.len() && (#[trigger] plan[j]).name@ == block_prefix(l) + "stream_a."@ + t
                && plan[j].origin == Origin::Copied(i as usize) && !plan[j].nudged && (
            !contains_text(tensors[i].name@, ".stream_b."@) ==> plan[j].latitude is None),
        exists|j: int|
            0 <= j < plan.len() && (#[trigger] plan[j]).name@ == block_prefix(l) + "stream_b."@ + t
                && plan[j].origin == Origin::Copied(i as usize) && !plan[j].nudged
                && plan[j].latitude is Some && plan[j].latitude->0 == n + 50,
{
    let name = tensors[i].name@;
    lemma_starts_with(t, block_prefix(l));
    lemma_block_of(name, n, l);
    let a = stream_a_name(l, t);
    let b = stream_b_name(l, t);
    let own = cord_names(name, n);
    assert(own[0] == a && own[1] == b);
    assert(own.contains(a) && own.contains(b));
    lemma_starts_with("stream_a."@ + t, block_prefix(l));
    lemma_starts_with("stream_b."@ + t, block_prefix(l));
    assert(a =~= block_prefix(l) + ("stream_a."@ + t));
    assert(b =~= block_prefix(l) + ("stream_b."@ + t));
    lemma_block_is_no_gate(a, l, 0, gates);
    lemma_block_is_no_gate(b, l, 0, gates);
    law_cord_keeps_every_tensor(tensors, n, gates, columns, plan, i, a);
    law_cord_keeps_every_tensor(tensors, n, gates, columns, plan, i, b);
    lemma_stream_b_marked(l, t);
    lemma_stream_a_unmarked(l, t);
    let j = choose|j: int|
        0 <= j < plan.len() && (#[trigger] plan[j]).name@ == a && plan[j].origin == Origin::Copied(
            i as usize,
        );
    assert(is_corded(tensors, n, plan[j]));
    let k = choose|k: int|
        0 <= k < plan.len() && (#[trigger] plan[k]).name@ == b && plan[k].origin == Origin::Copied(
            i as usize,
        );
    assert(is_corded(tensors, n, plan[k]));
}

/// Cord surgery makes nothing up: each tensor of the new model, but for the gates, is a tensor of the
/// old one under a name that the two streams, the shared experts or no block give it, each name once.
pub proof fn law_cord_makes_nothing_else(
    tensors: Seq<TensorInfo>,
    n: nat,
    gates: nat,
    columns: nat,
    plan: Seq<Planned>,
    j: int,
)
    requires
        n <= usize::MAX,
        is_cord(tensors, n, gates, columns, plan),
        0 <= j < plan.len(),
    ensures
        match plan[j].origin {
            Origin::Copied(k) => {
                let old = tensors[k as int].name@;
                let new = plan[j].name@;
                &&& k < tensors.len()
                &&& {
                    ||| exists|l: nat, t: Seq<char>|
                        l < n && new == #[trigger] (block_prefix(l) + "experts."@ + t) && old
                            == block_prefix(l) + "moe.experts."@ + t
                    ||| exists|l: nat, t: Seq<char>|
                        l < n && new == #[trigger] (block_prefix(l) + "stream_a."@ + t) && old
                            == block_prefix(l) + t && !starts_with(t, "moe.experts."@)
                    ||| exists|l: nat, t: Seq<char>|
                        l < n && new == #[trigger] (block_prefix(l) + "stream_b."@ + t) && old
                            == block_prefix(l) + t && !starts_with(t, "moe.experts."@)
                    ||| new == old && forall|l: nat|
                        l < n ==> !starts_with(new, #[trigger] block_prefix(l))
                }
            },
            Origin::GateWeight(c) => c == columns && plan[j].latitude is None && exists|k: nat|
                k < gates && plan[j].name@ == #[trigger] ("anastomosis."@ + decimal(k)
                    + ".gate.weight"@),
            Origin::GateBias => plan[j].latitude is None && exists|k: nat|
                k < gates && plan[j].name@ == #[trigger] ("anastomosis."@ + decimal(k)
                    + ".gate.bias"@),
        },
        !plan[j].nudged,
        forall|i: int| 0 <= i < plan.len() && i != j ==> (#[trigger] plan[i]).name@ != plan[j].name@,
{
    let p = plan[j];
    let new = p.name@;
    if is_gate(new, 0, gates) {
        lemma_fresh_gate_names(p, 0, gates, columns);
    } else {
        assert(is_corded(tensors, n, p));
        match p.origin {
            Origin::Copied(k) => {
                let old = tensors[k as int].name@;
                match block_of(old, n) {
                    Some(l) => {
                        lemma_block_of(old, n, l);
                        lemma_starts_with(old, block_prefix(l));
                        let tail = tail_in(l, old);
                        if starts_with(tail, "moe.experts."@) {
                            let t = tail.skip("moe.experts."@.len() as int);
                            lemma_starts_with(tail, "moe.experts."@);
                            lemma_expert_name(l, t);
                            assert(old =~= block_prefix(l) + "moe.experts."@ + t);
                            assert(new =~= block_prefix(l) + "experts."@ + t);
                        } else if new == stream_a_name(l, tail) {
                            assert(new == block_prefix(l) + "stream_a."@ + tail);
                        } else {
                            assert(new == block_prefix(l) + "stream_b."@ + tail);
                        }
                    },
                    None => {
                        assert(new == old);
                        assert forall|l: nat| l < n implies !starts_with(
                            new,
                            #[trigger] block_prefix(l),
                        ) by {
                            lemma_block_of(old, n, l);
                        }
                    },
                }
            },
            _ => {},
        }
    }
    assert forall|i: int| 0 <= i < plan.len() && i != j implies (#[trigger] plan[i]).name@
        != plan[j].name@ by {
        if i < j {
            assert(plan[i].name@ != plan[j].name@);
        } else {
            assert(plan[j].name@ != plan[i].name@);
        }
    }
}

/// Cord surgery perturbs the second stream and nothing else: of a checkpoint of which no name holds
/// `.stream_b.`, a tensor of the new model is perturbed exactly where it is the second stream's copy of
/// a block's tensor, and always at the latitude fifty beyond the depth.
pub proof fn law_cord_perturbs_second_stream_only(
    tensors: Seq<TensorInfo>,
    n: nat,
    gates: nat,
    columns: nat,
    plan: Seq<Planned>,
    j: int,
)
    requires
        n <= usize::MAX,
        is_cord(tensors, n, gates, columns, plan),
        0 <= j < plan.len(),
        plan[j].origin matches Origin::Copied(k) ==> !contains_text(
            tensors[k as int].name@,
            ".stream_b."@,
        ),
    ensures
        plan[j].latitude is Some <==> exists|l: nat, t: Seq<char>|
            l < n && plan[j].name@ == #[trigger] (block_prefix(l) + "stream_b."@ + t),
        plan[j].latitude matches Some(x) ==> x == n + 50,
{
    let p = plan[j];
    let new = p.name@;
    law_cord_makes_nothing_else(tensors, n, gates, columns, plan, j);
    if exists|l: nat, t: Seq<char>|
        l < n && new == #[trigger] (block_prefix(l) + "stream_b."@ + t) {
        let (l, t) = choose|l: nat, t: Seq<char>|
            l < n && new == #[trigger] (block_prefix(l) + "stream_b."@ + t);
        lemma_stream_b_marked(l, t);
        assert(new =~= block_prefix(l) + ("stream_b."@ + t));
        lemma_starts_with("stream_b."@ + t, block_prefix(l));
        lemma_block_is_no_gate(new, l, 0, gates);
        assert(is_corded(tensors, n, p));
    } else {
        match p.origin {
            Origin::Copied(k) => {
                let old = tensors[k as int].name@;
                if exists|l: nat, t: Seq<char>|
                    l < n && new == #[trigger] (block_prefix(l) + "experts."@ + t) && old
                        == block_prefix(l) + "moe.experts."@ + t {
                    let (l, t) = choose|l: nat, t: Seq<char>|
                        l < n && new == #[trigger] (block_prefix(l) + "experts."@ + t) && old
                            == block_prefix(l) + "moe.experts."@ + t;
                    lemma_shared_unmarked(l, t);
                    assert(new =~= block_prefix(l) + ("experts."@ + t));
                    assert(old =~= block_prefix(l) + ("moe.experts."@ + t));
                } else if exists|l: nat, t: Seq<char>|
                    l < n && new == #[trigger] (block_prefix(l) + "stream_a."@ + t) && old
                        == block_prefix(l) + t && !starts_with(t, "moe.experts."@) {
                    let (l, t) = choose|l: nat, t: Seq<char>|
                        l < n && new == #[trigger] (block_prefix(l) + "stream_a."@ + t) && old
                            == block_prefix(l) + t && !starts_with(t, "moe.experts."@);
                    lemma_stream_a_unmarked(l, t);
                }
                if is_gate(new, 0, gates) {
                    lemma_fresh_gate_names(p, 0, gates, columns);
                } else {
                    assert(is_corded(tensors, n, p));
                }
            },
            _ => {},
        }
    }
}

/// Each fusion layer below the depth has a gate: a weight as wide as both streams, and a bias.
pub proof fn law_cord_adds_gates(
    tensors: Seq<TensorInfo>,
    n: nat,
    gates: nat,
    columns: nat,
    plan: Seq<Planned>,
    k: nat,
)
    requires
        gates == fusion_count(n),
        is_cord(tensors, n, gates, columns, plan),
        fusion(k) < n,
    ensures
        exists|j: int|
            0 <= j < plan.len() && (#[trigger] plan[j]).name@ == "anastomosis."@ + decimal(k)
                + ".gate.weight"@ && plan[j].origin is GateWeight && plan[j].origin->GateWeight_0
                == columns && plan[j].latitude is None && !plan[j].nudged,
        exists|j: int|
            0 <= j < plan.len() && (#[trigger] plan[j]).name@ == "anastomosis."@ + decimal(k)
                + ".gate.bias"@ && plan[j].origin is GateBias && plan[j].latitude is None
                && !plan[j].nudged,
{
    lemma_fusion_count(n, k);
    let w = gate_weight_name(k);
    let b = gate_bias_name(k);
    assert(is_gate_weight(w, 0, gates));
    assert(is_gate_bias(b, 0, gates));
    assert(has_planned(plan, w));
    assert(has_planned(plan, b));
    let j = choose|j: int| 0 <= j < plan.len() && (#[trigger] plan[j]).name@ == w;
    assert(is_gate(plan[j].name@, 0, gates));
    let i = choose|i: int| 0 <= i < plan.len() && (#[trigger] plan[i]).name@ == b;
    assert(is_gate(plan[i].name@, 0, gates));
    assert(!is_gate_weight(b, 0, gates)) by {
        if is_gate_weight(b, 0, gates) {
            let x = choose|x: nat| 0 <= x < gates && b == #[trigger] gate_weight_name(x);
            lemma_gate_names_distinct(x, k);
        }
    }
}

/// When a model is split: the configuration gives its depth and its width, and says one stream. With two
/// it was split before; without one of the numbers the surgery fails. No model of a depth and a width
/// that can be counted with is turned away.
pub proof fn law_cord_course(m: Members)
    ensures
        ({
            let course = cord_course(m);
            let depth = number_at(m, "num_layers"@);
            let width = number_at(m, "hidden_size"@);
            let known = depth is Some && width is Some;
            let split = number_at(m, "num_streams"@) matches Some(k) && k as usize >= 2;
            &&& !known ==> course == CordCourse::Fails(SurgeryError::MissingNumber)
            &&& course is AlreadyApplied <==> known && split
            &&& known && !split && (depth->0 as usize) + 50 <= usize::MAX && 2 * (
            width->0 as usize) <= usize::MAX ==> course is Cords
            &&& course is Cords ==> known && !split && (depth->0 as usize) + 50 <= usize::MAX
            &&& known ==> (course matches CordCourse::Fails(e) ==> e == SurgeryError::OutOfRange)
        }),
{
}

/// The configuration of a split model says two streams, and lists the fusion layers of its depth.
pub proof fn law_cord_config_says_two_streams(m: Members)
    ensures
        number_at(corded_config(m), "num_streams"@) == Some(2u64),
        numbers_at(corded_config(m), "fusion_layers"@).map_values(|l: usize| l as nat)
            == fusion_layers(crate::growth::depth_in(m)),
{
    reveal_strlit("num_layers");
    reveal_strlit("num_streams");
    reveal_strlit("fusion_layers");
    assert("num_layers"@.len() == 10);
    assert("num_streams"@.len() == 11);
    assert("fusion_layers"@.len() == 13);
    law_cord_lists_fusion_layers(m);
}

/// What comes of a surgery on a model that its configuration says has `n` layers: each block's tensor
/// below `n` that is no expert's is doubled, and the second stream's is perturbed at `n` and fifty; and
/// each fusion layer below `n` has a gate twice as wide as the configuration says the model is.
pub proof fn law_corded_checkpoint_follows_config(
    m: Members,
    tensors: Seq<TensorInfo>,
    plan: Seq<Planned>,
    i: int,
    n: u64,
    width: u64,
    l: nat,
    t: Seq<char>,
    k: nat,
)
    requires
        is_corded_checkpoint(m, tensors, plan),
        distinct_names(tensors),
        l < n <= usize::MAX,
        width <= usize::MAX,
        number_at(m, "num_layers"@) == Some(n),
        number_at(m, "hidden_size"@) == Some(width),
        0 <= i < tensors.len(),
        tensors[i].name@ == block_prefix(l) + t,
        !starts_with(t, "moe.experts."@),
    ensures
        exists|j: int|
            0 <= j < plan.len() && (#[trigger] plan[j]).name@ == block_prefix(l) + "stream_a."@ + t
                && plan[j].origin == Origin::Copied(i as usize),
        exists|j: int|
            0 <= j < plan.len() && (#[trigger] plan[j]).name@ == block_prefix(l) + "stream_b."@ + t
                && plan[j].origin == Origin::Copied(i as usize) && plan[j].latitude is Some
                && plan[j].latitude->0 == n + 50,
        fusion(k) < n ==> exists|j: int|
            0 <= j < plan.len() && (#[trigger] plan[j]).name@ == "anastomosis."@ + decimal(k)
                + ".gate.weight"@ && plan[j].origin is GateWeight && plan[j].origin->GateWeight_0 == 2
                * width,
{
    let d = n as nat;
    let columns = (2 * width) as nat;
    assert(crate::growth::depth_in(m) == d && 2 * crate::growth::hidden_in(m) == columns);
    law_cord_doubles_the_rest(tensors, d, fusion_count(d), columns, plan, i, l, t);
    if fusion(k) < n {
        law_cord_adds_gates(tensors, d, fusion_count(d), columns, plan, k);
    }
}

} // verus!
