//! What depth surgery does to each tensor of a checkpoint, spelled out by the names of the tensors.
use crate::checkpoint::{
    distinct_names, gate_bias_name, gate_weight_name, has_planned, is_gate, is_gate_bias,
    is_gate_weight, lemma_gate_names_distinct, names_of, Origin, Planned, TensorInfo,
};
use crate::config::numbers_at;
use crate::fusion::{fusion, fusion_layers, is_fusion, lemma_fusion_count};
use crate::growth::{
    depth_in, gates_from, gates_to, grown_config, grown_from, grown_latitude, hidden_in,
    is_clonable, is_dual, is_grown, is_grown_checkpoint, is_growth, lemma_moved, moved, surgery_course, tail_in,
    tilts, SurgeryCourse, SurgeryError,
};
use crate::json::{list_or_empty, number_at, Members};
use crate::names::block_prefix;
use crate::numerals::decimal;
use crate::surgery_laws::{lemma_block_is_no_gate, lemma_fusion_member, lemma_same_place};
use crate::text::{ends_with, lemma_prefix_parts, lemma_starts_with, starts_with};
use vstd::prelude::*;

verus! {

/// What two streams and their experts are called within a block.
pub proof fn lemma_parts_differ(t: Seq<char>)
    ensures
        starts_with("stream_a."@ + t, "stream_a."@),
        !starts_with("stream_a."@ + t, "stream_b."@),
        starts_with("stream_b."@ + t, "stream_b."@),
        !starts_with("stream_b."@ + t, "stream_a."@),
        starts_with("experts."@ + t, "experts."@),
        !starts_with("experts."@ + t, "stream_a."@),
        !starts_with("experts."@ + t, "stream_b."@),
{
    reveal_strlit("stream_a.");
    reveal_strlit("stream_b.");
    reveal_strlit("experts.");
    lemma_starts_with(t, "stream_a."@);
    lemma_starts_with(t, "stream_b."@);
    lemma_starts_with(t, "experts."@);
    assert(("stream_a."@ + t)[7] == 'a');
    assert(("stream_b."@ + t)[7] == 'b');
    assert(("experts."@ + t)[0] == 'e');
    if starts_with("stream_a."@ + t, "stream_b."@) {
        assert(("stream_a."@ + t).subrange(0, 9)[7] == 'b');
    }
    if starts_with("stream_b."@ + t, "stream_a."@) {
        assert(("stream_b."@ + t).subrange(0, 9)[7] == 'a');
    }
    if starts_with("experts."@ + t, "stream_a."@) {
        assert(("experts."@ + t).subrange(0, 9)[0] == 's');
    }
    if starts_with("experts."@ + t, "stream_b."@) {
        assert(("experts."@ + t).subrange(0, 9)[0] == 's');
    }
}

/// The place in a plan of what a tensor of the last block becomes.
proof fn lemma_copy_of(
    tensors: Seq<TensorInfo>,
    n: nat,
    dual: bool,
    nudge: Option<usize>,
    from: nat,
    to: nat,
    columns: nat,
    plan: Seq<Planned>,
    i: int,
    t: Seq<char>,
) -> (j: int)
    requires
        n >= 1,
        distinct_names(tensors),
        is_growth(tensors, n, dual, nudge, from, to, columns, plan),
        0 <= i < tensors.len(),
        tensors[i].name@ == block_prefix((n - 1) as nat) + t,
        is_clonable((n - 1) as nat, dual, tensors[i].name@),
    ensures
        0 <= j < plan.len(),
        plan[j].name@ == block_prefix(n) + t,
        plan[j].origin == Origin::Copied(i as usize),
        i as usize == i,
        is_grown(tensors, n, dual, nudge, plan[j]),
        starts_with(plan[j].name@, block_prefix(n)),
        tail_in(n, plan[j].name@) == t,
{
    let m = (n - 1) as nat;
    let name = tensors[i].name@;
    let names = names_of(tensors);
    let new = moved(m, n, name);
    lemma_starts_with(t, block_prefix(m));
    lemma_starts_with(t, block_prefix(n));
    lemma_moved(m, n, name);
    assert(new == block_prefix(n) + t);
    assert(names[i] == name);
    assert(names.contains(moved(n, m, new)));
    assert(grown_from(names, n, dual, new) == Some(name));
    lemma_block_is_no_gate(new, n, from, to);
    assert(has_planned(plan, new));
    let j = choose|j: int| 0 <= j < plan.len() && (#[trigger] plan[j]).name@ == new;
    assert(is_grown(tensors, n, dual, nudge, plan[j]));
    match plan[j].origin {
        Origin::Copied(k) => {
            lemma_same_place(tensors, i, k as int);
        },
        _ => {},
    }
    j
}

/// A model of two streams grows by all of its last layer: whatever stands there under the first stream,
/// the second stream or the experts stands in the same place of the new layer, made of that tensor. The
/// first stream is perturbed at the new depth, the second a thousand beyond, the shared experts not at
/// all.
pub proof fn law_dual_growth_copies_streams_and_experts(
    tensors: Seq<TensorInfo>,
    n: nat,
    nudge: Option<usize>,
    from: nat,
    to: nat,
    columns: nat,
    plan: Seq<Planned>,
    i: int,
    s: Seq<char>,
    t: Seq<char>,
)
    requires
        n >= 1,
        distinct_names(tensors),
        is_growth(tensors, n, true, nudge, from, to, columns, plan),
        0 <= i < tensors.len(),
        s == "stream_a."@ || s == "stream_b."@ || s == "experts."@,
        tensors[i].name@ == block_prefix((n - 1) as nat) + s + t,
    ensures
        exists|j: int|
            0 <= j < plan.len() && (#[trigger] plan[j]).name@ == block_prefix(n) + s + t
                && plan[j].origin == Origin::Copied(i as usize) && match plan[j].latitude {
                Some(l) => (s == "stream_a."@ && l == n) || (s == "stream_b."@ && l == n + 1000),
                None => s == "experts."@,
            },
{
    let m = (n - 1) as nat;
    lemma_parts_differ(t);
    lemma_starts_with(s + t, block_prefix(m));
    assert(tensors[i].name@ =~= block_prefix(m) + (s + t));
    let j = lemma_copy_of(tensors, n, true, nudge, from, to, columns, plan, i, s + t);
    assert(block_prefix(n) + (s + t) =~= block_prefix(n) + s + t);
}

/// A model of one stream grows by all of its last layer, whatever stands there, perturbed at the new
/// depth.
pub proof fn law_single_growth_copies_whole_layer(
    tensors: Seq<TensorInfo>,
    n: nat,
    nudge: Option<usize>,
    from: nat,
    to: nat,
    columns: nat,
    plan: Seq<Planned>,
    i: int,
    t: Seq<char>,
)
    requires
        n >= 1,
        distinct_names(tensors),
        is_growth(tensors, n, false, nudge, from, to, columns, plan),
        0 <= i < tensors.len(),
        tensors[i].name@ == block_prefix((n - 1) as nat) + t,
    ensures
        exists|j: int|
            0 <= j < plan.len() && (#[trigger] plan[j]).name@ == block_prefix(n) + t
                && plan[j].origin == Origin::Copied(i as usize) && plan[j].latitude is Some
                && plan[j].latitude->0 == n,
{
    lemma_starts_with(t, block_prefix((n - 1) as nat));
    let j = lemma_copy_of(tensors, n, false, nudge, from, to, columns, plan, i, t);
}

/// Depth surgery makes nothing up: but for the new gates, each tensor of the grown model is a tensor of
/// the old one, under its own name, or under the new layer where it stood under the last; of two streams
/// only what lies under a stream or the experts moves. Outside the new layer nothing is perturbed.
pub proof fn law_growth_makes_nothing_else(
    tensors: Seq<TensorInfo>,
    n: nat,
    dual: bool,
    nudge: Option<usize>,
    from: nat,
    to: nat,
    columns: nat,
    plan: Seq<Planned>,
    j: int,
)
    requires
        n >= 1,
        is_growth(tensors, n, dual, nudge, from, to, columns, plan),
        0 <= j < plan.len(),
    ensures
        match plan[j].origin {
            Origin::Copied(k) => {
                let old = tensors[k as int].name@;
                &&& k < tensors.len()
                &&& old == plan[j].name@ || exists|t: Seq<char>|
                    plan[j].name@ == #[trigger] (block_prefix(n) + t) && old == block_prefix(
                        (n - 1) as nat,
                    ) + t && (dual ==> starts_with(t, "stream_a."@) || starts_with(t, "stream_b."@)
                        || starts_with(t, "experts."@))
                &&& plan[j].latitude is Some ==> starts_with(plan[j].name@, block_prefix(n))
            },
            Origin::GateWeight(c) => c == columns && plan[j].latitude is None && exists|k: nat|
                from <= k < to && plan[j].name@ == #[trigger] ("anastomosis."@ + decimal(k)
                    + ".gate.weight"@),
            Origin::GateBias => plan[j].latitude is None && exists|k: nat|
                from <= k < to && plan[j].name@ == #[trigger] ("anastomosis."@ + decimal(k)
                    + ".gate.bias"@),
        },
        forall|i: int| 0 <= i < plan.len() && i != j ==> (#[trigger] plan[i]).name@ != plan[j].name@,
{
    let p = plan[j];
    let name = p.name@;
    if is_gate(name, from, to) {
        lemma_fresh_gate_names(plan[j], from, to, columns);
    } else {
        assert(is_grown(tensors, n, dual, nudge, p));
        let m = (n - 1) as nat;
        let source = moved(n, m, name);
        let names = names_of(tensors);
        if is_clonable(n, dual, name) && names.contains(source) {
            let t = tail_in(n, name);
            lemma_starts_with(name, block_prefix(n));
            assert(name == block_prefix(n) + t);
        }
    }
    assert forall|i: int| 0 <= i < plan.len() && i != j implies (#[trigger] plan[i]).name@
        != plan[j].name@ by {
        if i < j {
            assert(plan[i].name@ != plan[j].name@);
        } else {
            assert(plan[j].name@ != plan[i].name@);
        }
    }
}

/// A fresh part of a gate is called what its part is called.
pub proof fn lemma_fresh_gate_names(p: Planned, from: nat, to: nat, columns: nat)
    requires
        is_gate(p.name@, from, to),
        crate::checkpoint::is_fresh_gate(p, from, to, columns),
    ensures
        p.latitude is None,
        !p.nudged,
        match p.origin {
            Origin::GateWeight(c) => c == columns && exists|k: nat|
                from <= k < to && p.name@ == #[trigger] ("anastomosis."@ + decimal(k)
                    + ".gate.weight"@),
            Origin::GateBias => exists|k: nat|
                from <= k < to && p.name@ == #[trigger] ("anastomosis."@ + decimal(k)
                    + ".gate.bias"@),
            _ => false,
        },
{
    if is_gate_weight(p.name@, from, to) {
        let k = choose|k: nat| from <= k < to && p.name@ == #[trigger] gate_weight_name(k);
        assert(p.name@ == "anastomosis."@ + decimal(k) + ".gate.weight"@);
    } else {
        let k = choose|k: nat| from <= k < to && p.name@ == #[trigger] gate_bias_name(k);
        assert(p.name@ == "anastomosis."@ + decimal(k) + ".gate.bias"@);
    }
}

/// Each new gate has its weight, as wide as both streams, and its bias.
pub proof fn law_growth_adds_gates(
    tensors: Seq<TensorInfo>,
    n: nat,
    dual: bool,
    nudge: Option<usize>,
    from: nat,
    to: nat,
    columns: nat,
    plan: Seq<Planned>,
    k: nat,
)
    requires
        is_growth(tensors, n, dual, nudge, from, to, columns, plan),
        from <= k < to,
    ensures
        exists|j: int|
            0 <= j < plan.len() && (#[trigger] plan[j]).name@ == "anastomosis."@ + decimal(k)
                + ".gate.weight"@ && plan[j].origin is GateWeight && plan[j].origin->GateWeight_0
                == columns && plan[j].latitude is None && !plan[j].nudged,
        exists|j: int|
            0 <= j < plan.len() && (#[trigger] plan[j]).name@ == "anastomosis."@ + decimal(k)
                + ".gate.bias"@ && plan[j].origin is GateBias && plan[j].latitude is None
                && !plan[j].nudged,
{
    let w = gate_weight_name(k);
    let b = gate_bias_name(k);
    assert(is_gate_weight(w, from, to));
    assert(is_gate_bias(b, from, to));
    assert(has_planned(plan, w));
    assert(has_planned(plan, b));
    let j = choose|j: int| 0 <= j < plan.len() && (#[trigger] plan[j]).name@ == w;
    assert(is_gate(plan[j].name@, from, to));
    let i = choose|i: int| 0 <= i < plan.len() && (#[trigger] plan[i]).name@ == b;
    assert(is_gate(plan[i].name@, from, to));
    assert(!is_gate_weight(b, from, to)) by {
        if is_gate_weight(b, from, to) {
            let x = choose|x: nat| from <= x < to && b == #[trigger] gate_weight_name(x);
            lemma_gate_names_distinct(x, k);
        }
    }
}

/// The routers of the new layer, one in each stream, are tilted by the experts' credit exactly where
/// there is a credit for each of their rows.
pub proof fn law_growth_nudges_new_routers(
    tensors: Seq<TensorInfo>,
    n: nat,
    dual: bool,
    nudge: Option<usize>,
    from: nat,
    to: nat,
    columns: nat,
    plan: Seq<Planned>,
    i: int,
    s: Seq<char>,
)
    requires
        n >= 1,
        distinct_names(tensors),
        is_growth(tensors, n, dual, nudge, from, to, columns, plan),
        0 <= i < tensors.len(),
        if dual {
            s == "stream_a."@ || s == "stream_b."@
        } else {
            s == Seq::<char>::empty()
        },
        tensors[i].name@ == block_prefix((n - 1) as nat) + s + "moe.gate.weight"@,
    ensures
        exists|j: int|
            0 <= j < plan.len() && (#[trigger] plan[j]).name@ == block_prefix(n) + s
                + "moe.gate.weight"@ && plan[j].origin == Origin::Copied(i as usize)
                && plan[j].nudged == (nudge matches Some(rows) && tensors[i].dims@.len() == 2
                && tensors[i].dims@[0] == rows),
{
    let m = (n - 1) as nat;
    let t = s + "moe.gate.weight"@;
    lemma_parts_differ("moe.gate.weight"@);
    lemma_starts_with(t, block_prefix(m));
    assert(tensors[i].name@ =~= block_prefix(m) + t);
    let j = lemma_copy_of(tensors, n, dual, nudge, from, to, columns, plan, i, t);
    let name = plan[j].name@;
    assert(block_prefix(n) + t =~= block_prefix(n) + s + "moe.gate.weight"@);
    reveal_strlit(".");
    reveal_strlit("stream_a.");
    reveal_strlit("stream_b.");
    reveal_strlit("moe.gate.weight");
    reveal_strlit(".moe.gate.weight");
    assert(name.subrange(name.len() - 16, name.len() as int) =~= ".moe.gate.weight"@);
    assert(ends_with(name, ".moe.gate.weight"@));
    assert(grown_latitude(n, dual, name) is Some);
}

/// Nothing is tilted but routers of the new layer, and nothing where there is no credit.
pub proof fn law_growth_nudges_nothing_else(
    tensors: Seq<TensorInfo>,
    n: nat,
    dual: bool,
    nudge: Option<usize>,
    from: nat,
    to: nat,
    columns: nat,
    plan: Seq<Planned>,
    j: int,
)
    requires
        is_growth(tensors, n, dual, nudge, from, to, columns, plan),
        0 <= j < plan.len(),
        plan[j].nudged,
    ensures
        nudge is Some,
        plan[j].latitude is Some,
        starts_with(plan[j].name@, block_prefix(n)),
        exists|u: Seq<char>| plan[j].name@ == #[trigger] (u + ".moe.gate.weight"@),
{
    let name = plan[j].name@;
    assert(is_grown(tensors, n, dual, nudge, plan[j]));
    let w = ".moe.gate.weight"@;
    let u = name.take(name.len() - w.len());
    assert(name =~= u + w);
}

/// The numbers that a surgery goes by: the depth and the width are those of the configuration, none
/// where it has none, and a model has two streams where the configuration says two or more.
pub proof fn law_surgery_reads_config(m: Members)
    ensures
        depth_in(m) == (match number_at(m, "num_layers"@) {
            Some(k) => k as usize as nat,
            None => 0,
        }),
        hidden_in(m) == (match number_at(m, "hidden_size"@) {
            Some(k) => k as usize as nat,
            None => 0,
        }),
        is_dual(m) <==> (number_at(m, "num_streams"@) matches Some(k) && k as usize >= 2),
{
}

/// A model of two streams has a gate for each fusion layer below its depth, so it gets one new gate
/// where the layer that it grows by is a fusion layer, and none otherwise. A model of one stream has no
/// gates.
pub proof fn law_growth_gates_follow_fusion(m: Members, k: nat)
    ensures
        !is_dual(m) ==> gates_from(m) == 0 && gates_to(m) == 0,
        is_dual(m) ==> (k < gates_from(m) <==> fusion(k) < depth_in(m)),
        is_dual(m) ==> (k < gates_to(m) <==> fusion(k) <= depth_in(m)),
        is_dual(m) ==> gates_to(m) == gates_from(m) + (if is_fusion(depth_in(m)) {
            1nat
        } else {
            0
        }),
{
    lemma_fusion_count(depth_in(m), k);
    lemma_fusion_count(depth_in(m) + 1, k);
}

/// The configuration lists a new fusion layer, and only where there is one: its list is else left as it
/// is.
pub proof fn law_growth_config_lists_new_fusion_layer(m: Members)
    requires
        depth_in(m) < usize::MAX,
    ensures
        number_at(grown_config(m), "num_layers"@) is Some,
        number_at(grown_config(m), "num_layers"@)->0 == depth_in(m) + 1,
        is_dual(m) && is_fusion(depth_in(m)) ==> numbers_at(
            grown_config(m),
            "fusion_layers"@,
        ).map_values(|l: usize| l as nat) == fusion_layers(depth_in(m) + 1),
        !(is_dual(m) && is_fusion(depth_in(m))) ==> number_at(grown_config(m), "fusion_layers"@)
            == number_at(m, "fusion_layers"@) && list_or_empty(grown_config(m), "fusion_layers"@)
            == list_or_empty(m, "fusion_layers"@),
{
    reveal_strlit("num_layers");
    reveal_strlit("fusion_layers");
    assert("num_layers"@.len() == 10);
    assert("fusion_layers"@.len() == 13);
    if is_dual(m) && is_fusion(depth_in(m)) {
        lemma_fusion_member(grown_config(m), depth_in(m) + 1);
    }
}

/// The checkpoint has a tensor under a stream or the experts of block `l`.
pub open spec fn has_streams(names: Seq<Seq<char>>, l: nat) -> bool {
    exists|i: int| #![trigger names[i]]
        0 <= i < names.len() && (starts_with(names[i], block_prefix(l) + "stream_a."@)
            || starts_with(names[i], block_prefix(l) + "stream_b."@) || starts_with(
            names[i],
            block_prefix(l) + "experts."@,
        ))
}

/// When a model grows: the configuration gives its depth, which is at least one and can be counted up;
/// a model of two streams has tensors of a stream or of experts in its last layer; and where the new
/// layer is a fusion layer the width is known. Without a depth or that width the number is missing;
/// without such tensors nothing happens.
pub proof fn law_growth_course(m: Members, names: Seq<Seq<char>>)
    ensures
        ({
            let course = surgery_course(m, names);
            let depth = number_at(m, "num_layers"@);
            let width = number_at(m, "hidden_size"@);
            let d = depth->0 as usize as nat;
            let counts = depth is Some && 0 < d < usize::MAX;
            let stranger = is_dual(m) && !has_streams(names, (d - 1) as nat);
            let fuses = is_dual(m) && is_fusion(d);
            &&& depth is None ==> course == SurgeryCourse::Fails(SurgeryError::MissingNumber)
            &&& depth is Some && !counts ==> course == SurgeryCourse::Fails(SurgeryError::OutOfRange)
            &&& course is Aborts <==> counts && stranger
            &&& course is Grows <==> counts && !stranger && (is_dual(m) ==> d + 1000 <= usize::MAX)
                && (fuses ==> width is Some && 2 * (width->0 as usize) <= usize::MAX)
            &&& counts && !stranger && d + 1000 <= usize::MAX && fuses && width is None ==> course
                == SurgeryCourse::Fails(SurgeryError::MissingNumber)
        }),
{
    let depth = number_at(m, "num_layers"@);
    let d = depth->0 as usize as nat;
    if depth is Some && d > 0 {
        let l = (d - 1) as nat;
        assert(depth_in(m) == d);
        assert(has_streams(names, l) == crate::growth::has_clonable(names, l, true)) by {
            assert forall|i: int| 0 <= i < names.len() implies is_clonable(
                l,
                true,
                #[trigger] names[i],
            ) == (starts_with(names[i], block_prefix(l) + "stream_a."@) || starts_with(
                names[i],
                block_prefix(l) + "stream_b."@,
            ) || starts_with(names[i], block_prefix(l) + "experts."@)) by {
                lemma_prefix_parts(names[i], block_prefix(l), "stream_a."@);
                lemma_prefix_parts(names[i], block_prefix(l), "stream_b."@);
                lemma_prefix_parts(names[i], block_prefix(l), "experts."@);
            }
            if has_streams(names, l) {
                let i = choose|i: int| #![trigger names[i]]
                    0 <= i < names.len() && (starts_with(names[i], block_prefix(l) + "stream_a."@)
                        || starts_with(names[i], block_prefix(l) + "stream_b."@) || starts_with(
                        names[i],
                        block_prefix(l) + "experts."@,
                    ));
                assert(is_clonable(l, true, names[i]));
            }
            if crate::growth::has_clonable(names, l, true) {
                let i = choose|i: int|
                    0 <= i < names.len() && is_clonable(l, true, #[trigger] names[i]);
                assert(is_clonable(l, true, names[i]));
            }
        }
    }
}

/// A router is tilted only by a tilt above zero and where some expert has a credit other than zero; a
/// tilt that is no number counts as one above zero.
pub proof fn law_tilt_needs_credit(prior: Seq<u32>, scale: u32)
    ensures
        tilts(prior, scale) ==> 0 < scale < 0x8000_0000 || scale > 0xFF80_0000,
        tilts(prior, scale) ==> exists|e: int|
            0 <= e < prior.len() && (#[trigger] prior[e]) != 0 && prior[e] != 0x8000_0000,
        0 < scale < 0x8000_0000 && (exists|e: int|
            0 <= e < prior.len() && (#[trigger] prior[e]) != 0 && prior[e] != 0x8000_0000) ==> tilts(
            prior,
            scale,
        ),
{
    if tilts(prior, scale) {
        let e = choose|e: int|
            0 <= e < prior.len() && !crate::fraction::is_equal(#[trigger] prior[e], 0);
        assert(prior[e] != 0 && prior[e] != 0x8000_0000);
    }
    if exists|e: int| 0 <= e < prior.len() && (#[trigger] prior[e]) != 0 && prior[e] != 0x8000_0000 {
        let e = choose|e: int|
            0 <= e < prior.len() && (#[trigger] prior[e]) != 0 && prior[e] != 0x8000_0000;
        assert(!crate::fraction::is_equal(prior[e], 0));
    }
}

/// What comes of a surgery on a model that its configuration says has `n` layers: whatever its last layer
/// holds under a stream or the experts, or at all where it has one stream, stands in layer `n` too; and
/// where `n` is a fusion layer of a model of two streams, so does a gate twice as wide as the
/// configuration says a stream is.
pub proof fn law_grown_checkpoint_follows_config(
    m: Members,
    tensors: Seq<TensorInfo>,
    nudge: Option<usize>,
    plan: Seq<Planned>,
    i: int,
    n: u64,
    width: u64,
    s: Seq<char>,
    t: Seq<char>,
    k: nat,
)
    requires
        is_grown_checkpoint(m, tensors, nudge, plan),
        distinct_names(tensors),
        1 <= n <= usize::MAX,
        width <= usize::MAX,
        number_at(m, "num_layers"@) == Some(n),
        number_at(m, "hidden_size"@) == Some(width),
        0 <= i < tensors.len(),
        if number_at(m, "num_streams"@) matches Some(streams) && streams as usize >= 2 {
            s == "stream_a."@ || s == "stream_b."@ || s == "experts."@
        } else {
            s == Seq::<char>::empty()
        },
        tensors[i].name@ == block_prefix((n - 1) as nat) + s + t,
    ensures
        exists|j: int|
            0 <= j < plan.len() && (#[trigger] plan[j]).name@ == block_prefix(n as nat) + s + t
                && plan[j].origin == Origin::Copied(i as usize),
        is_dual(m) && fusion(k) == n ==> exists|j: int|
            0 <= j < plan.len() && (#[trigger] plan[j]).name@ == "anastomosis."@ + decimal(k)
                + ".gate.weight"@ && plan[j].origin is GateWeight && plan[j].origin->GateWeight_0 == 2
                * width,
{
    law_surgery_reads_config(m);
    let d = n as nat;
    let columns = (2 * width) as nat;
    assert(depth_in(m) == d && 2 * hidden_in(m) == columns);
    if is_dual(m) {
        law_dual_growth_copies_streams_and_experts(
            tensors,
            d,
            nudge,
            gates_from(m),
            gates_to(m),
            columns,
            plan,
            i,
            s,
            t,
        );
        if fusion(k) == n {
            law_growth_gates_follow_fusion(m, k);
            law_growth_adds_gates(
                tensors,
                d,
                true,
                nudge,
                gates_from(m),
                gates_to(m),
                columns,
                plan,
                k,
            );
        }
    } else {
        assert(block_prefix((d - 1) as nat) + s + t =~= block_prefix((d - 1) as nat) + t);
        assert(block_prefix(d) + s + t =~= block_prefix(d) + t);
        law_single_growth_copies_whole_layer(
            tensors,
            d,
            nudge,
            gates_from(m),
            gates_to(m),
            columns,
            plan,
            i,
            t,
        );
    }
}

/// Depth surgery loses no name: whatever the checkpoint holds, a tensor of that name is in the grown one.
pub proof fn law_growth_loses_no_name(
    tensors: Seq<TensorInfo>,
    n: nat,
    dual: bool,
    nudge: Option<usize>,
    from: nat,
    to: nat,
    columns: nat,
    plan: Seq<Planned>,
    i: int,
)
    requires
        is_growth(tensors, n, dual, nudge, from, to, columns, plan),
        0 <= i < tensors.len(),
    ensures
        exists|j: int| 0 <= j < plan.len() && (#[trigger] plan[j]).name@ == tensors[i].name@,
{
    let name = tensors[i].name@;
    let names = names_of(tensors);
    assert(names[i] == name);
    assert(names.contains(name));
    assert(grown_from(names, n, dual, name) is Some);
    assert(has_planned(plan, name));
}

/// The new layer is perturbed as a whole, wherever its tensors come from: one stream at the new depth, of
/// two streams the second a thousand beyond the first, and what the streams share not at all.
pub proof fn law_growth_perturbs_all_of_the_new_layer(
    tensors: Seq<TensorInfo>,
    n: nat,
    dual: bool,
    nudge: Option<usize>,
    from: nat,
    to: nat,
    columns: nat,
    plan: Seq<Planned>,
    j: int,
    t: Seq<char>,
)
    requires
        is_growth(tensors, n, dual, nudge, from, to, columns, plan),
        0 <= j < plan.len(),
        plan[j].name@ == block_prefix(n) + t,
    ensures
        !dual ==> plan[j].latitude is Some && plan[j].latitude->0 == n,
        dual && starts_with(t, "stream_a."@) ==> plan[j].latitude is Some && plan[j].latitude->0 == n,
        dual && starts_with(t, "stream_b."@) ==> plan[j].latitude is Some && plan[j].latitude->0 == n
            + 1000,
        dual && !starts_with(t, "stream_a."@) && !starts_with(t, "stream_b."@) ==> plan[j].latitude
            is None,
{
    let name = plan[j].name@;
    lemma_starts_with(t, block_prefix(n));
    lemma_block_is_no_gate(name, n, from, to);
    assert(is_grown(tensors, n, dual, nudge, plan[j]));
    if starts_with(t, "stream_a."@) && starts_with(t, "stream_b."@) {
        lemma_starts_with(t, "stream_a."@);
        lemma_parts_differ(t.skip("stream_a."@.len() as int));
    }
}

} // verus!
