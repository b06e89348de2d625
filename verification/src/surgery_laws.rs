//! What holds of every surgery, whatever the model.
use crate::checkpoint::{
    distinct_names, gate_bias_name, gate_weight_name, has_planned, is_gate, lemma_gate_is_no_block,
    names_of, Origin, Planned, TensorInfo,
};
use crate::config::{list_member, numbers_at, numbers_of};
use crate::cord::{
    cord_course, cord_names, corded_config, is_cord, is_cord_name, shared_name, stream_a_name,
    stream_b_name,
};
use crate::fusion::{fusion_layers, lemma_fusion_count, lemma_one_layer_adds_at_most_one};
use crate::growth::{
    depth_in, gates_from, gates_to, grown_config, grown_from, grown_latitude, has_clonable,
    is_clonable, is_dual, is_grown, is_growth, lemma_moved, moved, tail_in,
};
use crate::json::{holds_fraction, number_at, reads_as, Members};
use crate::names::{block_of, block_prefix, lemma_block_of};
use crate::text::{contains_text, lemma_starts_with, occurs_at, starts_with};
use vstd::prelude::*;

verus! {

/// What lies under a block is no gate.
pub proof fn lemma_block_is_no_gate(name: Seq<char>, layer: nat, from: nat, to: nat)
    requires
        starts_with(name, block_prefix(layer)),
    ensures
        !is_gate(name, from, to),
{
    assert forall|k: nat| name != #[trigger] gate_weight_name(k) by {
        lemma_gate_is_no_block(k, layer);
    }
    assert forall|k: nat| name != #[trigger] gate_bias_name(k) by {
        lemma_gate_is_no_block(k, layer);
    }
}

/// Two places of a checkpoint that hold the same name are one place.
pub proof fn lemma_same_place(tensors: Seq<TensorInfo>, i: int, j: int)
    requires
        distinct_names(tensors),
        0 <= i < tensors.len(),
        0 <= j < tensors.len(),
        tensors[i].name@ == tensors[j].name@,
    ensures
        i == j,
{
    if i < j {
        assert(tensors[i].name@ != tensors[j].name@);
    } else if j < i {
        assert(tensors[j].name@ != tensors[i].name@);
    }
}

/// Depth surgery leaves every tensor outside the new layer as it is, under its name, the gates that
/// are new aside.
pub proof fn law_growth_keeps_old_layers(
    tensors: Seq<TensorInfo>,
    n: nat,
    dual: bool,
    nudge: Option<usize>,
    from: nat,
    to: nat,
    columns: nat,
    plan: Seq<Planned>,
    i: int,
)
    requires
        distinct_names(tensors),
        is_growth(tensors, n, dual, nudge, from, to, columns, plan),
        0 <= i < tensors.len(),
        !starts_with(tensors[i].name@, block_prefix(n)),
        !is_gate(tensors[i].name@, from, to),
    ensures
        exists|j: int|
            0 <= j < plan.len() && (#[trigger] plan[j]).name@ == tensors[i].name@ && plan[j].origin
                == Origin::Copied(i as usize) && plan[j].latitude is None && !plan[j].nudged,
{
    let name = tensors[i].name@;
    let names = names_of(tensors);
    assert(names[i] == name);
    assert(names.contains(name));
    assert(has_planned(plan, name));
    let j = choose|j: int| 0 <= j < plan.len() && (#[trigger] plan[j]).name@ == name;
    assert(is_grown(tensors, n, dual, nudge, plan[j]));
    match plan[j].origin {
        Origin::Copied(k) => {
            lemma_same_place(tensors, i, k as int);
        },
        _ => {},
    }
}

/// Depth surgery makes the new layer of the last one: each of its tensors that goes into a new layer
/// stands in the same place of the new layer.
pub proof fn law_growth_copies_last_layer(
    tensors: Seq<TensorInfo>,
    n: nat,
    dual: bool,
    nudge: Option<usize>,
    from: nat,
    to: nat,
    columns: nat,
    plan: Seq<Planned>,
    i: int,
)
    requires
        n >= 1,
        distinct_names(tensors),
        is_growth(tensors, n, dual, nudge, from, to, columns, plan),
        0 <= i < tensors.len(),
        is_clonable((n - 1) as nat, dual, tensors[i].name@),
    ensures
        exists|j: int|
            0 <= j < plan.len() && (#[trigger] plan[j]).name@ == moved(
                (n - 1) as nat,
                n,
                tensors[i].name@,
            ) && plan[j].origin == Origin::Copied(i as usize),
{
    let m = (n - 1) as nat;
    let name = tensors[i].name@;
    let names = names_of(tensors);
    let new = moved(m, n, name);
    lemma_moved(m, n, name);
    assert(names[i] == name);
    assert(names.contains(moved(n, m, new)));
    assert(grown_from(names, n, dual, new) == Some(name));
    lemma_block_is_no_gate(new, n, from, to);
    assert(has_planned(plan, new));
    let j = choose|j: int| 0 <= j < plan.len() && (#[trigger] plan[j]).name@ == new;
    assert(is_grown(tensors, n, dual, nudge, plan[j]));
    match plan[j].origin {
        Origin::Copied(k) => {
            lemma_same_place(tensors, i, k as int);
        },
        _ => {},
    }
}

/// Depth surgery perturbs and nudges nothing but the new layer, and in a dual-stream model perturbs
/// the two streams at different latitudes, the second beyond every layer of the model.
pub proof fn law_growth_perturbs_new_layer_only(n: nat, dual: bool, name: Seq<char>)
    ensures
        grown_latitude(n, dual, name) is Some ==> starts_with(name, block_prefix(n)),
        !dual && starts_with(name, block_prefix(n)) ==> grown_latitude(n, dual, name) == Some(n),
        grown_latitude(n, dual, name) matches Some(l) ==> l == n || (dual && l > n && starts_with(
            tail_in(n, name),
            "stream_b."@,
        )),
{
}

/// Depth surgery makes the configuration one layer deeper, keeps the number of streams, and touches
/// no member but the depth and the fusion layers: any other, whatever it holds, keeps its text.
pub proof fn law_growth_config(m: Members, key: Seq<char>)
    requires
        depth_in(m) < usize::MAX,
    ensures
        depth_in(grown_config(m)) == depth_in(m) + 1,
        is_dual(grown_config(m)) == is_dual(m),
        key != "num_layers"@ && key != "fusion_layers"@ ==> (grown_config(m).contains_key(key)
            == m.contains_key(key)) && (m.contains_key(key) ==> grown_config(m)[key] == m[key]),
{
    reveal_strlit("num_layers");
    reveal_strlit("num_streams");
    reveal_strlit("fusion_layers");
    assert("num_layers"@.len() == 10);
    assert("num_streams"@.len() == 11);
    assert("fusion_layers"@.len() == 13);
}

/// The configuration lists the fusion layers of its depth.
pub open spec fn lists_fusion_layers(m: Members) -> bool {
    numbers_at(m, "fusion_layers"@).map_values(|l: usize| l as nat) == fusion_layers(depth_in(m))
}

/// The numbers of a list of numbers are those numbers.
proof fn lemma_numbers_of_list(items: Seq<u64>)
    ensures
        numbers_of(items.map_values(|n: u64| Some(n))) == items.map_values(|n: u64| n as usize),
    decreases items.len(),
{
    let some = items.map_values(|n: u64| Some(n));
    if items.len() > 0 {
        lemma_numbers_of_list(items.drop_last());
        assert(some.drop_last() =~= items.drop_last().map_values(|n: u64| Some(n)));
        assert(some.last() == Some(items.last()));
    }
    assert(numbers_of(some) =~= items.map_values(|n: u64| n as usize));
}

/// A member that holds the fusion layers of a depth gives them back.
pub proof fn lemma_fusion_member(m: Members, n: nat)
    requires
        n <= usize::MAX,
        m.contains_key("fusion_layers"@),
        m["fusion_layers"@] == list_member(fusion_layers(n).map_values(|l: nat| l as u64)),
    ensures
        numbers_at(m, "fusion_layers"@).map_values(|l: usize| l as nat) == fusion_layers(n),
{
    let items = fusion_layers(n).map_values(|l: nat| l as u64);
    lemma_numbers_of_list(items);
    let read = numbers_at(m, "fusion_layers"@).map_values(|l: usize| l as nat);
    assert forall|i: int| 0 <= i < read.len() implies read[i] == fusion_layers(n)[i] by {
        lemma_fusion_count(n, i as nat);
        assert(items[i] == fusion_layers(n)[i] as u64);
    }
    assert(read =~= fusion_layers(n));
}

/// Cord surgery lists the fusion layers in the configuration.
pub proof fn law_cord_lists_fusion_layers(m: Members)
    ensures
        lists_fusion_layers(corded_config(m)),
{
    reveal_strlit("num_layers");
    reveal_strlit("num_streams");
    reveal_strlit("fusion_layers");
    assert("num_layers"@.len() == 10);
    assert("num_streams"@.len() == 11);
    assert("fusion_layers"@.len() == 13);
    lemma_fusion_member(corded_config(m), depth_in(m));
}

/// Depth surgery keeps the list of fusion layers of a dual-stream model in step with its depth.
pub proof fn law_growth_keeps_fusion_layers_in_step(m: Members)
    requires
        depth_in(m) < usize::MAX,
        is_dual(m),
        lists_fusion_layers(m),
    ensures
        lists_fusion_layers(grown_config(m)),
{
    law_growth_config(m, "fusion_layers"@);
    reveal_strlit("num_layers");
    reveal_strlit("fusion_layers");
    assert("num_layers"@.len() == 10);
    assert("fusion_layers"@.len() == 13);
    lemma_one_layer_adds_at_most_one(depth_in(m));
    if gates_from(m) < gates_to(m) {
        lemma_fusion_member(grown_config(m), depth_in(m) + 1);
    } else {
        assert(fusion_layers(depth_in(m) + 1) =~= fusion_layers(depth_in(m)));
    }
}

/// Cord surgery makes the model one of two streams, and touches no member of the configuration but the
/// streams and the fusion layers: any other, whatever it holds, keeps its text.
pub proof fn law_cord_config(m: Members, key: Seq<char>)
    ensures
        is_dual(corded_config(m)),
        depth_in(corded_config(m)) == depth_in(m),
        key != "num_streams"@ && key != "fusion_layers"@ ==> (corded_config(m).contains_key(key)
            == m.contains_key(key)) && (m.contains_key(key) ==> corded_config(m)[key] == m[key]),
{
    reveal_strlit("num_layers");
    reveal_strlit("num_streams");
    reveal_strlit("fusion_layers");
    assert("num_layers"@.len() == 10);
    assert("num_streams"@.len() == 11);
    assert("fusion_layers"@.len() == 13);
}

/// A configuration that was written and read again gives the same numbers and lists, so the same depth
/// and streams; and the same texts, fractions aside.
pub proof fn law_written_config_reads_the_same(read: Members, m: Members, key: Seq<char>)
    requires
        reads_as(Some(read), m),
    ensures
        number_at(read, key) == number_at(m, key),
        numbers_at(read, key) == numbers_at(m, key),
        read.contains_key(key) == m.contains_key(key),
        m.contains_key(key) && !holds_fraction(m[key].2, false) ==> read[key] == m[key],
        depth_in(read) == depth_in(m),
        is_dual(read) == is_dual(m),
{
    lemma_same_keys(read, m, key);
    lemma_same_keys(read, m, "num_layers"@);
    lemma_same_keys(read, m, "num_streams"@);
}

/// Two configurations with the same keys.
proof fn lemma_same_keys(read: Members, m: Members, key: Seq<char>)
    requires
        read.dom() == m.dom(),
    ensures
        read.contains_key(key) == m.contains_key(key),
{
    assert(read.dom().contains(key) == m.dom().contains(key));
}

/// A model that has two streams is not split again: cord surgery on its own result changes nothing.
pub proof fn law_cord_applies_once(m: Members)
    requires
        cord_course(m) is Cords,
    ensures
        is_dual(corded_config(m)),
        depth_in(corded_config(m)) == depth_in(m),
        cord_course(corded_config(m)) is AlreadyApplied,
{
    reveal_strlit("num_layers");
    reveal_strlit("num_streams");
    reveal_strlit("hidden_size");
    reveal_strlit("fusion_layers");
    assert("num_layers"@.len() == 10);
    assert("fusion_layers"@.len() == 13);
    assert("num_streams"@.len() == 11);
    assert("hidden_size"@[0] == 'h');
    assert("num_streams"@[0] == 'n');
}

/// Cord surgery loses no tensor: each stands in the new checkpoint under every name that it goes by,
/// the gates aside.
pub proof fn law_cord_keeps_every_tensor(
    tensors: Seq<TensorInfo>,
    n: nat,
    gates: nat,
    columns: nat,
    plan: Seq<Planned>,
    i: int,
    name: Seq<char>,
)
    requires
        n <= usize::MAX,
        distinct_names(tensors),
        is_cord(tensors, n, gates, columns, plan),
        0 <= i < tensors.len(),
        cord_names(tensors[i].name@, n).contains(name),
        !is_gate(name, 0, gates),
    ensures
        exists|j: int|
            0 <= j < plan.len() && (#[trigger] plan[j]).name@ == name && plan[j].origin
                == Origin::Copied(i as usize),
{
    let names = names_of(tensors);
    assert(names[i] == tensors[i].name@);
    assert(is_cord_name(names, n, name));
    assert(has_planned(plan, name));
    let j = choose|j: int| 0 <= j < plan.len() && (#[trigger] plan[j]).name@ == name;
    match plan[j].origin {
        Origin::Copied(k) => {
            crate::cord::lemma_cord_names_disjoint(
                tensors[i].name@,
                tensors[k as int].name@,
                n,
                name,
            );
            lemma_same_place(tensors, i, k as int);
        },
        _ => {},
    }
}

/// Cord surgery makes the streams twins: a block's tensor that is no expert's stands in both, made of
/// the one old tensor, and the second stream's is perturbed.
pub proof fn law_cord_streams_are_twins(
    tensors: Seq<TensorInfo>,
    n: nat,
    gates: nat,
    columns: nat,
    plan: Seq<Planned>,
    i: int,
    l: nat,
)
    requires
        n <= usize::MAX,
        distinct_names(tensors),
        is_cord(tensors, n, gates, columns, plan),
        0 <= i < tensors.len(),
        block_of(tensors[i].name@, n) == Some(l),
        !starts_with(tail_in(l, tensors[i].name@), "moe.experts."@),
    ensures
        exists|j: int|
            0 <= j < plan.len() && (#[trigger] plan[j]).name@ == stream_a_name(
                l,
                tail_in(l, tensors[i].name@),
            ) && plan[j].origin == Origin::Copied(i as usize),
        exists|j: int|
            0 <= j < plan.len() && (#[trigger] plan[j]).name@ == stream_b_name(
                l,
                tail_in(l, tensors[i].name@),
            ) && plan[j].origin == Origin::Copied(i as usize) && plan[j].latitude is Some,
{
    let tail = tail_in(l, tensors[i].name@);
    let a = stream_a_name(l, tail);
    let b = stream_b_name(l, tail);
    let own = cord_names(tensors[i].name@, n);
    assert(own[0] == a && own[1] == b);
    assert(own.contains(a) && own.contains(b));
    lemma_in_block(l, "stream_a."@ + tail);
    lemma_in_block(l, "stream_b."@ + tail);
    assert(a =~= block_prefix(l) + ("stream_a."@ + tail));
    assert(b =~= block_prefix(l) + ("stream_b."@ + tail));
    lemma_block_is_no_gate(a, l, 0, gates);
    lemma_block_is_no_gate(b, l, 0, gates);
    law_cord_keeps_every_tensor(tensors, n, gates, columns, plan, i, a);
    law_cord_keeps_every_tensor(tensors, n, gates, columns, plan, i, b);
    lemma_stream_b_marked(l, tail);
    let j = choose|j: int|
        0 <= j < plan.len() && (#[trigger] plan[j]).name@ == b && plan[j].origin == Origin::Copied(
            i as usize,
        );
    assert(crate::cord::is_corded(tensors, n, plan[j]));
}

proof fn lemma_in_block(l: nat, tail: Seq<char>)
    ensures
        starts_with(block_prefix(l) + tail, block_prefix(l)),
{
    lemma_starts_with(tail, block_prefix(l));
}

/// The name of a tensor of the second stream tells so.
pub proof fn lemma_stream_b_marked(l: nat, tail: Seq<char>)
    ensures
        contains_text(stream_b_name(l, tail), ".stream_b."@),
{
    reveal_strlit(".");
    reveal_strlit("stream_b.");
    reveal_strlit(".stream_b.");
    let b = stream_b_name(l, tail);
    let k = block_prefix(l).len() - 1;
    assert(b.subrange(k, k + 10) =~= ".stream_b."@);
    assert(occurs_at(b, ".stream_b."@, k));
}

/// After cord surgery the model can grow: where the last layer had a tensor, depth surgery finds
/// tensors of which the next layer is made.
pub proof fn law_growth_follows_cord(
    tensors: Seq<TensorInfo>,
    n: nat,
    gates: nat,
    columns: nat,
    plan: Seq<Planned>,
    i: int,
)
    requires
        1 <= n <= usize::MAX,
        distinct_names(tensors),
        is_cord(tensors, n, gates, columns, plan),
        0 <= i < tensors.len(),
        block_of(tensors[i].name@, n) == Some((n - 1) as nat),
    ensures
        has_clonable(plan.map_values(|p: Planned| p.name@), (n - 1) as nat, true),
{
    let l = (n - 1) as nat;
    let name = tensors[i].name@;
    let tail = tail_in(l, name);
    let new = plan.map_values(|p: Planned| p.name@);
    lemma_block_of(name, n, l);
    if starts_with(tail, "moe.experts."@) {
        let s = shared_name(l, tail);
        let rest = tail.skip("moe."@.len() as int);
        assert(cord_names(name, n)[0] == s);
        assert(cord_names(name, n).contains(s));
        lemma_in_block(l, rest);
        lemma_block_is_no_gate(s, l, 0, gates);
        law_cord_keeps_every_tensor(tensors, n, gates, columns, plan, i, s);
        let j = choose|j: int|
            0 <= j < plan.len() && (#[trigger] plan[j]).name@ == s && plan[j].origin
                == Origin::Copied(i as usize);
        assert(new[j] == s);
        lemma_starts_with(rest, block_prefix(l));
        assert(starts_with(rest, "experts."@)) by {
            reveal_strlit("moe.");
            reveal_strlit("experts.");
            reveal_strlit("moe.experts.");
            assert("moe.experts."@ =~= "moe."@ + "experts."@);
            crate::text::lemma_prefix_parts(tail, "moe."@, "experts."@);
        }
        assert(is_clonable(l, true, new[j]));
    } else {
        law_cord_streams_are_twins(tensors, n, gates, columns, plan, i, l);
        let a = stream_a_name(l, tail);
        let j = choose|j: int|
            0 <= j < plan.len() && (#[trigger] plan[j]).name@ == a && plan[j].origin
                == Origin::Copied(i as usize);
        assert(new[j] == a);
        assert(a =~= block_prefix(l) + ("stream_a."@ + tail));
        lemma_starts_with("stream_a."@ + tail, block_prefix(l));
        lemma_starts_with(tail, "stream_a."@);
        assert(is_clonable(l, true, new[j]));
    }
}

} // verus!
