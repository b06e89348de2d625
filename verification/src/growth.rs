//! Depth surgery: a model grows by one layer, which starts as a perturbed copy of its last layer.
use crate::checkpoint::{
    distinct_names, distinct_planned, find_tensor, has_planned, is_fresh_gate, is_gate,
    lemma_gate_is_no_block, lemma_push_planned, names_gate, names_of, push_gates, Origin, Planned,
    TensorInfo,
};
use crate::config::{list_member, number_member, number_or, ConfigDoc};
use crate::fraction::{below, equal, is_below, is_equal};
use crate::fusion::{fibonacci_fusion_layers, fusion_count, fusion_layers};
use crate::json::{json_pretty, json_text, number_at, reads_as, Members};
use crate::names::{block_prefix, block_prefix_text};
use crate::text::{
    after_prefix, cat, ends_with, has_prefix, has_suffix, lemma_starts_with, starts_with,
};
use vstd::prelude::*;

verus! {

/// How far the latitude of the second stream's new layer lies from the first stream's.
pub const STREAM_B_OFFSET: usize = 1000;

/// Which tensors of a block a new block is made of: all of a single-stream block, and of a
/// dual-stream block those of its two streams and of its experts.
pub open spec fn takes_tail(dual: bool, tail: Seq<char>) -> bool {
    !dual || starts_with(tail, "stream_a."@) || starts_with(tail, "stream_b."@) || starts_with(
        tail,
        "experts."@,
    )
}

/// What follows the block in a name under block `n`.
pub open spec fn tail_in(n: nat, name: Seq<char>) -> Seq<char> {
    name.skip(block_prefix(n).len() as int)
}

/// `name` is a tensor of block `n` of which a new block is made.
pub open spec fn is_clonable(n: nat, dual: bool, name: Seq<char>) -> bool {
    starts_with(name, block_prefix(n)) && takes_tail(dual, tail_in(n, name))
}

/// The name under block `n` in place of block `m`.
pub open spec fn moved(m: nat, n: nat, name: Seq<char>) -> Seq<char> {
    block_prefix(n) + tail_in(m, name)
}

/// The tensor of a checkpoint of `n` layers that the grown model's tensor `name` is made of: under
/// the new block `n`, the tensor in the same place of the last block, where there is one; else the
/// tensor of the same name.
pub open spec fn grown_from(names: Seq<Seq<char>>, n: nat, dual: bool, name: Seq<char>) -> Option<
    Seq<char>,
> {
    let source = moved(n, (n - 1) as nat, name);
    if is_clonable(n, dual, name) && names.contains(source) {
        Some(source)
    } else if names.contains(name) {
        Some(name)
    } else {
        None
    }
}

/// The latitude at which a tensor of the grown model is perturbed: the new depth, shifted for the
/// second stream; nothing outside the new block and nothing for the experts that streams share.
pub open spec fn grown_latitude(n: nat, dual: bool, name: Seq<char>) -> Option<nat> {
    let tail = tail_in(n, name);
    if !starts_with(name, block_prefix(n)) {
        None
    } else if !dual || starts_with(tail, "stream_a."@) {
        Some(n)
    } else if starts_with(tail, "stream_b."@) {
        Some(n + STREAM_B_OFFSET as nat)
    } else {
        None
    }
}

/// The rows of the grown model's tensor `name`, made of `source`, are scaled by the experts'
/// credit: a router of a perturbed part of the new block, one row for each of the `nudge` experts.
pub open spec fn takes_nudge(
    source: TensorInfo,
    n: nat,
    dual: bool,
    nudge: Option<usize>,
    name: Seq<char>,
) -> bool {
    &&& nudge is Some
    &&& grown_latitude(n, dual, name) is Some
    &&& ends_with(name, ".moe.gate.weight"@)
    &&& source.dims@.len() == 2
    &&& source.dims@[0] == nudge->0
}

/// A planned tensor of the grown model that the old checkpoint goes into.
pub open spec fn is_grown(
    tensors: Seq<TensorInfo>,
    n: nat,
    dual: bool,
    nudge: Option<usize>,
    p: Planned,
) -> bool {
    match p.origin {
        Origin::Copied(i) => {
            &&& i < tensors.len()
            &&& grown_from(names_of(tensors), n, dual, p.name@) == Some(tensors[i as int].name@)
            &&& match p.latitude {
                Some(l) => grown_latitude(n, dual, p.name@) == Some(l as nat),
                None => grown_latitude(n, dual, p.name@) is None,
            }
            &&& p.nudged == takes_nudge(tensors[i as int], n, dual, nudge, p.name@)
        },
        _ => false,
    }
}

/// `plan` is the checkpoint of the grown model: every tensor that the old checkpoint goes into, and
/// the fresh gates `from..to`, each name once.
pub open spec fn is_growth(
    tensors: Seq<TensorInfo>,
    n: nat,
    dual: bool,
    nudge: Option<usize>,
    from: nat,
    to: nat,
    columns: nat,
    plan: Seq<Planned>,
) -> bool {
    &&& distinct_planned(plan)
    &&& forall|name: Seq<char>| #[trigger]
        has_planned(plan, name) <==> is_gate(name, from, to) || grown_from(
            names_of(tensors),
            n,
            dual,
            name,
        ) is Some
    &&& forall|j: int|
        #![trigger plan[j]]
        0 <= j < plan.len() ==> if is_gate(plan[j].name@, from, to) {
            is_fresh_gate(plan[j], from, to, columns)
        } else {
            is_grown(tensors, n, dual, nudge, plan[j])
        }
}

/// Moving a name to another block and back gives the name.
pub proof fn lemma_moved(m: nat, n: nat, name: Seq<char>)
    requires
        starts_with(name, block_prefix(m)),
    ensures
        starts_with(moved(m, n, name), block_prefix(n)),
        tail_in(n, moved(m, n, name)) == tail_in(m, name),
        moved(n, m, moved(m, n, name)) == name,
{
    lemma_starts_with(name, block_prefix(m));
    lemma_starts_with(tail_in(m, name), block_prefix(n));
}

/// Whether a block's tensor goes into a new block.
fn tail_taken(dual: bool, tail: &str) -> (r: bool)
    ensures
        r == takes_tail(dual, tail@),
{
    !dual || has_prefix(tail, "stream_a.") || has_prefix(tail, "stream_b.") || has_prefix(
        tail,
        "experts.",
    )
}

/// The name in the place of block `n` that `name` has under block `m`, where it goes into a new
/// block.
fn clone_name(m: usize, n: usize, dual: bool, name: &String) -> (r: Option<String>)
    ensures
        r matches Some(t) ==> is_clonable(m as nat, dual, name@) && t@ == moved(
            m as nat,
            n as nat,
            name@,
        ),
        r is None ==> !is_clonable(m as nat, dual, name@),
{
    match after_prefix(name.as_str(), block_prefix_text(m).as_str()) {
        Some(tail) => if tail_taken(dual, tail.as_str()) {
            Some(cat(block_prefix_text(n).as_str(), tail.as_str()))
        } else {
            None
        },
        None => None,
    }
}

/// The place of the tensor that the grown model's tensor `name` is made of.
fn grown_index(tensors: &Vec<TensorInfo>, n: usize, dual: bool, name: &String) -> (r: Option<usize>)
    requires
        n >= 1,
    ensures
        r matches Some(i) ==> i < tensors.len() && grown_from(
            names_of(tensors@),
            n as nat,
            dual,
            name@,
        ) == Some(tensors[i as int].name@),
        r is None ==> grown_from(names_of(tensors@), n as nat, dual, name@) is None,
{
    match clone_name(n, n - 1, dual, name) {
        Some(source) => match find_tensor(tensors, &source) {
            Some(i) => {
                assert(names_of(tensors@)[i as int] == source@);
                return Some(i);
            },
            None => {},
        },
        None => {},
    }
    match find_tensor(tensors, name) {
        Some(i) => {
            assert(names_of(tensors@)[i as int] == name@);
            Some(i)
        },
        None => None,
    }
}

/// The planned tensor `name`, made of the tensor at `i`.
fn grown_tensor(
    tensors: &Vec<TensorInfo>,
    n: usize,
    dual: bool,
    nudge: Option<usize>,
    name: String,
    i: usize,
) -> (r: Planned)
    requires
        i < tensors.len(),
        dual ==> n + STREAM_B_OFFSET <= usize::MAX,
        grown_from(names_of(tensors@), n as nat, dual, name@) == Some(tensors[i as int].name@),
    ensures
        r.name@ == name@,
        r.origin == Origin::Copied(i),
        is_grown(tensors@, n as nat, dual, nudge, r),
{
    let latitude: Option<usize> = match after_prefix(name.as_str(), block_prefix_text(n).as_str()) {
        Some(tail) => if !dual || has_prefix(tail.as_str(), "stream_a.") {
            Some(n)
        } else if has_prefix(tail.as_str(), "stream_b.") {
            Some(n + STREAM_B_OFFSET)
        } else {
            None
        },
        None => None,
    };
    let dims = &tensors[i].dims;
    let nudged: bool = match nudge {
        Some(rows) => latitude.is_some() && has_suffix(name.as_str(), ".moe.gate.weight")
            && dims.len() == 2 && dims[0] == rows,
        None => false,
    };
    Planned { name, origin: Origin::Copied(i), latitude, nudged }
}

/// Part of a plan of the grown model, without its gates.
spec fn growing(
    tensors: Seq<TensorInfo>,
    n: nat,
    dual: bool,
    nudge: Option<usize>,
    from: nat,
    to: nat,
    plan: Seq<Planned>,
) -> bool {
    &&& distinct_planned(plan)
    &&& forall|j: int|
        #![trigger plan[j]]
        0 <= j < plan.len() ==> !is_gate(plan[j].name@, from, to) && is_grown(
            tensors,
            n,
            dual,
            nudge,
            plan[j],
        )
}

/// Plans the checkpoint of the grown model.
#[verifier::loop_isolation(false)]
fn plan_growth(
    tensors: &Vec<TensorInfo>,
    n: usize,
    dual: bool,
    nudge: Option<usize>,
    from: usize,
    to: usize,
    columns: usize,
) -> (plan: Vec<Planned>)
    requires
        n >= 1,
        dual ==> n + STREAM_B_OFFSET <= usize::MAX,
        from <= to,
        distinct_names(tensors@),
    ensures
        is_growth(
            tensors@,
            n as nat,
            dual,
            nudge,
            from as nat,
            to as nat,
            columns as nat,
            plan@,
        ),
{
    let ghost names = names_of(tensors@);
    let ghost m = (n - 1) as nat;
    let mut plan: Vec<Planned> = Vec::new();
    // The tensors that keep their names.
    let mut i: usize = 0;
    while i < tensors.len()
        invariant
            i <= tensors.len(),
            growing(tensors@, n as nat, dual, nudge, from as nat, to as nat, plan@),
            forall|name: Seq<char>| #[trigger]
                has_planned(plan@, name) <==> !is_gate(name, from as nat, to as nat)
                    && names.take(i as int).contains(name),
        decreases tensors.len() - i,
    {
        let ghost before = plan@;
        let name = tensors[i].name.clone();
        let ghost added = names.take(i as int);
        proof {
            assert(names.take(i + 1) =~= added.push(name@));
            assert(names[i as int] == name@);
            assert(!added.contains(name@)) by {
                if added.contains(name@) {
                    let j = choose|j: int| 0 <= j < added.len() && added[j] == name@;
                    assert(tensors@[j].name@ == tensors@[i as int].name@);
                }
            }
            assert forall|x: Seq<char>| #[trigger]
                names.take(i + 1).contains(x) <==> added.contains(x) || x == name@ by {
                vstd::seq_lib::lemma_seq_contains_after_push(added, name@, x);
            }
        }
        if !names_gate(&name, from, to) {
            match grown_index(tensors, n, dual, &name) {
                Some(k) => {
                    let p = grown_tensor(tensors, n, dual, nudge, name, k);
                    proof {
                        lemma_push_planned(before, p);
                        assert(!has_planned(before, p.name@));
                    }
                    plan.push(p);
                },
                None => {
                    assert(false);
                },
            }
        }
        i = i + 1;
    }
    assert(names.take(i as int) =~= names);
    // The tensors of the new block that have no namesake.
    let mut i: usize = 0;
    while i < tensors.len()
        invariant
            i <= tensors.len(),
            growing(tensors@, n as nat, dual, nudge, from as nat, to as nat, plan@),
            forall|name: Seq<char>| #[trigger]
                has_planned(plan@, name) ==> (!is_gate(name, from as nat, to as nat)
                    && names.contains(name)) || exists|j: int|
                    0 <= j < i && is_clonable(m, dual, #[trigger] names[j]) && name == moved(
                        m,
                        n as nat,
                        names[j],
                    ),
            forall|name: Seq<char>|
                !is_gate(name, from as nat, to as nat) && names.contains(name) ==> #[trigger]
                has_planned(plan@, name),
            forall|j: int|
                0 <= j < i && is_clonable(m, dual, #[trigger] names[j]) ==> has_planned(
                    plan@,
                    moved(m, n as nat, names[j]),
                ),
        decreases tensors.len() - i,
    {
        let ghost before = plan@;
        assert(names[i as int] == tensors@[i as int].name@);
        match clone_name(n - 1, n, dual, &tensors[i].name) {
            Some(name) => {
                let ghost new = name@;
                proof {
                    lemma_moved(m, n as nat, names[i as int]);
                    assert(is_clonable(n as nat, dual, new));
                    assert forall|k: nat| new != #[trigger] crate::checkpoint::gate_weight_name(k) by {
                        lemma_gate_is_no_block(k, n as nat);
                    }
                    assert forall|k: nat| new != #[trigger] crate::checkpoint::gate_bias_name(k) by {
                        lemma_gate_is_no_block(k, n as nat);
                    }
                    assert(!is_gate(new, from as nat, to as nat));
                }
                match find_tensor(tensors, &name) {
                    Some(k) => {
                        assert(names[k as int] == new);
                        assert(names.contains(new));
                        assert(has_planned(plan@, new));
                    },
                    None => {
                        assert(grown_from(names, n as nat, dual, new) == Some(names[i as int]));
                        let p = grown_tensor(tensors, n, dual, nudge, name, i);
                        proof {
                            lemma_push_planned(before, p);
                            assert(!has_planned(before, new)) by {
                                if has_planned(before, new) {
                                    let j = choose|j: int|
                                        0 <= j < i && is_clonable(m, dual, #[trigger] names[j]) && new
                                            == moved(m, n as nat, names[j]);
                                    lemma_moved(m, n as nat, names[j]);
                                    assert(names[j] == names[i as int]);
                                    assert(tensors@[j].name@ == tensors@[i as int].name@);
                                }
                            }
                        }
                        plan.push(p);
                    },
                }
            },
            None => {},
        }
        i = i + 1;
    }
    proof {
        assert forall|name: Seq<char>| #[trigger]
            has_planned(plan@, name) <==> !is_gate(name, from as nat, to as nat) && grown_from(
                names,
                n as nat,
                dual,
                name,
            ) is Some by {
            if has_planned(plan@, name) {
                let j = choose|j: int| 0 <= j < plan@.len() && (#[trigger] plan@[j]).name@ == name;
                assert(is_grown(tensors@, n as nat, dual, nudge, plan@[j]));
            }
            let source = moved(n as nat, m, name);
            if is_clonable(n as nat, dual, name) && names.contains(source) {
                lemma_moved(n as nat, m, name);
                let j = choose|j: int| 0 <= j < names.len() && names[j] == source;
                assert(is_clonable(m, dual, names[j]));
                assert(has_planned(plan@, moved(m, n as nat, names[j])));
            }
        }
    }
    let ghost copied = plan@;
    push_gates(&mut plan, from, to, columns);
    assert forall|j: int| #![trigger plan@[j]] 0 <= j < plan@.len() implies if is_gate(
        plan@[j].name@,
        from as nat,
        to as nat,
    ) {
        is_fresh_gate(plan@[j], from as nat, to as nat, columns as nat)
    } else {
        is_grown(tensors@, n as nat, dual, nudge, plan@[j])
    } by {
        if j < copied.len() {
            assert(plan@[j] == plan@.subrange(0, copied.len() as int)[j]);
            assert(plan@[j] == copied[j]);
        }
    }
    plan
}

/// Why a surgery cannot be done.
#[derive(Clone, Copy, Debug, PartialEq, Eq, Structural)]
pub enum SurgeryError {
    /// The configuration is no JSON.
    NotJson,
    /// The configuration lacks a number that the surgery needs.
    MissingNumber,
    /// A number leaves the range in which the surgery can count.
    OutOfRange,
}

/// What became of a depth surgery.
pub enum Surgery {
    /// The checkpoint has nothing that the new layer could be made of: nothing changes.
    Aborted,
    /// The tensors of the grown model.
    Grown(Vec<Planned>),
}

/// What a depth surgery comes to.
pub enum SurgeryCourse {
    Fails(SurgeryError),
    Aborts,
    Grows,
}

/// The depth that a configuration gives.
pub open spec fn depth_in(m: Members) -> nat {
    (number_or(m, "num_layers"@, 0) as usize) as nat
}

/// The configuration is that of a model of two streams.
pub open spec fn is_dual(m: Members) -> bool {
    number_or(m, "num_streams"@, 1) as usize >= 2
}

/// The width that a configuration gives.
pub open spec fn hidden_in(m: Members) -> nat {
    (number_or(m, "hidden_size"@, 0) as usize) as nat
}

/// The first gate that a model lacks when it grows.
pub open spec fn gates_from(m: Members) -> nat {
    if is_dual(m) {
        fusion_count(depth_in(m))
    } else {
        0
    }
}

/// The gates that the grown model has.
pub open spec fn gates_to(m: Members) -> nat {
    if is_dual(m) {
        fusion_count(depth_in(m) + 1)
    } else {
        0
    }
}

/// A checkpoint has tensors of which a new layer can be made.
pub open spec fn has_clonable(names: Seq<Seq<char>>, n: nat, dual: bool) -> bool {
    exists|i: int| 0 <= i < names.len() && is_clonable(n, dual, #[trigger] names[i])
}

/// What a depth surgery comes to: a dual-stream checkpoint whose last layer has neither streams nor
/// experts does not match its configuration, and is left alone.
pub open spec fn surgery_course(m: Members, names: Seq<Seq<char>>) -> SurgeryCourse {
    let n = depth_in(m);
    if number_at(m, "num_layers"@) is None {
        SurgeryCourse::Fails(SurgeryError::MissingNumber)
    } else if n == 0 || n == usize::MAX {
        SurgeryCourse::Fails(SurgeryError::OutOfRange)
    } else if is_dual(m) && !has_clonable(names, (n - 1) as nat, true) {
        SurgeryCourse::Aborts
    } else if is_dual(m) && n + STREAM_B_OFFSET > usize::MAX {
        SurgeryCourse::Fails(SurgeryError::OutOfRange)
    } else if gates_from(m) < gates_to(m) && number_at(m, "hidden_size"@) is None {
        SurgeryCourse::Fails(SurgeryError::MissingNumber)
    } else if gates_from(m) < gates_to(m) && 2 * hidden_in(m) > usize::MAX {
        SurgeryCourse::Fails(SurgeryError::OutOfRange)
    } else {
        SurgeryCourse::Grows
    }
}

/// The configuration of the grown model: one layer more, and the fusion layers where one is new.
pub open spec fn grown_config(m: Members) -> Members {
    let gated = if gates_from(m) < gates_to(m) {
        m.insert(
            "fusion_layers"@,
            list_member(fusion_layers(depth_in(m) + 1).map_values(|l: nat| l as u64)),
        )
    } else {
        m
    };
    gated.insert("num_layers"@, number_member((depth_in(m) + 1) as u64))
}

/// `plan` is the checkpoint of the model that a surgery makes of the one that `m` describes.
pub open spec fn is_grown_checkpoint(
    m: Members,
    tensors: Seq<TensorInfo>,
    nudge: Option<usize>,
    plan: Seq<Planned>,
) -> bool {
    is_growth(
        tensors,
        depth_in(m),
        is_dual(m),
        nudge,
        gates_from(m),
        gates_to(m),
        2 * hidden_in(m),
        plan,
    )
}

/// Whether the checkpoint has tensors of which a new layer can be made.
fn finds_clonable(tensors: &Vec<TensorInfo>, n: usize, dual: bool) -> (r: bool)
    ensures
        r == has_clonable(names_of(tensors@), n as nat, dual),
{
    let mut i: usize = 0;
    while i < tensors.len()
        invariant
            i <= tensors.len(),
            forall|j: int|
                0 <= j < i ==> !is_clonable(n as nat, dual, #[trigger] names_of(tensors@)[j]),
        decreases tensors.len() - i,
    {
        assert(names_of(tensors@)[i as int] == tensors@[i as int].name@);
        if clone_name(n, n, dual, &tensors[i].name).is_some() {
            return true;
        }
        i = i + 1;
    }
    false
}

/// Plans a depth surgery: the model that `config` describes and whose checkpoint holds `tensors`
/// grows by one layer. `nudge` is the number of experts whose credit tilts the new routers, where
/// it does. The configuration changes only where the model grows.
pub fn plan_surgery(
    tensors: &Vec<TensorInfo>,
    config: &mut ConfigDoc,
    nudge: Option<usize>,
) -> (r: Result<Surgery, SurgeryError>)
    requires
        old(config).wf(),
        distinct_names(tensors@),
    ensures
        final(config).wf(),
        match r {
            Err(e) => surgery_course(old(config)@, names_of(tensors@)) == SurgeryCourse::Fails(e),
            Ok(Surgery::Aborted) => surgery_course(old(config)@, names_of(tensors@))
                == SurgeryCourse::Aborts,
            Ok(Surgery::Grown(plan)) => {
                &&& surgery_course(old(config)@, names_of(tensors@)) == SurgeryCourse::Grows
                &&& is_growth(
                    tensors@,
                    depth_in(old(config)@),
                    is_dual(old(config)@),
                    nudge,
                    gates_from(old(config)@),
                    gates_to(old(config)@),
                    2 * hidden_in(old(config)@),
                    plan@,
                )
                &&& is_grown_checkpoint(old(config)@, tensors@, nudge, plan@)
            },
        },
        final(config)@ == match r {
            Ok(Surgery::Grown(_)) => grown_config(old(config)@),
            _ => old(config)@,
        },
{
    let ghost m = config@;
    let n: usize = match config.number("num_layers") {
        Some(layers) => layers as usize,
        None => {
            return Err(SurgeryError::MissingNumber);
        },
    };
    if n == 0 || n == usize::MAX {
        return Err(SurgeryError::OutOfRange);
    }
    let dual: bool = config.number_or("num_streams", 1) as usize >= 2;
    if dual && !finds_clonable(tensors, n - 1, dual) {
        return Ok(Surgery::Aborted);
    }
    if dual && n > usize::MAX - STREAM_B_OFFSET {
        return Err(SurgeryError::OutOfRange);
    }
    let mut from: usize = 0;
    let mut fusion: Vec<usize> = Vec::new();
    if dual {
        let shallow = fibonacci_fusion_layers(n);
        assert(shallow@.len() == fusion_layers(n as nat).len());
        from = shallow.len();
        fusion = fibonacci_fusion_layers(n + 1);
        assert(fusion@.len() == fusion_layers((n + 1) as nat).len());
    }
    let to: usize = fusion.len();
    assert(from == gates_from(m) && to == gates_to(m));
    let mut columns: usize = config.number_or("hidden_size", 0) as usize;
    if from < to {
        if config.number("hidden_size").is_none() {
            return Err(SurgeryError::MissingNumber);
        }
        if columns > usize::MAX / 2 {
            return Err(SurgeryError::OutOfRange);
        }
        columns = 2 * columns;
    }
    let plan = plan_growth(tensors, n, dual, nudge, from, to, columns);
    assert(m.contains_key("num_layers"@));
    if from < to {
        config.set_list("fusion_layers", &fusion);
        assert(fusion@.map_values(|l: usize| l as u64) =~= fusion_layers(
            depth_in(m) + 1,
        ).map_values(|l: nat| l as u64)) by {
            assert forall|i: int| 0 <= i < fusion@.len() implies fusion@[i] as u64
                == fusion_layers(depth_in(m) + 1)[i] as u64 by {
                assert(fusion@.map_values(|l: usize| l as nat)[i] == fusion@[i] as nat);
            }
        }
        assert(config@.contains_key("num_layers"@));
    }
    config.set_number("num_layers", (n + 1) as u64);
    Ok(Surgery::Grown(plan))
}

/// A new router is tilted toward proven experts: the tilt is not zero or less, and some expert has
/// credit.
pub open spec fn tilts(prior: Seq<u32>, scale: u32) -> bool {
    &&& !is_below(scale, 0) && !is_equal(scale, 0)
    &&& exists|e: int| 0 <= e < prior.len() && !is_equal(#[trigger] prior[e], 0)
}

/// How many rows a router must have to be tilted by the experts' credit; none where none is tilted.
/// The credit and the tilt are the bits of singles.
pub fn nudge_rows(prior: &Vec<u32>, scale: u32) -> (r: Option<usize>)
    ensures
        r is Some <==> tilts(prior@, scale),
        r matches Some(n) ==> n == prior.len(),
{
    if below(scale, 0) || equal(scale, 0) {
        return None;
    }
    let mut e: usize = 0;
    while e < prior.len()
        invariant
            e <= prior.len(),
            !is_below(scale, 0) && !is_equal(scale, 0),
            forall|i: int| 0 <= i < e ==> is_equal(#[trigger] prior[i], 0),
        decreases prior.len() - e,
    {
        if !equal(prior[e], 0) {
            return Some(prior.len());
        }
        e = e + 1;
    }
    None
}

/// What a depth surgery leaves.
pub enum Growth {
    /// The checkpoint of the model, of this depth, has nothing that the new layer could be made of:
    /// nothing changes.
    Aborted { depth: usize },
    /// The tensors of the grown model, the depth that it grew from, whether it has two streams, and its
    /// configuration.
    Grown { plan: Vec<Planned>, depth: usize, dual: bool, config: String },
}

/// Performs a depth surgery on the model that the text of a configuration describes and whose
/// checkpoint holds `tensors`.
pub fn perform_surgery(config: &str, tensors: &Vec<TensorInfo>, nudge: Option<usize>) -> (r: Result<
    Growth,
    SurgeryError,
>)
    requires
        distinct_names(tensors@),
    ensures
        match json_text(config@) {
            None => r == Err::<Growth, SurgeryError>(SurgeryError::NotJson),
            Some(m) => match r {
                Err(e) => surgery_course(m, names_of(tensors@)) == SurgeryCourse::Fails(e),
                Ok(Growth::Aborted { depth }) => {
                    &&& surgery_course(m, names_of(tensors@)) == SurgeryCourse::Aborts
                    &&& depth == depth_in(m)
                },
                Ok(Growth::Grown { plan, depth, dual, config: text }) => {
                    &&& surgery_course(m, names_of(tensors@)) == SurgeryCourse::Grows
                    &&& depth == depth_in(m)
                    &&& dual == is_dual(m)
                    &&& is_growth(
                        tensors@,
                        depth_in(m),
                        is_dual(m),
                        nudge,
                        gates_from(m),
                        gates_to(m),
                        2 * hidden_in(m),
                        plan@,
                    )
                    &&& is_grown_checkpoint(m, tensors@, nudge, plan@)
                    &&& text@ == json_pretty(grown_config(m))
                    &&& reads_as(json_text(text@), grown_config(m))
                },
            },
        },
{
    let mut doc = match ConfigDoc::parse(config) {
        Ok(doc) => doc,
        Err(_) => {
            return Err(SurgeryError::NotJson);
        },
    };
    let depth: usize = doc.number_or("num_layers", 0) as usize;
    let dual: bool = doc.number_or("num_streams", 1) as usize >= 2;
    match plan_surgery(tensors, &mut doc, nudge) {
        Ok(Surgery::Grown(plan)) => {
            assert(doc@.contains_key("num_layers"@));
            Ok(Growth::Grown { plan, depth, dual, config: doc.render() })
        },
        Ok(Surgery::Aborted) => Ok(Growth::Aborted { depth }),
        Err(e) => Err(e),
    }
}

} // verus!
