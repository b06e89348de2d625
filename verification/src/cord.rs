//! Cord surgery: a single-stream model becomes a model of two streams that share their experts.
use crate::checkpoint::{
    distinct_names, distinct_planned, has_planned, is_fresh_gate, is_gate, lemma_push_planned,
    names_gate, names_of, push_gates, Origin, Planned, TensorInfo,
};
use crate::config::{list_member, number_member, number_or, ConfigDoc};
use crate::fusion::{fibonacci_fusion_layers, fusion_count, fusion_layers};
use crate::growth::{depth_in, hidden_in, is_dual, tail_in, SurgeryError};
use crate::json::{json_pretty, json_text, number_at, reads_as, Members};
use crate::names::{
    block_index, block_of, block_prefix, block_prefix_text, lemma_block_of,
};
use crate::text::{
    cat, contains_text, has_prefix, has_text, lemma_prefix_parts, lemma_starts_with, starts_with,
    text_from,
};
use vstd::prelude::*;
use vstd::string::*;

verus! {

/// How far the latitude of the second stream lies beyond the depth of the model.
pub const CORD_LATITUDE_OFFSET: usize = 50;

/// The tensor with tail `tail` of block `l`, in the first stream.
pub open spec fn stream_a_name(l: nat, tail: Seq<char>) -> Seq<char> {
    block_prefix(l) + "stream_a."@ + tail
}

/// The tensor with tail `tail` of block `l`, in the second stream.
pub open spec fn stream_b_name(l: nat, tail: Seq<char>) -> Seq<char> {
    block_prefix(l) + "stream_b."@ + tail
}

/// The tensor with tail `tail` of the experts of block `l`, which the streams share.
pub open spec fn shared_name(l: nat, tail: Seq<char>) -> Seq<char> {
    block_prefix(l) + tail.skip("moe."@.len() as int)
}

/// The names that a tensor of a single-stream model of `n` layers goes by in the dual-stream model:
/// an expert's tensor is shared, any other tensor of a block stands in each stream, and what lies
/// under no block keeps its name.
pub open spec fn cord_names(name: Seq<char>, n: nat) -> Seq<Seq<char>> {
    match block_of(name, n) {
        Some(l) => {
            let tail = tail_in(l, name);
            if starts_with(tail, "moe.experts."@) {
                seq![shared_name(l, tail)]
            } else {
                seq![stream_a_name(l, tail), stream_b_name(l, tail)]
            }
        },
        None => seq![name],
    }
}

/// A planned tensor of the dual-stream model that the old checkpoint goes into.
pub open spec fn is_corded(tensors: Seq<TensorInfo>, n: nat, p: Planned) -> bool {
    match p.origin {
        Origin::Copied(i) => {
            &&& i < tensors.len()
            &&& cord_names(tensors[i as int].name@, n).contains(p.name@)
            &&& p.latitude is Some <==> contains_text(p.name@, ".stream_b."@)
            &&& p.latitude matches Some(l) ==> l == n + CORD_LATITUDE_OFFSET
            &&& !p.nudged
        },
        _ => false,
    }
}

/// A tensor of the old checkpoint goes by `name` in the dual-stream model.
pub open spec fn is_cord_name(names: Seq<Seq<char>>, n: nat, name: Seq<char>) -> bool {
    exists|i: int| 0 <= i < names.len() && cord_names(#[trigger] names[i], n).contains(name)
}

/// `plan` is the checkpoint of the dual-stream model: every tensor that the old checkpoint goes
/// into, and the fresh gates of all fusion layers, each name once.
pub open spec fn is_cord(
    tensors: Seq<TensorInfo>,
    n: nat,
    gates: nat,
    columns: nat,
    plan: Seq<Planned>,
) -> bool {
    &&& distinct_planned(plan)
    &&& forall|name: Seq<char>| #[trigger]
        has_planned(plan, name) <==> is_gate(name, 0, gates) || is_cord_name(
            names_of(tensors),
            n,
            name,
        )
    &&& forall|j: int|
        #![trigger plan[j]]
        0 <= j < plan.len() ==> if is_gate(plan[j].name@, 0, gates) {
            is_fresh_gate(plan[j], 0, gates, columns)
        } else {
            is_corded(tensors, n, plan[j])
        }
}

/// What stands behind the block in the three names that a block's tensor can go by.
proof fn lemma_cord_tails(l: nat, tail: Seq<char>)
    ensures
        starts_with(stream_a_name(l, tail), block_prefix(l)),
        tail_in(l, stream_a_name(l, tail)) == "stream_a."@ + tail,
        starts_with(stream_b_name(l, tail), block_prefix(l)),
        tail_in(l, stream_b_name(l, tail)) == "stream_b."@ + tail,
        starts_with(shared_name(l, tail), block_prefix(l)),
        tail_in(l, shared_name(l, tail)) == tail.skip("moe."@.len() as int),
{
    lemma_starts_with("stream_a."@ + tail, block_prefix(l));
    lemma_starts_with("stream_b."@ + tail, block_prefix(l));
    lemma_starts_with(tail.skip("moe."@.len() as int), block_prefix(l));
    assert(stream_a_name(l, tail) =~= block_prefix(l) + ("stream_a."@ + tail));
    assert(stream_b_name(l, tail) =~= block_prefix(l) + ("stream_b."@ + tail));
}

/// An expert's tail is `moe.` and its shared tail, which begins with `experts.`.
proof fn lemma_expert_tail(tail: Seq<char>)
    requires
        starts_with(tail, "moe.experts."@),
    ensures
        tail == "moe."@ + tail.skip("moe."@.len() as int),
        tail.skip("moe."@.len() as int).len() > 0,
        tail.skip("moe."@.len() as int)[0] == 'e',
{
    reveal_strlit("moe.");
    reveal_strlit("experts.");
    reveal_strlit("moe.experts.");
    assert("moe.experts."@ =~= "moe."@ + "experts."@);
    lemma_prefix_parts(tail, "moe."@, "experts."@);
    lemma_starts_with(tail, "moe."@);
    let rest = tail.skip("moe."@.len() as int);
    assert(rest.subrange(0, "experts."@.len() as int)[0] == 'e');
}

/// The tensor that a name of the dual-stream model's block stands for: what follows the block and
/// the stream, or the expert's tail.
proof fn lemma_cord_name_block(name: Seq<char>, n: nat, k: Seq<char>)
    requires
        n <= usize::MAX,
        cord_names(name, n).contains(k),
    ensures
        block_of(k, n) == block_of(name, n),
        block_of(name, n) matches Some(l) ==> ({
            let tail = tail_in(l, name);
            let t = tail_in(l, k);
            &&& t.len() > 0
            &&& starts_with(tail, "moe.experts."@) ==> t[0] == 'e' && tail == "moe."@ + t
            &&& !starts_with(tail, "moe.experts."@) ==> t[0] == 's' && t.len() >= 9 && tail
                == t.skip(9) && (t[7] == 'a' || t[7] == 'b')
        }),
{
    reveal_strlit("stream_a.");
    reveal_strlit("stream_b.");
    match block_of(name, n) {
        Some(l) => {
            let tail = tail_in(l, name);
            lemma_cord_tails(l, tail);
            lemma_block_of(k, n, l);
            if starts_with(tail, "moe.experts."@) {
                lemma_expert_tail(tail);
            } else {
                assert(("stream_a."@ + tail).skip(9) =~= tail);
                assert(("stream_b."@ + tail).skip(9) =~= tail);
            }
        },
        None => {},
    }
}

/// No two tensors of a single-stream model go by one name in the dual-stream model.
pub proof fn lemma_cord_names_disjoint(a: Seq<char>, b: Seq<char>, n: nat, k: Seq<char>)
    requires
        n <= usize::MAX,
        cord_names(a, n).contains(k),
        cord_names(b, n).contains(k),
    ensures
        a == b,
{
    lemma_cord_name_block(a, n, k);
    lemma_cord_name_block(b, n, k);
    match block_of(a, n) {
        Some(l) => {
            lemma_block_of(a, n, l);
            lemma_block_of(b, n, l);
            lemma_starts_with(a, block_prefix(l));
            lemma_starts_with(b, block_prefix(l));
        },
        None => {},
    }
}

/// The two streams' names of a tensor differ.
proof fn lemma_streams_differ(l: nat, tail: Seq<char>)
    ensures
        stream_a_name(l, tail) != stream_b_name(l, tail),
{
    reveal_strlit("stream_a.");
    reveal_strlit("stream_b.");
    lemma_cord_tails(l, tail);
    assert(tail_in(l, stream_a_name(l, tail))[7] == 'a');
    assert(tail_in(l, stream_b_name(l, tail))[7] == 'b');
}

/// Writes the names that a tensor goes by in the dual-stream model.
pub fn cord_texts(name: &String, n: usize) -> (r: Vec<String>)
    ensures
        crate::text::views(r@) == cord_names(name@, n as nat),
        r.len() == 1 || r.len() == 2,
{
    let mut out: Vec<String> = Vec::new();
    match block_index(name.as_str(), n) {
        Some(l) => {
            let prefix = block_prefix_text(l);
            let tail = text_from(name.as_str(), prefix.as_str().unicode_len());
            if has_prefix(tail.as_str(), "moe.experts.") {
                proof {
                    reveal_strlit("moe.");
                    reveal_strlit("moe.experts.");
                }
                let shared = text_from(tail.as_str(), "moe.".unicode_len());
                out.push(cat(prefix.as_str(), shared.as_str()));
            } else {
                out.push(cat(cat(prefix.as_str(), "stream_a.").as_str(), tail.as_str()));
                out.push(cat(cat(prefix.as_str(), "stream_b.").as_str(), tail.as_str()));
            }
        },
        None => {
            out.push(name.clone());
        },
    }
    assert(crate::text::views(out@) =~= cord_names(name@, n as nat));
    out
}

/// The names that the first `i + 1` tensors go by: those of the first `i`, and those of the next.
proof fn lemma_cord_name_next(names: Seq<Seq<char>>, n: nat, i: int, name: Seq<char>)
    requires
        0 <= i < names.len(),
    ensures
        is_cord_name(names.take(i + 1), n, name) <==> is_cord_name(names.take(i), n, name)
            || cord_names(names[i], n).contains(name),
{
    let less = names.take(i);
    let more = names.take(i + 1);
    if is_cord_name(less, n, name) {
        let j = choose|j: int| 0 <= j < less.len() && cord_names(#[trigger] less[j], n).contains(name);
        assert(more[j] == less[j]);
    }
    if cord_names(names[i], n).contains(name) {
        assert(more[i] == names[i]);
    }
    if is_cord_name(more, n, name) {
        let j = choose|j: int| 0 <= j < more.len() && cord_names(#[trigger] more[j], n).contains(name);
        if j < i {
            assert(less[j] == more[j]);
        }
    }
}

/// Part of a plan of the dual-stream model, without its gates.
spec fn cording(tensors: Seq<TensorInfo>, n: nat, gates: nat, plan: Seq<Planned>) -> bool {
    &&& distinct_planned(plan)
    &&& forall|j: int|
        #![trigger plan[j]]
        0 <= j < plan.len() ==> !is_gate(plan[j].name@, 0, gates) && is_corded(tensors, n, plan[j])
}

/// Adds the tensor at `i` under the name `name`, unless that is a gate's.
fn push_corded(
    plan: &mut Vec<Planned>,
    tensors: &Vec<TensorInfo>,
    n: usize,
    gates: usize,
    i: usize,
    name: String,
)
    requires
        cording(tensors@, n as nat, gates as nat, old(plan)@),
        n + CORD_LATITUDE_OFFSET <= usize::MAX,
        i < tensors.len(),
        cord_names(tensors[i as int].name@, n as nat).contains(name@),
        !has_planned(old(plan)@, name@),
    ensures
        cording(tensors@, n as nat, gates as nat, final(plan)@),
        forall|x: Seq<char>| #[trigger]
            has_planned(final(plan)@, x) <==> has_planned(old(plan)@, x) || (x == name@ && !is_gate(
                x,
                0,
                gates as nat,
            )),
{
    if names_gate(&name, 0, gates) {
        return;
    }
    let latitude: Option<usize> = if has_text(name.as_str(), ".stream_b.") {
        Some(n + CORD_LATITUDE_OFFSET)
    } else {
        None
    };
    let p = Planned { name, origin: Origin::Copied(i), latitude, nudged: false };
    proof {
        lemma_push_planned(plan@, p);
    }
    plan.push(p);
}

/// Plans the checkpoint of the dual-stream model.
#[verifier::loop_isolation(false)]
fn plan_cord(tensors: &Vec<TensorInfo>, n: usize, gates: usize, columns: usize) -> (plan: Vec<Planned>)
    requires
        n + CORD_LATITUDE_OFFSET <= usize::MAX,
        distinct_names(tensors@),
    ensures
        is_cord(tensors@, n as nat, gates as nat, columns as nat, plan@),
{
    let ghost names = names_of(tensors@);
    let mut plan: Vec<Planned> = Vec::new();
    let mut i: usize = 0;
    while i < tensors.len()
        invariant
            i <= tensors.len(),
            cording(tensors@, n as nat, gates as nat, plan@),
            forall|name: Seq<char>| #[trigger]
                has_planned(plan@, name) <==> !is_gate(name, 0, gates as nat) && is_cord_name(
                    names.take(i as int),
                    n as nat,
                    name,
                ),
        decreases tensors.len() - i,
    {
        let ghost before = plan@;
        let ghost own = cord_names(names[i as int], n as nat);
        let mut texts = cord_texts(&tensors[i].name, n);
        proof {
            assert(names[i as int] == tensors@[i as int].name@);
            assert(own == crate::text::views(texts@));
            assert forall|k: Seq<char>| #[trigger] own.contains(k) implies !has_planned(before, k) by {
                if has_planned(before, k) {
                    let less = names.take(i as int);
                    let j = choose|j: int|
                        0 <= j < less.len() && cord_names(#[trigger] less[j], n as nat).contains(k);
                    lemma_cord_names_disjoint(names[i as int], less[j], n as nat, k);
                    assert(tensors@[j].name@ == tensors@[i as int].name@);
                }
            }
            match block_of(names[i as int], n as nat) {
                Some(l) => {
                    lemma_streams_differ(l, tail_in(l, names[i as int]));
                },
                None => {},
            }
            assert(own.len() == texts@.len());
            if texts@.len() == 2 {
                assert(own[0] != own[1]) by {
                    let l = block_of(names[i as int], n as nat)->0;
                    let tail = tail_in(l, names[i as int]);
                    assert(own == seq![stream_a_name(l, tail), stream_b_name(l, tail)]);
                }
                assert(own[1] == texts@[1]@);
                assert(own.contains(own[1]));
            }
            assert(own[0] == texts@[0]@);
            assert(own.contains(own[0]));
        }
        let second: Option<String> = if texts.len() == 2 {
            texts.pop()
        } else {
            None
        };
        match texts.pop() {
            Some(first) => {
                assert(first@ == own[0]);
                push_corded(&mut plan, tensors, n, gates, i, first);
            },
            None => {},
        }
        match second {
            Some(name) => {
                assert(name@ == own[1]);
                push_corded(&mut plan, tensors, n, gates, i, name);
            },
            None => {},
        }
        proof {
            assert forall|name: Seq<char>| #[trigger]
                has_planned(plan@, name) <==> !is_gate(name, 0, gates as nat) && is_cord_name(
                    names.take(i + 1),
                    n as nat,
                    name,
                ) by {
                lemma_cord_name_next(names, n as nat, i as int, name);
                assert(has_planned(plan@, name) <==> has_planned(before, name) || (own.contains(
                    name,
                ) && !is_gate(name, 0, gates as nat)));
            }
        }
        i = i + 1;
    }
    assert(names.take(i as int) =~= names);
    let ghost copied = plan@;
    push_gates(&mut plan, 0, gates, columns);
    assert forall|j: int| #![trigger plan@[j]] 0 <= j < plan@.len() implies if is_gate(
        plan@[j].name@,
        0,
        gates as nat,
    ) {
        is_fresh_gate(plan@[j], 0, gates as nat, columns as nat)
    } else {
        is_corded(tensors@, n as nat, plan@[j])
    } by {
        if j < copied.len() {
            assert(plan@[j] == plan@.subrange(0, copied.len() as int)[j]);
            assert(plan@[j] == copied[j]);
        }
    }
    plan
}

/// What became of a cord surgery.
pub enum CordSurgery {
    /// The model has two streams already: nothing changes.
    AlreadyApplied,
    /// The tensors of the dual-stream model.
    Corded(Vec<Planned>),
}

/// What a cord surgery comes to.
pub enum CordCourse {
    Fails(SurgeryError),
    AlreadyApplied,
    Cords,
}

/// What a cord surgery comes to.
pub open spec fn cord_course(m: Members) -> CordCourse {
    let n = depth_in(m);
    if number_at(m, "num_layers"@) is None || number_at(m, "hidden_size"@) is None {
        CordCourse::Fails(SurgeryError::MissingNumber)
    } else if is_dual(m) {
        CordCourse::AlreadyApplied
    } else if n + CORD_LATITUDE_OFFSET > usize::MAX {
        CordCourse::Fails(SurgeryError::OutOfRange)
    } else if fusion_count(n) > 0 && 2 * hidden_in(m) > usize::MAX {
        CordCourse::Fails(SurgeryError::OutOfRange)
    } else {
        CordCourse::Cords
    }
}

/// The configuration of the dual-stream model.
pub open spec fn corded_config(m: Members) -> Members {
    m.insert("num_streams"@, number_member(2)).insert(
        "fusion_layers"@,
        list_member(fusion_layers(depth_in(m)).map_values(|l: nat| l as u64)),
    )
}

/// `plan` is the checkpoint of the dual-stream model that a surgery makes of the one that `m` describes.
pub open spec fn is_corded_checkpoint(
    m: Members,
    tensors: Seq<TensorInfo>,
    plan: Seq<Planned>,
) -> bool {
    is_cord(tensors, depth_in(m), fusion_count(depth_in(m)), 2 * hidden_in(m), plan)
}

/// Plans a cord surgery: the single-stream model that `config` describes and whose checkpoint holds
/// `tensors` becomes a dual-stream model of the same depth. The configuration changes only where it
/// does.
pub fn plan_cord_surgery(tensors: &Vec<TensorInfo>, config: &mut ConfigDoc) -> (r: Result<
    CordSurgery,
    SurgeryError,
>)
    requires
        old(config).wf(),
        distinct_names(tensors@),
    ensures
        final(config).wf(),
        match r {
            Err(e) => cord_course(old(config)@) == CordCourse::Fails(e),
            Ok(CordSurgery::AlreadyApplied) => cord_course(old(config)@)
                == CordCourse::AlreadyApplied,
            Ok(CordSurgery::Corded(plan)) => {
                &&& cord_course(old(config)@) == CordCourse::Cords
                &&& is_cord(
                    tensors@,
                    depth_in(old(config)@),
                    fusion_count(depth_in(old(config)@)),
                    2 * hidden_in(old(config)@),
                    plan@,
                )
                &&& is_corded_checkpoint(old(config)@, tensors@, plan@)
            },
        },
        final(config)@ == match r {
            Ok(CordSurgery::Corded(_)) => corded_config(old(config)@),
            _ => old(config)@,
        },
{
    let ghost m = config@;
    let n: usize = match config.number("num_layers") {
        Some(layers) => layers as usize,
        None => {
            return Err(SurgeryError::MissingNumber);
        },
    };
    let mut columns: usize = match config.number("hidden_size") {
        Some(hidden) => hidden as usize,
        None => {
            return Err(SurgeryError::MissingNumber);
        },
    };
    if config.number_or("num_streams", 1) as usize >= 2 {
        return Ok(CordSurgery::AlreadyApplied);
    }
    if n > usize::MAX - CORD_LATITUDE_OFFSET {
        return Err(SurgeryError::OutOfRange);
    }
    let fusion = fibonacci_fusion_layers(n);
    assert(fusion@.len() == fusion_layers(n as nat).len());
    if fusion.len() > 0 {
        if columns > usize::MAX / 2 {
            return Err(SurgeryError::OutOfRange);
        }
        columns = 2 * columns;
    }
    let plan = plan_cord(tensors, n, fusion.len(), columns);
    assert(m.contains_key("num_layers"@));
    config.set_number("num_streams", 2);
    assert(config@.contains_key("num_layers"@));
    config.set_list("fusion_layers", &fusion);
    assert(fusion@.map_values(|l: usize| l as u64) =~= fusion_layers(depth_in(m)).map_values(
        |l: nat| l as u64,
    )) by {
        assert forall|i: int| 0 <= i < fusion@.len() implies fusion@[i] as u64 == fusion_layers(
            depth_in(m),
        )[i] as u64 by {
            assert(fusion@.map_values(|l: usize| l as nat)[i] == fusion@[i] as nat);
        }
    }
    Ok(CordSurgery::Corded(plan))
}

/// What a cord surgery leaves.
pub enum Cord {
    /// The model has two streams already: nothing changes.
    AlreadyApplied,
    /// The tensors of the dual-stream model, its depth and its configuration.
    Corded { plan: Vec<Planned>, depth: usize, config: String },
}

/// Performs a cord surgery on the model that the text of a configuration describes and whose
/// checkpoint holds `tensors`.
pub fn perform_cord_surgery(config: &str, tensors: &Vec<TensorInfo>) -> (r: Result<Cord, SurgeryError>)
    requires
        distinct_names(tensors@),
    ensures
        match json_text(config@) {
            None => r == Err::<Cord, SurgeryError>(SurgeryError::NotJson),
            Some(m) => match r {
                Err(e) => cord_course(m) == CordCourse::Fails(e),
                Ok(Cord::AlreadyApplied) => cord_course(m) == CordCourse::AlreadyApplied,
                Ok(Cord::Corded { plan, depth, config: text }) => {
                    &&& cord_course(m) == CordCourse::Cords
                    &&& depth == depth_in(m)
                    &&& is_cord(
                        tensors@,
                        depth_in(m),
                        fusion_count(depth_in(m)),
                        2 * hidden_in(m),
                        plan@,
                    )
                    &&& is_corded_checkpoint(m, tensors@, plan@)
                    &&& text@ == json_pretty(corded_config(m))
                    &&& reads_as(json_text(text@), corded_config(m))
                },
            },
        },
{
    let mut doc = match ConfigDoc::parse(config) {
        Ok(doc) => doc,
        Err(_) => {
            return Err(SurgeryError::NotJson);
        },
    };
    let depth: usize = doc.number_or("num_layers", 0) as usize;
    match plan_cord_surgery(tensors, &mut doc) {
        Ok(CordSurgery::Corded(plan)) => {
            assert(doc@.contains_key("num_streams"@));
            Ok(Cord::Corded { plan, depth, config: doc.render() })
        },
        Ok(CordSurgery::AlreadyApplied) => Ok(Cord::AlreadyApplied),
        Err(e) => Err(e),
    }
}

} // verus!
