//! Checkpoints as lists of named tensors, and plans of new checkpoints.
//!
//! The tensors themselves are not here: a checkpoint is the names and dimensions of its tensors,
//! and a plan says of each tensor of a new checkpoint what it is made of.
use crate::numerals::{decimal, decimal_text, lemma_decimal, lemma_decimal_injective};
use crate::text::{lemma_char_from_is, starts_with};
use vstd::prelude::*;
use vstd::string::*;

verus! {

/// What a surgery knows of a tensor.
pub struct TensorInfo {
    /// Its name.
    pub name: String,
    /// Its dimensions.
    pub dims: Vec<usize>,
}

/// What a tensor of a new checkpoint is made of.
#[derive(Clone, Copy, Debug, PartialEq, Eq, Structural)]
pub enum Origin {
    /// The tensor at this place of the old checkpoint.
    Copied(usize),
    /// Fresh small noise in two rows of so many columns: the weight of a gate between streams.
    GateWeight(usize),
    /// Two zeros: the bias of a gate between streams.
    GateBias,
}

/// A tensor of a new checkpoint.
pub struct Planned {
    /// Its name.
    pub name: String,
    /// What it is made of.
    pub origin: Origin,
    /// The latitude at which it is perturbed, where it is.
    pub latitude: Option<usize>,
    /// Whether its rows are then scaled by the experts' credit.
    pub nudged: bool,
}

/// The names of a checkpoint's tensors.
pub open spec fn names_of(t: Seq<TensorInfo>) -> Seq<Seq<char>> {
    t.map_values(|x: TensorInfo| x.name@)
}

/// No two tensors of a checkpoint have the same name.
pub open spec fn distinct_names(t: Seq<TensorInfo>) -> bool {
    forall|i: int, j: int|
        #![trigger t[i], t[j]]
        0 <= i < j < t.len() ==> t[i].name@ != t[j].name@
}

/// The plan has a tensor called `name`.
pub open spec fn has_planned(p: Seq<Planned>, name: Seq<char>) -> bool {
    exists|j: int| 0 <= j < p.len() && (#[trigger] p[j]).name@ == name
}

/// No two tensors of a plan have the same name.
pub open spec fn distinct_planned(p: Seq<Planned>) -> bool {
    forall|i: int, j: int|
        #![trigger p[i], p[j]]
        0 <= i < j < p.len() ==> p[i].name@ != p[j].name@
}

/// The name of the weight of gate `k` between the streams.
pub open spec fn gate_weight_name(k: nat) -> Seq<char> {
    "anastomosis."@ + decimal(k) + ".gate.weight"@
}

/// The name of the bias of gate `k` between the streams.
pub open spec fn gate_bias_name(k: nat) -> Seq<char> {
    "anastomosis."@ + decimal(k) + ".gate.bias"@
}

/// `name` is the weight of one of the gates `from..to`.
pub open spec fn is_gate_weight(name: Seq<char>, from: nat, to: nat) -> bool {
    exists|k: nat| from <= k < to && name == #[trigger] gate_weight_name(k)
}

/// `name` is the bias of one of the gates `from..to`.
pub open spec fn is_gate_bias(name: Seq<char>, from: nat, to: nat) -> bool {
    exists|k: nat| from <= k < to && name == #[trigger] gate_bias_name(k)
}

/// `name` belongs to one of the gates `from..to`.
pub open spec fn is_gate(name: Seq<char>, from: nat, to: nat) -> bool {
    is_gate_weight(name, from, to) || is_gate_bias(name, from, to)
}

/// The planned tensor is a fresh part of a gate, of two rows of `columns` columns.
pub open spec fn is_fresh_gate(p: Planned, from: nat, to: nat, columns: nat) -> bool {
    &&& p.latitude is None
    &&& !p.nudged
    &&& if is_gate_weight(p.name@, from, to) {
        p.origin is GateWeight && p.origin->GateWeight_0 == columns
    } else {
        p.origin is GateBias
    }
}

/// A plan grows by one tensor.
pub proof fn lemma_push_planned(p: Seq<Planned>, x: Planned)
    ensures
        forall|name: Seq<char>| #[trigger]
            has_planned(p.push(x), name) <==> has_planned(p, name) || x.name@ == name,
        distinct_planned(p) && !has_planned(p, x.name@) ==> distinct_planned(p.push(x)),
{
    let q = p.push(x);
    assert forall|name: Seq<char>| #[trigger]
        has_planned(q, name) <==> has_planned(p, name) || x.name@ == name by {
        if has_planned(p, name) {
            let j = choose|j: int| 0 <= j < p.len() && (#[trigger] p[j]).name@ == name;
            assert(q[j].name@ == name);
        }
        if x.name@ == name {
            assert(q[p.len() as int].name@ == name);
        }
        if has_planned(q, name) {
            let j = choose|j: int| 0 <= j < q.len() && (#[trigger] q[j]).name@ == name;
            if j < p.len() {
                assert(p[j].name@ == name);
            }
        }
    }
    if distinct_planned(p) && !has_planned(p, x.name@) {
        assert forall|i: int, j: int| #![trigger q[i], q[j]] 0 <= i < j < q.len() implies q[i].name@
            != q[j].name@ by {
            assert(q[i] == p[i]);
            if j < p.len() {
                assert(q[j] == p[j]);
            }
        }
    }
}

/// The number in a gate's name ends at the second dot.
proof fn lemma_gate_number(k: nat, tail: Seq<char>)
    requires
        tail.len() > 0,
        tail[0] == '.',
    ensures
        crate::text::char_from(decimal(k) + tail, '.', 0) == decimal(k).len(),
{
    lemma_decimal(k);
    let s = decimal(k) + tail;
    assert forall|j: int| 0 <= j < decimal(k).len() implies s[j] != '.' by {
        assert(s[j] == decimal(k)[j]);
    }
    lemma_char_from_is(s, '.', 0, decimal(k).len() as int);
}

/// A gate's name is its own: different gates, and the weight and the bias of one gate, have
/// different names.
pub proof fn lemma_gate_names_distinct(a: nat, b: nat)
    ensures
        gate_weight_name(a) == gate_weight_name(b) ==> a == b,
        gate_bias_name(a) == gate_bias_name(b) ==> a == b,
        gate_weight_name(a) != gate_bias_name(b),
{
    reveal_strlit(".gate.weight");
    reveal_strlit(".gate.bias");
    let p = "anastomosis."@;
    lemma_gate_number(a, ".gate.weight"@);
    lemma_gate_number(b, ".gate.weight"@);
    lemma_gate_number(a, ".gate.bias"@);
    lemma_gate_number(b, ".gate.bias"@);
    if gate_weight_name(a) == gate_weight_name(b) {
        lemma_same_gate(a, b, ".gate.weight"@, ".gate.weight"@);
    }
    if gate_bias_name(a) == gate_bias_name(b) {
        lemma_same_gate(a, b, ".gate.bias"@, ".gate.bias"@);
    }
    if gate_weight_name(a) == gate_bias_name(b) {
        lemma_same_gate(a, b, ".gate.weight"@, ".gate.bias"@);
        assert(".gate.weight"@.len() == 12);
        assert(".gate.bias"@.len() == 10);
    }
}

proof fn lemma_same_gate(a: nat, b: nat, s: Seq<char>, t: Seq<char>)
    requires
        "anastomosis."@ + decimal(a) + s == "anastomosis."@ + decimal(b) + t,
        s.len() > 0,
        s[0] == '.',
        t.len() > 0,
        t[0] == '.',
    ensures
        a == b,
        s == t,
{
    let p = "anastomosis."@;
    let n = p.len() as int;
    assert((p + decimal(a) + s).skip(n) =~= decimal(a) + s);
    assert((p + decimal(b) + t).skip(n) =~= decimal(b) + t);
    lemma_gate_number(a, s);
    lemma_gate_number(b, t);
    let k = decimal(a).len() as int;
    assert((decimal(a) + s).take(k) =~= decimal(a));
    assert((decimal(b) + t).take(k) =~= decimal(b));
    lemma_decimal_injective(a, b);
    assert((decimal(a) + s).skip(k) =~= s);
    assert((decimal(b) + t).skip(k) =~= t);
}

/// A gate's name lies under no block.
pub proof fn lemma_gate_is_no_block(k: nat, layer: nat)
    ensures
        !starts_with(gate_weight_name(k), crate::names::block_prefix(layer)),
        !starts_with(gate_bias_name(k), crate::names::block_prefix(layer)),
{
    reveal_strlit("anastomosis.");
    reveal_strlit("blocks.");
    let q = crate::names::block_prefix(layer);
    assert(q[0] == 'b');
    assert(gate_weight_name(k)[0] == 'a');
    assert(gate_bias_name(k)[0] == 'a');
    if starts_with(gate_weight_name(k), q) {
        assert(gate_weight_name(k).subrange(0, q.len() as int)[0] == 'a');
    }
    if starts_with(gate_bias_name(k), q) {
        assert(gate_bias_name(k).subrange(0, q.len() as int)[0] == 'a');
    }
}

/// Writes the name of the weight of gate `k`.
pub fn gate_weight_text(k: usize) -> (r: String)
    ensures
        r@ == gate_weight_name(k as nat),
{
    let mut out: String = "anastomosis.".to_owned();
    out.append(decimal_text(k as u64).as_str());
    out.append(".gate.weight");
    out
}

/// Writes the name of the bias of gate `k`.
pub fn gate_bias_text(k: usize) -> (r: String)
    ensures
        r@ == gate_bias_name(k as nat),
{
    let mut out: String = "anastomosis.".to_owned();
    out.append(decimal_text(k as u64).as_str());
    out.append(".gate.bias");
    out
}

/// Whether `name` belongs to one of the gates `from..to`.
pub fn names_gate(name: &String, from: usize, to: usize) -> (r: bool)
    ensures
        r == is_gate(name@, from as nat, to as nat),
{
    let mut k: usize = from;
    while k < to
        invariant
            from <= k,
            k <= to || from > to,
            forall|j: nat|
                from <= j < k ==> name@ != #[trigger] gate_weight_name(j) && name@
                    != gate_bias_name(j),
            forall|j: nat| from <= j < k ==> name@ != #[trigger] gate_bias_name(j),
        decreases to - k,
    {
        if *name == gate_weight_text(k) {
            assert(is_gate_weight(name@, from as nat, to as nat));
            return true;
        }
        if *name == gate_bias_text(k) {
            assert(is_gate_bias(name@, from as nat, to as nat));
            return true;
        }
        k = k + 1;
    }
    false
}

/// Adds the fresh gates `from..to` to a plan that has none of them.
pub fn push_gates(plan: &mut Vec<Planned>, from: usize, to: usize, columns: usize)
    requires
        distinct_planned(old(plan)@),
        from <= to,
        forall|j: int|
            0 <= j < old(plan)@.len() ==> !is_gate(
                (#[trigger] old(plan)@[j]).name@,
                from as nat,
                to as nat,
            ),
    ensures
        distinct_planned(final(plan)@),
        old(plan)@.is_prefix_of(final(plan)@),
        final(plan)@.len() == old(plan)@.len() + 2 * (to - from),
        forall|j: int|
            old(plan)@.len() <= j < final(plan)@.len() ==> is_gate(
                (#[trigger] final(plan)@[j]).name@,
                from as nat,
                to as nat,
            ) && is_fresh_gate(final(plan)@[j], from as nat, to as nat, columns as nat),
        forall|name: Seq<char>| #[trigger]
            has_planned(final(plan)@, name) <==> has_planned(old(plan)@, name) || is_gate(
                name,
                from as nat,
                to as nat,
            ),
{
    let ghost start = plan@;
    let mut k: usize = from;
    while k < to
        invariant
            from <= k <= to,
            start.is_prefix_of(plan@),
            plan@.len() == start.len() + 2 * (k - from),
            distinct_planned(plan@),
            forall|j: int|
                0 <= j < start.len() ==> !is_gate((#[trigger] start[j]).name@, from as nat, to as nat),
            forall|j: int|
                start.len() <= j < plan@.len() ==> is_gate(
                    (#[trigger] plan@[j]).name@,
                    from as nat,
                    to as nat,
                ) && is_fresh_gate(plan@[j], from as nat, to as nat, columns as nat),
            forall|name: Seq<char>| #[trigger]
                has_planned(plan@, name) <==> has_planned(start, name) || is_gate(
                    name,
                    from as nat,
                    k as nat,
                ),
        decreases to - k,
    {
        let ghost before = plan@;
        assert(forall|name: Seq<char>| #[trigger]
            has_planned(before, name) <==> has_planned(start, name) || is_gate(
                name,
                from as nat,
                k as nat,
            ));
        let weight = Planned {
            name: gate_weight_text(k),
            origin: Origin::GateWeight(columns),
            latitude: None,
            nudged: false,
        };
        let bias = Planned {
            name: gate_bias_text(k),
            origin: Origin::GateBias,
            latitude: None,
            nudged: false,
        };
        proof {
            assert forall|i: nat| true implies (#[trigger] gate_weight_name(i) == weight.name@
                ==> i == k) && gate_weight_name(i) != bias.name@ by {
                lemma_gate_names_distinct(i, k as nat);
                lemma_gate_names_distinct(k as nat, i);
            }
            assert forall|i: nat| true implies (#[trigger] gate_bias_name(i) == bias.name@
                ==> i == k) && gate_bias_name(i) != weight.name@ by {
                lemma_gate_names_distinct(i, k as nat);
                lemma_gate_names_distinct(k as nat, i);
            }
            assert(is_gate_weight(weight.name@, from as nat, to as nat));
            assert(is_gate_bias(bias.name@, from as nat, to as nat));
            assert(!is_gate_weight(bias.name@, from as nat, to as nat));
            assert(!is_gate(weight.name@, from as nat, k as nat));
            assert(!is_gate(bias.name@, from as nat, k as nat));
            assert(!has_planned(start, weight.name@));
            assert(!has_planned(start, bias.name@));
            lemma_push_planned(before, weight);
            assert(!has_planned(before, weight.name@));
            lemma_push_planned(before.push(weight), bias);
            assert(!has_planned(before, bias.name@));
            assert(!has_planned(before.push(weight), bias.name@));
        }
        let ghost after = before.push(weight).push(bias);
        proof {
            assert forall|name: Seq<char>|
                has_planned(after, name) <==> has_planned(start, name) || is_gate(
                    name,
                    from as nat,
                    (k + 1) as nat,
                ) by {
                lemma_one_more_gate(name, from as nat, k as nat);
                assert(has_planned(after, name) <==> has_planned(before.push(weight), name)
                    || bias.name@ == name);
                assert(has_planned(before.push(weight), name) <==> has_planned(before, name)
                    || weight.name@ == name);
                assert(has_planned(before, name) <==> has_planned(start, name) || is_gate(
                    name,
                    from as nat,
                    k as nat,
                ));
                assert(weight.name@ == gate_weight_name(k as nat));
                assert(bias.name@ == gate_bias_name(k as nat));
            }
        }
        plan.push(weight);
        plan.push(bias);
        k = k + 1;
        assert(start.is_prefix_of(plan@));
    }
}

/// The gates up to the next one.
proof fn lemma_one_more_gate(name: Seq<char>, from: nat, k: nat)
    requires
        from <= k,
    ensures
        is_gate(name, from, k + 1) <==> is_gate(name, from, k) || name == gate_weight_name(k) || name
            == gate_bias_name(k),
{
    if is_gate_weight(name, from, k + 1) {
        let i = choose|i: nat| from <= i < k + 1 && name == #[trigger] gate_weight_name(i);
        if i < k {
            assert(is_gate_weight(name, from, k));
        }
    }
    if is_gate_bias(name, from, k + 1) {
        let i = choose|i: nat| from <= i < k + 1 && name == #[trigger] gate_bias_name(i);
        if i < k {
            assert(is_gate_bias(name, from, k));
        }
    }
    if is_gate_weight(name, from, k) {
        let i = choose|i: nat| from <= i < k && name == #[trigger] gate_weight_name(i);
        assert(is_gate_weight(name, from, k + 1));
    }
    if is_gate_bias(name, from, k) {
        let i = choose|i: nat| from <= i < k && name == #[trigger] gate_bias_name(i);
        assert(is_gate_bias(name, from, k + 1));
    }
}

/// The place of the tensor called `name`.
pub fn find_tensor(tensors: &Vec<TensorInfo>, name: &String) -> (r: Option<usize>)
    ensures
        r matches Some(i) ==> i < tensors.len() && tensors[i as int].name@ == name@,
        r is None ==> !names_of(tensors@).contains(name@),
{
    let mut i: usize = 0;
    while i < tensors.len()
        invariant
            i <= tensors.len(),
            forall|j: int| 0 <= j < i ==> tensors[j].name@ != name@,
        decreases tensors.len() - i,
    {
        if tensors[i].name == *name {
            return Some(i);
        }
        i = i + 1;
    }
    None
}

/// The two lists of dimensions are equal.
fn same_dims(a: &Vec<usize>, b: &Vec<usize>) -> (r: bool)
    ensures
        r == (a@ == b@),
{
    if a.len() != b.len() {
        return false;
    }
    let mut i: usize = 0;
    while i < a.len()
        invariant
            i <= a.len(),
            a.len() == b.len(),
            forall|j: int| 0 <= j < i ==> a[j] == b[j],
        decreases a.len() - i,
    {
        if a[i] != b[i] {
            return false;
        }
        i = i + 1;
    }
    assert(a@ =~= b@);
    true
}

/// The variable takes the saved tensor: same name, same dimensions.
pub open spec fn restores(v: TensorInfo, s: TensorInfo) -> bool {
    v.name@ == s.name@ && v.dims@ == s.dims@
}

/// The variable finds a saved tensor that it can take.
pub open spec fn restorable(v: TensorInfo, saved: Seq<TensorInfo>) -> bool {
    exists|j: int| 0 <= j < saved.len() && restores(v, #[trigger] saved[j])
}

/// How many of the variables find a saved tensor that they can take.
pub open spec fn restorable_count(vars: Seq<TensorInfo>, saved: Seq<TensorInfo>) -> nat
    decreases vars.len(),
{
    if vars.len() == 0 {
        0
    } else {
        restorable_count(vars.drop_last(), saved) + if restorable(vars.last(), saved) {
            1nat
        } else {
            0nat
        }
    }
}

/// Which saved tensor each variable of a model takes when a checkpoint is loaded: the one of the
/// same name, where it has the same dimensions. Other variables keep their values.
pub fn load_plan(vars: &Vec<TensorInfo>, saved: &Vec<TensorInfo>) -> (r: (Vec<Option<usize>>, usize))
    requires
        distinct_names(saved@),
    ensures
        r.0.len() == vars.len(),
        forall|i: int|
            #![trigger r.0[i]]
            0 <= i < vars.len() ==> match r.0[i] {
                Some(j) => j < saved.len() && restores(vars[i], saved[j as int]),
                None => !restorable(vars[i], saved@),
            },
        r.1 == restorable_count(vars@, saved@),
{
    let mut out: Vec<Option<usize>> = Vec::new();
    let mut loaded: usize = 0;
    let mut i: usize = 0;
    assert(vars@.take(0) =~= Seq::<TensorInfo>::empty());
    while i < vars.len()
        invariant
            distinct_names(saved@),
            i <= vars.len(),
            out.len() == i,
            loaded <= i,
            loaded == restorable_count(vars@.take(i as int), saved@),
            forall|k: int|
                #![trigger out[k]]
                0 <= k < i ==> match out[k] {
                    Some(j) => j < saved.len() && restores(vars[k], saved[j as int]),
                    None => !restorable(vars[k], saved@),
                },
        decreases vars.len() - i,
    {
        proof {
            assert(vars@.take(i + 1).drop_last() =~= vars@.take(i as int));
            assert(vars@.take(i + 1).last() == vars@[i as int]);
        }
        let choice: Option<usize> = match find_tensor(saved, &vars[i].name) {
            Some(j) => {
                if same_dims(&vars[i].dims, &saved[j].dims) {
                    assert(restores(vars@[i as int], saved@[j as int]));
                    Some(j)
                } else {
                    assert(!restorable(vars@[i as int], saved@)) by {
                        if restorable(vars@[i as int], saved@) {
                            let m = choose|m: int|
                                0 <= m < saved@.len() && restores(vars@[i as int], #[trigger] saved@[m]);
                            if m < j {
                                assert(saved@[m].name@ != saved@[j as int].name@);
                            } else if j < m {
                                assert(saved@[j as int].name@ != saved@[m].name@);
                            }
                        }
                    }
                    None
                }
            },
            None => {
                assert(!restorable(vars@[i as int], saved@)) by {
                    if restorable(vars@[i as int], saved@) {
                        let m = choose|m: int|
                            0 <= m < saved@.len() && restores(vars@[i as int], #[trigger] saved@[m]);
                        assert(names_of(saved@)[m] == vars@[i as int].name@);
                    }
                }
                None
            },
        };
        if choice.is_some() {
            loaded = loaded + 1;
        }
        out.push(choice);
        i = i + 1;
    }
    assert(vars@.take(i as int) =~= vars@);
    (out, loaded)
}

/// A model finds all its weights in a checkpoint that holds them: where every variable was saved with
/// its name and shape, every one is restored.
pub proof fn law_checkpoint_restores_what_was_saved(vars: Seq<TensorInfo>, saved: Seq<TensorInfo>)
    requires
        forall|i: int| 0 <= i < vars.len() ==> restorable(#[trigger] vars[i], saved),
    ensures
        restorable_count(vars, saved) == vars.len(),
    decreases vars.len(),
{
    if vars.len() > 0 {
        let rest = vars.drop_last();
        assert forall|i: int| 0 <= i < rest.len() implies restorable(#[trigger] rest[i], saved) by {
            assert(rest[i] == vars[i]);
        }
        law_checkpoint_restores_what_was_saved(rest, saved);
        assert(restorable(vars[vars.len() - 1], saved));
    }
}

/// A model restores its own checkpoint as a whole.
pub proof fn law_own_checkpoint_restores_everything(vars: Seq<TensorInfo>)
    ensures
        restorable_count(vars, vars) == vars.len(),
{
    assert forall|i: int| 0 <= i < vars.len() implies restorable(#[trigger] vars[i], vars) by {
        assert(restores(vars[i], vars[i]));
    }
    law_checkpoint_restores_what_was_saved(vars, vars);
}

/// A variable takes a saved tensor exactly where there is one of its name with its dimensions, so a tensor
/// of another shape is never loaded into it.
pub proof fn law_only_what_fits_is_restored(v: TensorInfo, saved: Seq<TensorInfo>, j: int)
    ensures
        restorable(v, saved) <==> exists|k: int|
            0 <= k < saved.len() && (#[trigger] saved[k]).name@ == v.name@ && saved[k].dims@ == v.dims@,
        0 <= j < saved.len() && restores(v, saved[j]) ==> saved[j].name@ == v.name@ && saved[j].dims@
            == v.dims@,
{
    if restorable(v, saved) {
        let k = choose|k: int| 0 <= k < saved.len() && restores(v, #[trigger] saved[k]);
        assert(saved[k].name@ == v.name@);
    }
    if exists|k: int|
        0 <= k < saved.len() && (#[trigger] saved[k]).name@ == v.name@ && saved[k].dims@ == v.dims@ {
        let k = choose|k: int|
            0 <= k < saved.len() && (#[trigger] saved[k]).name@ == v.name@ && saved[k].dims@ == v.dims@;
        assert(restores(v, saved[k]));
    }
}

/// The variables that are restored are counted one by one.
pub proof fn law_restored_variables_add_up(
    a: Seq<TensorInfo>,
    b: Seq<TensorInfo>,
    saved: Seq<TensorInfo>,
    v: TensorInfo,
)
    ensures
        restorable_count(a + b, saved) == restorable_count(a, saved) + restorable_count(b, saved),
        restorable_count(seq![v], saved) == (if restorable(v, saved) {
            1nat
        } else {
            0
        }),
        restorable_count(Seq::empty(), saved) == 0,
    decreases b.len(),
{
    reveal_with_fuel(restorable_count, 2);
    assert(seq![v].drop_last() =~= Seq::<TensorInfo>::empty());
    if b.len() == 0 {
        assert(a + b =~= a);
    } else {
        law_restored_variables_add_up(a, b.drop_last(), saved, v);
        assert((a + b).drop_last() =~= a + b.drop_last());
    }
}

} // verus!
