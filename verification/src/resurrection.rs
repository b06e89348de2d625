//! Resurrection: a dead expert starts over as a noisy copy of a living one of its layer.
use crate::names::{block_prefix, expert_prefix, expert_prefix_text};
use crate::numerals::decimal;
use crate::text::{
    contains_text, has_prefix, lemma_replace_first, lemma_replace_nothing, lemma_starts_with,
    replace_all, replace_text, starts_with, views,
};
use vstd::prelude::*;

verus! {

/// A dead expert of a layer and the expert that it starts over from.
#[derive(Clone, Copy, Debug, PartialEq, Eq, Structural)]
pub struct ResurrectionJob {
    /// The layer of both experts.
    pub layer: usize,
    /// The expert that is written.
    pub dead_expert: usize,
    /// The expert that is read.
    pub seed_expert: usize,
}

impl ResurrectionJob {
    /// What the names of the tensors that are read begin with.
    pub open spec fn seed_prefix(self) -> Seq<char> {
        expert_prefix(self.layer as nat, self.seed_expert as nat)
    }

    /// What the names of the tensors that are written begin with.
    pub open spec fn dead_prefix(self) -> Seq<char> {
        expert_prefix(self.layer as nat, self.dead_expert as nat)
    }
}

/// The views of pairs of names.
pub open spec fn pair_views(v: Seq<(String, String)>) -> Seq<(Seq<char>, Seq<char>)> {
    v.map_values(|p: (String, String)| (p.0@, p.1@))
}

/// The copies that one job makes in a checkpoint of the tensors `names`: from each tensor of the
/// seed expert, in their order, to the tensor whose name has the dead expert in its place.
pub open spec fn job_copies(names: Seq<Seq<char>>, job: ResurrectionJob) -> Seq<
    (Seq<char>, Seq<char>),
>
    decreases names.len(),
{
    if names.len() == 0 {
        Seq::empty()
    } else {
        let head = job_copies(names.drop_last(), job);
        let name = names.last();
        if starts_with(name, job.seed_prefix()) {
            head.push((name, replace_all(name, job.seed_prefix(), job.dead_prefix())))
        } else {
            head
        }
    }
}

/// The tensors of a checkpoint after `copies`: those that were there, and those that are new.
pub open spec fn names_after(names: Seq<Seq<char>>, copies: Seq<(Seq<char>, Seq<char>)>) -> Seq<
    Seq<char>,
>
    decreases copies.len(),
{
    if copies.len() == 0 {
        names
    } else {
        let rest = names_after(names, copies.drop_last());
        let to = copies.last().1;
        if rest.contains(to) {
            rest
        } else {
            rest.push(to)
        }
    }
}

/// The copies that the jobs make, job after job; a later job finds what the earlier ones wrote.
pub open spec fn resurrection_copies(names: Seq<Seq<char>>, jobs: Seq<ResurrectionJob>) -> Seq<
    Seq<(Seq<char>, Seq<char>)>,
>
    decreases jobs.len(),
{
    if jobs.len() == 0 {
        Seq::empty()
    } else {
        let first = job_copies(names, jobs[0]);
        seq![first] + resurrection_copies(names_after(names, first), jobs.skip(1))
    }
}

/// The copies that one job makes.
fn copies_of_job(names: &Vec<String>, job: ResurrectionJob) -> (r: Vec<(String, String)>)
    ensures
        pair_views(r@) == job_copies(views(names@), job),
{
    let seed = expert_prefix_text(job.layer, job.seed_expert);
    let dead = expert_prefix_text(job.layer, job.dead_expert);
    let mut out: Vec<(String, String)> = Vec::new();
    let mut i: usize = 0;
    let ghost all = views(names@);
    assert(pair_views(out@) =~= job_copies(all.take(0), job));
    proof {
        crate::numerals::lemma_decimal(job.seed_expert as nat);
    }
    while i < names.len()
        invariant
            i <= names.len(),
            all == views(names@),
            seed@ == job.seed_prefix(),
            dead@ == job.dead_prefix(),
            seed@.len() > 0,
            pair_views(out@) == job_copies(all.take(i as int), job),
        decreases names.len() - i,
    {
        proof {
            assert(all.take(i + 1).drop_last() =~= all.take(i as int));
            assert(all.take(i + 1).last() == names@[i as int]@);
        }
        if has_prefix(names[i].as_str(), seed.as_str()) {
            let to = replace_text(names[i].as_str(), seed.as_str(), dead.as_str());
            let ghost before = out@;
            out.push((names[i].clone(), to));
            assert(pair_views(out@) =~= pair_views(before).push((names@[i as int]@, to@)));
        }
        i = i + 1;
    }
    assert(all.take(i as int) =~= all);
    out
}

/// Whether `names` holds `name`.
fn holds_name(names: &Vec<String>, name: &String) -> (r: bool)
    ensures
        r == views(names@).contains(name@),
{
    let mut i: usize = 0;
    while i < names.len()
        invariant
            i <= names.len(),
            forall|j: int| 0 <= j < i ==> names[j]@ != name@,
        decreases names.len() - i,
    {
        if names[i] == *name {
            assert(views(names@)[i as int] == name@);
            return true;
        }
        i = i + 1;
    }
    false
}

/// Adds the tensors that `copies` make to the names of a checkpoint.
fn add_copied(names: &mut Vec<String>, copies: &Vec<(String, String)>)
    ensures
        views(final(names)@) == names_after(views(old(names)@), pair_views(copies@)),
{
    let ghost start = views(names@);
    let ghost all = pair_views(copies@);
    let mut i: usize = 0;
    assert(all.take(0) =~= Seq::<(Seq<char>, Seq<char>)>::empty());
    while i < copies.len()
        invariant
            i <= copies.len(),
            all == pair_views(copies@),
            views(names@) == names_after(start, all.take(i as int)),
        decreases copies.len() - i,
    {
        proof {
            assert(all.take(i + 1).drop_last() =~= all.take(i as int));
            assert(all.take(i + 1).last().1 == copies@[i as int].1@);
        }
        if !holds_name(names, &copies[i].1) {
            let ghost before = names@;
            let to = copies[i].1.clone();
            names.push(to);
            assert(views(names@) =~= views(before).push(copies@[i as int].1@));
        }
        i = i + 1;
    }
    assert(all.take(i as int) =~= all);
}

/// The views of the jobs' copies.
pub open spec fn copies_views(v: Seq<Vec<(String, String)>>) -> Seq<Seq<(Seq<char>, Seq<char>)>> {
    v.map_values(|c: Vec<(String, String)>| pair_views(c@))
}

/// Plans the resurrection of dead experts in a checkpoint of the tensors `names`: of each job, the
/// tensors that are read and the tensors that are written, in the order in which they are copied.
pub fn plan_resurrection(names: &Vec<String>, jobs: &Vec<ResurrectionJob>) -> (r: Vec<
    Vec<(String, String)>,
>)
    ensures
        copies_views(r@) == resurrection_copies(views(names@), jobs@),
{
    let mut current: Vec<String> = Vec::new();
    let mut k: usize = 0;
    while k < names.len()
        invariant
            k <= names.len(),
            views(current@) == views(names@).take(k as int),
        decreases names.len() - k,
    {
        let ghost before = current@;
        current.push(names[k].clone());
        assert(views(current@) =~= views(before).push(names@[k as int]@));
        k = k + 1;
        assert(views(current@) =~= views(names@).take(k as int));
    }
    assert(views(names@).take(k as int) =~= views(names@));
    let mut out: Vec<Vec<(String, String)>> = Vec::new();
    let mut i: usize = 0;
    let ghost whole = resurrection_copies(views(names@), jobs@);
    assert(jobs@.skip(0) =~= jobs@);
    assert(copies_views(out@) + whole =~= whole);
    while i < jobs.len()
        invariant
            i <= jobs.len(),
            copies_views(out@) + resurrection_copies(views(current@), jobs@.skip(i as int)) == whole,
        decreases jobs.len() - i,
    {
        let ghost left = jobs@.skip(i as int);
        let copies = copies_of_job(&current, jobs[i]);
        let ghost names_before = views(current@);
        let ghost before = out@;
        add_copied(&mut current, &copies);
        let ghost made = pair_views(copies@);
        out.push(copies);
        proof {
            assert(left[0] == jobs@[i as int]);
            assert(left.skip(1) =~= jobs@.skip(i + 1));
            assert(copies_views(out@) =~= copies_views(before) + seq![made]);
            assert(copies_views(out@) + resurrection_copies(views(current@), jobs@.skip(i + 1))
                =~= copies_views(before) + resurrection_copies(names_before, left));
        }
        i = i + 1;
    }
    assert(copies_views(out@) =~= whole);
    out
}

/// Every copy of a job reads a tensor of the seed expert and writes a tensor of the dead one; every
/// tensor of the seed expert is read.
pub proof fn law_copies_go_from_seed_to_dead(names: Seq<Seq<char>>, job: ResurrectionJob)
    ensures
        forall|i: int|
            #![trigger job_copies(names, job)[i]]
            0 <= i < job_copies(names, job).len() ==> {
                &&& names.contains(job_copies(names, job)[i].0)
                &&& starts_with(job_copies(names, job)[i].0, job.seed_prefix())
                &&& starts_with(job_copies(names, job)[i].1, job.dead_prefix())
            },
        forall|name: Seq<char>| #[trigger]
            names.contains(name) && starts_with(name, job.seed_prefix()) ==> exists|i: int|
                0 <= i < job_copies(names, job).len() && #[trigger] job_copies(names, job)[i]
                    == (name, replace_all(name, job.seed_prefix(), job.dead_prefix())),
    decreases names.len(),
{
    let copies = job_copies(names, job);
    if names.len() > 0 {
        let less = names.drop_last();
        let head = job_copies(less, job);
        law_copies_go_from_seed_to_dead(less, job);
        let last = names.last();
        crate::numerals::lemma_decimal(job.seed_expert as nat);
        if starts_with(last, job.seed_prefix()) {
            let to = replace_all(last, job.seed_prefix(), job.dead_prefix());
            lemma_starts_with(
                replace_all(
                    last.skip(job.seed_prefix().len() as int),
                    job.seed_prefix(),
                    job.dead_prefix(),
                ),
                job.dead_prefix(),
            );
            assert(copies[head.len() as int] == (last, to));
        }
        assert forall|i: int| #![trigger copies[i]] 0 <= i < copies.len() implies {
            &&& names.contains(copies[i].0)
            &&& starts_with(copies[i].0, job.seed_prefix())
            &&& starts_with(copies[i].1, job.dead_prefix())
        } by {
            if i < head.len() {
                assert(copies[i] == head[i]);
                let j = choose|j: int| 0 <= j < less.len() && less[j] == head[i].0;
                assert(names[j] == head[i].0);
            } else {
                assert(names[names.len() - 1] == last);
            }
        }
        assert forall|name: Seq<char>| #[trigger]
            names.contains(name) && starts_with(name, job.seed_prefix()) implies exists|i: int|
            0 <= i < copies.len() && #[trigger] copies[i] == (
                name,
                replace_all(name, job.seed_prefix(), job.dead_prefix()),
            ) by {
            if name != last {
                let j = choose|j: int| 0 <= j < names.len() && names[j] == name;
                assert(less[j] == name);
                assert(less.contains(name));
                let i = choose|i: int|
                    0 <= i < head.len() && #[trigger] head[i] == (
                        name,
                        replace_all(name, job.seed_prefix(), job.dead_prefix()),
                    );
                assert(copies[i] == head[i]);
            }
        }
    }
}

/// No tensor leaves a checkpoint when experts are resurrected.
pub proof fn law_resurrection_keeps_names(
    names: Seq<Seq<char>>,
    copies: Seq<(Seq<char>, Seq<char>)>,
    name: Seq<char>,
)
    ensures
        names.contains(name) ==> names_after(names, copies).contains(name),
        names_after(names, copies).contains(name) ==> names.contains(name) || exists|i: int|
            0 <= i < copies.len() && (#[trigger] copies[i]).1 == name,
    decreases copies.len(),
{
    if copies.len() > 0 {
        law_resurrection_keeps_names(names, copies.drop_last(), name);
        let rest = names_after(names, copies.drop_last());
        let to = copies.last().1;
        if !rest.contains(to) {
            vstd::seq_lib::lemma_seq_contains_after_push(rest, to, name);
        }
        if names_after(names, copies).contains(name) && !names.contains(name) {
            if rest.contains(name) {
                let i = choose|i: int|
                    0 <= i < copies.drop_last().len() && (#[trigger] copies.drop_last()[i]).1 == name;
                assert(copies[i].1 == name);
            } else {
                assert(copies[copies.len() - 1].1 == name);
            }
        }
    }
}

/// What replacing the seed expert by the dead one makes of a tensor of the seed expert.
proof fn lemma_copy_name(job: ResurrectionJob, tail: Seq<char>)
    requires
        !contains_text(tail, job.seed_prefix()),
    ensures
        replace_all(job.seed_prefix() + tail, job.seed_prefix(), job.dead_prefix())
            == job.dead_prefix() + tail,
{
    let seed = job.seed_prefix();
    crate::numerals::lemma_decimal(job.seed_expert as nat);
    assert(Seq::<char>::empty() + seed + tail =~= seed + tail);
    lemma_replace_first(Seq::empty(), seed, tail, job.dead_prefix());
    lemma_replace_nothing(tail, seed, job.dead_prefix());
    assert(Seq::<char>::empty() + job.dead_prefix() + tail =~= job.dead_prefix() + tail);
}

/// Every dead expert is brought back whole, whatever its layer and its place among the jobs: each tensor
/// of its seed expert that the checkpoint holds is copied to the tensor of the same name under the dead
/// expert. The name behind the seed expert may not hold the seed expert's prefix again.
pub proof fn law_every_job_copies_its_seed_expert(
    names: Seq<Seq<char>>,
    jobs: Seq<ResurrectionJob>,
    i: int,
    tail: Seq<char>,
)
    requires
        0 <= i < jobs.len(),
        names.contains(
            block_prefix(jobs[i].layer as nat) + "moe.experts."@ + decimal(
                jobs[i].seed_expert as nat,
            ) + "."@ + tail,
        ),
        !contains_text(tail, expert_prefix(jobs[i].layer as nat, jobs[i].seed_expert as nat)),
    ensures
        resurrection_copies(names, jobs).len() == jobs.len(),
        resurrection_copies(names, jobs)[i].contains(
            (
                block_prefix(jobs[i].layer as nat) + "moe.experts."@ + decimal(
                    jobs[i].seed_expert as nat,
                ) + "."@ + tail,
                block_prefix(jobs[i].layer as nat) + "moe.experts."@ + decimal(
                    jobs[i].dead_expert as nat,
                ) + "."@ + tail,
            ),
        ),
    decreases jobs.len(),
{
    let job = jobs[i];
    let name = job.seed_prefix() + tail;
    let made = job_copies(names, jobs[0]);
    let next = names_after(names, made);
    let rest = jobs.skip(1);
    lemma_one_list_per_job(names, jobs);
    if i == 0 {
        lemma_starts_with(tail, job.seed_prefix());
        law_copies_go_from_seed_to_dead(names, job);
        assert(names.contains(name) && starts_with(name, job.seed_prefix()));
        lemma_copy_name(job, tail);
        let k = choose|k: int|
            0 <= k < made.len() && #[trigger] made[k] == (
                name,
                replace_all(name, job.seed_prefix(), job.dead_prefix()),
            );
        assert(made.contains((name, job.dead_prefix() + tail)));
        assert(resurrection_copies(names, jobs)[0] == made);
    } else {
        law_resurrection_keeps_names(names, made, name);
        assert(rest[i - 1] == job);
        law_every_job_copies_its_seed_expert(next, rest, i - 1, tail);
        assert(resurrection_copies(names, jobs)[i] == resurrection_copies(next, rest)[i - 1]);
    }
}

/// Each job has its list of copies.
proof fn lemma_one_list_per_job(names: Seq<Seq<char>>, jobs: Seq<ResurrectionJob>)
    ensures
        resurrection_copies(names, jobs).len() == jobs.len(),
    decreases jobs.len(),
{
    if jobs.len() > 0 {
        lemma_one_list_per_job(names_after(names, job_copies(names, jobs[0])), jobs.skip(1));
    }
}

/// Nothing but the dead expert of a job is written, and nothing but its seed expert is read: each copy
/// reads a tensor of the seed expert that was there or that an earlier job wrote.
pub proof fn law_no_job_touches_other_experts(
    names: Seq<Seq<char>>,
    jobs: Seq<ResurrectionJob>,
    i: int,
    c: int,
)
    requires
        0 <= i < jobs.len(),
        0 <= c < resurrection_copies(names, jobs)[i].len(),
    ensures
        ({
            let copies = resurrection_copies(names, jobs);
            let (read, written) = copies[i][c];
            &&& starts_with(
                read,
                expert_prefix(jobs[i].layer as nat, jobs[i].seed_expert as nat),
            )
            &&& starts_with(
                written,
                expert_prefix(jobs[i].layer as nat, jobs[i].dead_expert as nat),
            )
            &&& names.contains(read) || exists|k: int, d: int|
                0 <= k < i && 0 <= d < copies[k].len() && (#[trigger] copies[k][d]).1 == read
        }),
    decreases jobs.len(),
{
    let copies = resurrection_copies(names, jobs);
    let made = job_copies(names, jobs[0]);
    let next = names_after(names, made);
    let rest = jobs.skip(1);
    let later = resurrection_copies(next, rest);
    lemma_one_list_per_job(next, rest);
    assert(copies[0] == made);
    if i == 0 {
        law_copies_go_from_seed_to_dead(names, jobs[0]);
        assert(made[c] == copies[i][c]);
    } else {
        assert(copies[i] == later[i - 1]);
        assert(rest[i - 1] == jobs[i]);
        law_no_job_touches_other_experts(next, rest, i - 1, c);
        let read = copies[i][c].0;
        if next.contains(read) {
            law_resurrection_keeps_names(names, made, read);
            if !names.contains(read) {
                let d = choose|d: int| 0 <= d < made.len() && (#[trigger] made[d]).1 == read;
                assert(copies[0][d].1 == read);
            }
        } else {
            let (k, d) = choose|k: int, d: int|
                0 <= k < i - 1 && 0 <= d < later[k].len() && (#[trigger] later[k][d]).1 == read;
            assert(copies[k + 1] == later[k]);
            assert(copies[k + 1][d].1 == read);
        }
    }
}

/// A job reads each tensor of its seed expert once, in the order of the checkpoint.
pub proof fn law_each_seed_tensor_is_read_once(names: Seq<Seq<char>>, job: ResurrectionJob)
    ensures
        job_copies(names, job).map_values(|c: (Seq<char>, Seq<char>)| c.0) == names.filter(
            |name: Seq<char>|
                starts_with(name, expert_prefix(job.layer as nat, job.seed_expert as nat)),
        ),
    decreases names.len(),
{
    reveal(Seq::filter);
    let read = |c: (Seq<char>, Seq<char>)| c.0;
    let seeds = |name: Seq<char>|
        starts_with(name, expert_prefix(job.layer as nat, job.seed_expert as nat));
    if names.len() > 0 {
        law_each_seed_tensor_is_read_once(names.drop_last(), job);
        let head = job_copies(names.drop_last(), job);
        assert(head.map_values(read) == names.drop_last().filter(seeds));
        if seeds(names.last()) {
            assert(job_copies(names, job).map_values(read) =~= head.map_values(read).push(
                names.last(),
            ));
        } else {
            assert(job_copies(names, job) == head);
        }
    } else {
        assert(job_copies(names, job).map_values(read) =~= names.filter(seeds));
    }
}

/// A plan is read as it is written: of each job in its place, of each copy in its place, the tensor that
/// is read first and the tensor that is written second.
pub proof fn law_plan_is_read_in_order(plan: Seq<Vec<(String, String)>>, i: int, c: int)
    requires
        0 <= i < plan.len(),
        0 <= c < plan[i]@.len(),
    ensures
        copies_views(plan).len() == plan.len(),
        copies_views(plan)[i].len() == plan[i]@.len(),
        copies_views(plan)[i][c].0 == plan[i]@[c].0@,
        copies_views(plan)[i][c].1 == plan[i]@[c].1@,
{
}

} // verus!
