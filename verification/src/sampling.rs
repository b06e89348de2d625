//! Random windows of the corpus, each with the same window one token later.
use vstd::prelude::*;

verus! {

/// `rand::random`: any number at all. Nothing is claimed of it: it rests on chance.
#[verifier::external_body]
fn random_number() -> usize {
    rand::random::<usize>()
}

/// A window of the corpus, and what the model has to predict at each of its places.
pub struct Sample {
    /// The tokens that the model sees.
    pub input: Vec<u32>,
    /// The token that follows each of them.
    pub target: Vec<u32>,
}

/// Where a random number has a window of `seq_len` tokens begin in a corpus of `len`.
pub open spec fn start_of(random: int, len: int, seq_len: int) -> int {
    random % (len - seq_len - 1)
}

/// The sample is the window that begins at `start`.
pub open spec fn is_sample(s: Sample, tokens: Seq<u32>, seq_len: int, start: int) -> bool {
    &&& s.input@ == tokens.subrange(start, start + seq_len)
    &&& s.target@ == tokens.subrange(start + 1, start + seq_len + 1)
}

/// The tokens from one place up to another.
fn tokens_between(tokens: &Vec<u32>, from: usize, to: usize) -> (r: Vec<u32>)
    requires
        from <= to <= tokens.len(),
    ensures
        r@ == tokens@.subrange(from as int, to as int),
{
    let mut out: Vec<u32> = Vec::new();
    let mut i: usize = from;
    while i < to
        invariant
            from <= i <= to <= tokens.len(),
            out@ == tokens@.subrange(from as int, i as int),
        decreases to - i,
    {
        out.push(tokens[i]);
        i = i + 1;
        assert(out@ =~= tokens@.subrange(from as int, i as int));
    }
    out
}

/// The sample that a random number gives.
pub fn sample_at(tokens: &Vec<u32>, seq_len: usize, random: usize) -> (r: Sample)
    requires
        tokens.len() > seq_len + 1,
    ensures
        is_sample(
            r,
            tokens@,
            seq_len as int,
            start_of(random as int, tokens@.len() as int, seq_len as int),
        ),
{
    let start: usize = random % (tokens.len() - seq_len - 1);
    let end: usize = start + seq_len;
    Sample {
        input: tokens_between(tokens, start, end),
        target: tokens_between(tokens, start + 1, end + 1),
    }
}

/// The sample is one that some random number gives.
pub open spec fn is_drawn(s: Sample, tokens: Seq<u32>, seq_len: int) -> bool {
    exists|random: usize|
        is_sample(
            s,
            tokens,
            seq_len,
            #[trigger] start_of(random as int, tokens.len() as int, seq_len),
        )
}

/// A batch of random samples.
pub fn draw_batch(tokens: &Vec<u32>, seq_len: usize, batch_size: usize) -> (r: Vec<Sample>)
    requires
        tokens.len() > seq_len + 1,
    ensures
        r.len() == batch_size,
        forall|i: int| 0 <= i < r.len() ==> is_drawn(#[trigger] r[i], tokens@, seq_len as int),
{
    let mut out: Vec<Sample> = Vec::new();
    let mut i: usize = 0;
    while i < batch_size
        invariant
            i <= batch_size,
            out.len() == i,
            tokens.len() > seq_len + 1,
            forall|j: int|
                0 <= j < out.len() ==> is_drawn(#[trigger] out[j], tokens@, seq_len as int),
        decreases batch_size - i,
    {
        let s = sample_at(tokens, seq_len, random_number());
        assert(is_drawn(s, tokens@, seq_len as int));
        out.push(s);
        i = i + 1;
    }
    out
}

/// Whatever the random number, the window lies within the corpus, and the target is the input one
/// token later.
pub proof fn law_target_follows_input(s: Sample, tokens: Seq<u32>, seq_len: nat, random: nat)
    requires
        tokens.len() > seq_len + 1,
        is_sample(
            s,
            tokens,
            seq_len as int,
            start_of(random as int, tokens.len() as int, seq_len as int),
        ),
    ensures
        0 <= start_of(random as int, tokens.len() as int, seq_len as int) <= tokens.len() - seq_len - 2,
        s.input@.len() == seq_len,
        s.target@.len() == seq_len,
        forall|i: int| 0 <= i < seq_len - 1 ==> #[trigger] s.target@[i] == s.input@[i + 1],
        forall|i: int|
            0 <= i < seq_len ==> #[trigger] s.input@[i] == tokens[start_of(
                random as int,
                tokens.len() as int,
                seq_len as int,
            ) + i],
{
    let n = tokens.len() - seq_len - 1;
    vstd::arithmetic::div_mod::lemma_mod_bound(random as int, n);
}

/// Every place at which a window and its target fit, but for the last one, can be drawn.
pub proof fn law_every_start_can_be_drawn(start: nat, len: nat, seq_len: nat)
    requires
        start + seq_len + 1 < len,
    ensures
        start_of(start as int, len as int, seq_len as int) == start,
{
    vstd::arithmetic::div_mod::lemma_small_mod(start, (len - seq_len - 1) as nat);
}

/// The model has to predict, at each place of the window, the token that follows there in the corpus,
/// the last among them.
pub proof fn law_target_is_the_next_token(
    s: Sample,
    tokens: Seq<u32>,
    seq_len: nat,
    start: nat,
    i: int,
)
    requires
        start + seq_len < tokens.len(),
        is_sample(s, tokens, seq_len as int, start as int),
        0 <= i < seq_len,
    ensures
        s.input@.len() == seq_len,
        s.target@.len() == seq_len,
        s.input@[i] == tokens[start + i],
        s.target@[i] == tokens[start + i + 1],
{
}

/// All random numbers count: those as far apart as there are places give the same place, and neighbours
/// give neighbouring places, the first behind the last.
pub proof fn law_random_numbers_go_round(random: nat, len: nat, seq_len: nat)
    requires
        len > seq_len + 1,
    ensures
        ({
            let places = len - seq_len - 1;
            let start = start_of(random as int, len as int, seq_len as int);
            &&& 0 <= start < places
            &&& start_of(random + places, len as int, seq_len as int) == start
            &&& start_of(random + 1int, len as int, seq_len as int) == (if start + 1 == places {
                0
            } else {
                start + 1
            })
        }),
{
    let n = len - seq_len - 1;
    let r = random as int;
    vstd::arithmetic::div_mod::lemma_mod_bound(r, n);
    vstd::arithmetic::div_mod::lemma_mod_add_multiples_vanish(r, n);
    vstd::arithmetic::div_mod::lemma_fundamental_div_mod(r, n);
    let q = r / n;
    let s = r % n;
    if s + 1 == n {
        assert(r + 1 == (q + 1) * n + 0) by (nonlinear_arith)
            requires
                r == n * q + s,
                s + 1 == n,
        ;
        vstd::arithmetic::div_mod::lemma_fundamental_div_mod_converse(r + 1, n, q + 1, 0);
    } else {
        assert(r + 1 == q * n + (s + 1)) by (nonlinear_arith)
            requires
                r == n * q + s,
        ;
        vstd::arithmetic::div_mod::lemma_fundamental_div_mod_converse(r + 1, n, q, s + 1);
    }
}

/// Whatever is drawn is a stretch of the corpus as long as it should be, with what follows each of its
/// tokens there.
pub proof fn law_drawn_samples_are_stretches_of_the_corpus(
    s: Sample,
    tokens: Seq<u32>,
    seq_len: nat,
)
    requires
        tokens.len() > seq_len + 1,
        is_drawn(s, tokens, seq_len as int),
    ensures
        exists|start: int|
            0 <= start && start + seq_len + 1 < tokens.len() && s.input@ == #[trigger] tokens.subrange(
                start,
                start + seq_len,
            ) && s.target@ == tokens.subrange(start + 1, start + 1 + seq_len),
{
    let random = choose|random: usize|
        is_sample(
            s,
            tokens,
            seq_len as int,
            #[trigger] start_of(random as int, tokens.len() as int, seq_len as int),
        );
    law_target_follows_input(s, tokens, seq_len, random as nat);
    let start = start_of(random as int, tokens.len() as int, seq_len as int);
    assert(s.input@ == tokens.subrange(start, start + seq_len));
}

} // verus!
