//! The training corpus: which stages a model of a given depth reads, and the cache of its tokens.
use crate::numerals::{decimal, lemma_decimal, number_up_to, parse_usize};
use crate::text::{
    after_prefix, chars_of, ends_with, has_suffix, lemma_starts_with, starts_with, views,
};
use vstd::prelude::*;
use vstd::string::*;

verus! {

/// The stage of a corpus directory: `stage_` and a number.
pub open spec fn stage_in(name: Seq<char>) -> Option<nat> {
    if starts_with(name, "stage_"@) {
        number_up_to(name.skip("stage_"@.len() as int), usize::MAX as int)
    } else {
        None
    }
}

/// A directory that a model of `num_layers` layers reads: its stage has been reached.
pub open spec fn is_unlocked(name: Seq<char>, num_layers: nat) -> bool {
    stage_in(name) matches Some(n) && n <= num_layers
}

/// One stage comes before another: the lower one, and of two of one stage the one found first.
pub open spec fn stage_before(a: (usize, usize), b: (usize, usize)) -> bool {
    a.0 < b.0 || (a.0 == b.0 && a.1 < b.1)
}

/// `r` is what a model of `num_layers` layers reads of the directories `names`: of each directory whose
/// stage is no higher than the depth, the stage and the place, and nothing else, the lower stages first.
pub open spec fn is_selection(
    names: Seq<Seq<char>>,
    num_layers: nat,
    r: Seq<(usize, usize)>,
) -> bool {
    &&& forall|k: int|
        #![trigger r[k]]
        0 <= k < r.len() ==> r[k].1 < names.len() && stage_in(names[r[k].1 as int]) == Some(
            r[k].0 as nat,
        ) && r[k].0 <= num_layers
    &&& forall|i: int|
        #![trigger names[i]]
        0 <= i < names.len() ==> (stage_in(names[i]) matches Some(n) ==> (n <= num_layers
            ==> exists|k: int| 0 <= k < r.len() && #[trigger] r[k] == (n as usize, i as usize)))
    &&& forall|a: int, b: int|
        #![trigger r[a], r[b]]
        0 <= a < b < r.len() ==> stage_before(r[a], r[b])
}

/// The stage of a corpus directory.
pub fn stage_of(name: &str) -> (r: Option<usize>)
    ensures
        r matches Some(n) ==> stage_in(name@) == Some(n as nat),
        r is None ==> stage_in(name@) is None,
{
    match after_prefix(name, "stage_") {
        Some(rest) => parse_usize(&chars_of(rest.as_str())),
        None => None,
    }
}

/// The stages that a model of `num_layers` layers reads, each with the place of its directory in
/// `names`: rising, and of one stage in the order in which the directories were found.
pub fn select_stages(names: &Vec<String>, num_layers: usize) -> (r: Vec<(usize, usize)>)
    ensures
        forall|k: int|
            #![trigger r[k]]
            0 <= k < r.len() ==> r[k].1 < names.len() && stage_in(names[r[k].1 as int]@) == Some(
                r[k].0 as nat,
            ) && r[k].0 <= num_layers,
        forall|i: int|
            0 <= i < names.len() && is_unlocked((#[trigger] names[i])@, num_layers as nat)
                ==> exists|k: int| 0 <= k < r.len() && (#[trigger] r[k]).1 == i,
        forall|i: int|
            #![trigger names[i]]
            0 <= i < names.len() ==> (stage_in(names[i]@) matches Some(n) ==> (n <= num_layers
                ==> exists|k: int| 0 <= k < r.len() && #[trigger] r[k] == (n as usize, i as usize))),
        forall|a: int, b: int|
            #![trigger r[a], r[b]]
            0 <= a < b < r.len() ==> stage_before(r[a], r[b]),
        is_selection(views(names@), num_layers as nat, r@),
{
    let mut out: Vec<(usize, usize)> = Vec::new();
    let mut i: usize = 0;
    while i < names.len()
        invariant
            i <= names.len(),
            forall|k: int|
                #![trigger out[k]]
                0 <= k < out.len() ==> out[k].1 < i && stage_in(names[out[k].1 as int]@) == Some(
                    out[k].0 as nat,
                ) && out[k].0 <= num_layers,
            forall|j: int|
                0 <= j < i && is_unlocked((#[trigger] names[j])@, num_layers as nat) ==> exists|k: int|
                    0 <= k < out.len() && (#[trigger] out[k]).1 == j,
            forall|a: int, b: int|
                #![trigger out[a], out[b]]
                0 <= a < b < out.len() ==> stage_before(out[a], out[b]),
        decreases names.len() - i,
    {
        match stage_of(names[i].as_str()) {
            Some(n) => {
                if n <= num_layers {
                    let ghost before = out@;
                    let mut pos: usize = out.len();
                    while pos > 0 && out[pos - 1].0 > n
                        invariant
                            pos <= out.len(),
                            out@ == before,
                            forall|k: int| pos <= k < out.len() ==> (#[trigger] out[k]).0 > n,
                        decreases pos,
                    {
                        pos = pos - 1;
                    }
                    proof {
                        assert forall|k: int| 0 <= k < pos implies (#[trigger] before[k]).0 <= n by {
                            if k < pos - 1 {
                                assert(stage_before(before[k], before[pos - 1]));
                            }
                        }
                    }
                    out.insert(pos, (n, i));
                    proof {
                        assert forall|k: int| #![trigger out[k]] 0 <= k < out.len() implies out[k].1 < i
                            + 1 && stage_in(names[out[k].1 as int]@) == Some(out[k].0 as nat)
                            && out[k].0 <= num_layers by {
                            if k < pos {
                                assert(out[k] == before[k]);
                            } else if k > pos {
                                assert(out[k] == before[k - 1]);
                            }
                        }
                        assert forall|j: int|
                            0 <= j < i + 1 && is_unlocked((#[trigger] names[j])@, num_layers as nat)
                            implies exists|k: int| 0 <= k < out.len() && (#[trigger] out[k]).1 == j by {
                            if j == i {
                                assert(out[pos as int].1 == j);
                            } else {
                                let k = choose|k: int|
                                    0 <= k < before.len() && (#[trigger] before[k]).1 == j;
                                if k < pos {
                                    assert(out[k].1 == j);
                                } else {
                                    assert(out[k + 1].1 == j);
                                }
                            }
                        }
                        assert forall|a: int, b: int|
                            #![trigger out[a], out[b]]
                            0 <= a < b < out.len() implies stage_before(out[a], out[b]) by {
                            let x = if a < pos {
                                a
                            } else {
                                a - 1
                            };
                            let y = if b < pos {
                                b
                            } else {
                                b - 1
                            };
                            if a != pos && b != pos {
                                assert(out[a] == before[x] && out[b] == before[y]);
                                assert(stage_before(before[x], before[y]));
                            } else if a == pos {
                                assert(out[b] == before[b - 1]);
                            } else {
                                assert(out[a] == before[a]);
                            }
                        }
                    }
                }
            },
            None => {},
        }
        i = i + 1;
    }
    proof {
        assert forall|i: int|
            #![trigger names[i]]
            0 <= i < names.len() implies (stage_in(names[i]@) matches Some(n) ==> (n <= num_layers
            ==> exists|k: int| 0 <= k < out.len() && #[trigger] out[k] == (n as usize, i as usize))) by {
            match stage_in(names[i]@) {
                Some(n) => {
                    if num_layers >= n {
                        assert(is_unlocked(names[i]@, num_layers as nat));
                        let k = choose|k: int| 0 <= k < out.len() && (#[trigger] out[k]).1 == i;
                        assert(out[k] == (n as usize, i as usize));
                    }
                },
                None => {},
            }
        }
        let all = views(names@);
        assert forall|i: int|
            #![trigger all[i]]
            0 <= i < all.len() implies (stage_in(all[i]) matches Some(n) ==> (n <= num_layers
            ==> exists|k: int| 0 <= k < out@.len() && #[trigger] out@[k] == (n as usize, i as usize))) by {
            assert(all[i] == names[i]@);
        }
        assert(is_selection(all, num_layers as nat, out@));
    }
    out
}

/// The directory `stage_` and a number is the stage of that number; a directory that does not begin with
/// `stage_` is none.
pub proof fn law_stage_directories(n: nat, name: Seq<char>)
    requires
        n <= usize::MAX,
    ensures
        stage_in("stage_"@ + decimal(n)) == Some(n),
        !starts_with(name, "stage_"@) ==> stage_in(name) is None,
{
    lemma_starts_with(decimal(n), "stage_"@);
    lemma_decimal(n);
}

/// A model reads every stage that its depth has reached, and none beyond: the directory of stage `n` is
/// among those that are read exactly where the model has at least `n` layers.
pub proof fn law_depth_unlocks_stages(
    names: Seq<Seq<char>>,
    num_layers: nat,
    r: Seq<(usize, usize)>,
    i: int,
    n: nat,
)
    requires
        is_selection(names, num_layers, r),
        0 <= i < names.len() <= usize::MAX,
        n <= usize::MAX,
        names[i] == "stage_"@ + decimal(n),
    ensures
        n <= num_layers ==> exists|k: int|
            0 <= k < r.len() && #[trigger] r[k] == (n as usize, i as usize),
        n > num_layers ==> forall|k: int| 0 <= k < r.len() ==> (#[trigger] r[k]).1 != i,
{
    law_stage_directories(n, names[i]);
}

/// A deeper model reads all that a shallower one reads; either reads each directory once, the stages
/// rising, and directories of one stage in the order in which they were found.
pub proof fn law_deeper_models_read_more(
    names: Seq<Seq<char>>,
    shallow: nat,
    deep: nat,
    r: Seq<(usize, usize)>,
    s: Seq<(usize, usize)>,
    k: int,
)
    requires
        shallow <= deep,
        is_selection(names, shallow, r),
        is_selection(names, deep, s),
        0 <= k < r.len(),
    ensures
        exists|j: int| 0 <= j < s.len() && #[trigger] s[j] == r[k],
        forall|j: int|
            #![trigger r[j]]
            0 <= j < r.len() && j != k ==> r[j].1 != r[k].1 && (j < k ==> r[j].0 <= r[k].0) && (j < k
                && r[j].0 == r[k].0 ==> r[j].1 < r[k].1),
{
    let i = r[k].1 as int;
    assert(stage_in(names[i]) == Some(r[k].0 as nat));
    assert forall|j: int| #![trigger r[j]] 0 <= j < r.len() && j != k implies r[j].1 != r[k].1 && (j < k
        ==> r[j].0 <= r[k].0) && (j < k && r[j].0 == r[k].0 ==> r[j].1 < r[k].1) by {
        if j < k {
            assert(stage_before(r[j], r[k]));
        } else {
            assert(stage_before(r[k], r[j]));
        }
        if r[j].1 == r[k].1 {
            assert(stage_in(names[r[j].1 as int]) == Some(r[j].0 as nat));
        }
    }
}

/// The files of the corpus are those whose names end in `.txt` behind something.
pub proof fn law_text_files_end_in_txt(stem: Seq<char>, name: Seq<char>)
    ensures
        is_text_name(stem + ".txt"@) <==> stem.len() > 0,
        is_text_name(name) ==> exists|s: Seq<char>|
            s.len() > 0 && name == #[trigger] (s + ".txt"@),
{
    reveal_strlit(".txt");
    let whole = stem + ".txt"@;
    assert(whole.subrange(whole.len() - 4, whole.len() as int) =~= ".txt"@);
    if is_text_name(name) {
        let s = name.take(name.len() - 4);
        assert(name =~= s + ".txt"@);
    }
}

/// A file that belongs to the corpus: `.txt` behind a name of at least one character.
pub open spec fn is_text_name(name: Seq<char>) -> bool {
    ends_with(name, ".txt"@) && name.len() > ".txt"@.len()
}

/// Whether a file belongs to the corpus.
pub fn is_text_file(name: &str) -> (r: bool)
    ensures
        r == is_text_name(name@),
{
    has_suffix(name, ".txt") && name.unicode_len() > ".txt".unicode_len()
}

/// The tokens of a corpus, gathered file by file.
pub struct Corpus {
    tokens: Vec<u32>,
}

impl View for Corpus {
    type V = Seq<u32>;

    closed spec fn view(&self) -> Seq<u32> {
        self.tokens@
    }
}

impl Corpus {
    /// A corpus without tokens.
    pub fn new() -> (r: Corpus)
        ensures
            r@ == Seq::<u32>::empty(),
    {
        Corpus { tokens: Vec::new() }
    }

    /// Adds the tokens of one file at the end.
    pub fn add_file(&mut self, tokens: Vec<u32>)
        ensures
            final(self)@ == old(self)@ + tokens@,
    {
        let mut file: Vec<u32> = tokens;
        self.tokens.append(&mut file);
    }

    /// Whether the stages gave any tokens; without them there is no corpus, whatever else there is.
    pub fn has_stages(&self) -> (r: bool)
        ensures
            r == (self@.len() > 0),
    {
        self.tokens.len() > 0
    }

    /// The tokens.
    pub fn into_tokens(self) -> (r: Vec<u32>)
        ensures
            r@ == self@,
    {
        self.tokens
    }
}

/// The byte `k` of a number, least significant first.
pub open spec fn le_byte(x: u32, k: int) -> u8 {
    if k == 0 {
        (x % 256) as u8
    } else if k == 1 {
        (x / 256 % 256) as u8
    } else if k == 2 {
        (x / 65536 % 256) as u8
    } else {
        (x / 16777216) as u8
    }
}

/// The number that four bytes from `at` on write, least significant first.
pub open spec fn le_word(b: Seq<u8>, at: int) -> u32 {
    (b[at] + 256 * b[at + 1] + 65536 * b[at + 2] + 16777216 * b[at + 3]) as u32
}

/// The bytes of a cache: the depth of the model, then the tokens, four bytes each.
pub open spec fn cache_bytes(num_layers: u32, tokens: Seq<u32>) -> Seq<u8> {
    Seq::new(
        4 + 4 * tokens.len(),
        |i: int|
            if i < 4 {
                le_byte(num_layers, i)
            } else {
                le_byte(tokens[i / 4 - 1], i % 4)
            },
    )
}

/// The tokens that a cache holds; a cache without tokens or with a part of one holds none.
pub open spec fn cached_tokens(b: Seq<u8>) -> Option<Seq<u32>> {
    if b.len() > 4 && b.len() % 4 == 0 {
        Some(Seq::new((b.len() / 4 - 1) as nat, |i: int| le_word(b, 4 + 4 * i)))
    } else {
        None
    }
}

/// A cache can stand for the corpus of a model of `num_layers` layers: it was written for that depth
/// and no source is newer.
pub open spec fn is_valid_cache(b: Seq<u8>, num_layers: nat, written: i128, sources: Seq<i128>) -> bool {
    &&& b.len() >= 4
    &&& le_word(b, 0) as nat == num_layers
    &&& forall|i: int| 0 <= i < sources.len() ==> #[trigger] sources[i] <= written
}

/// The bytes of a number write the number.
pub proof fn lemma_le_word(x: u32, b: Seq<u8>, at: int)
    requires
        0 <= at,
        at + 4 <= b.len(),
        b[at] == le_byte(x, 0),
        b[at + 1] == le_byte(x, 1),
        b[at + 2] == le_byte(x, 2),
        b[at + 3] == le_byte(x, 3),
    ensures
        le_word(b, at) == x,
{
    assert(x == x % 256 + 256 * (x / 256 % 256) + 65536 * (x / 65536 % 256) + 16777216 * (x
        / 16777216));
}

/// A cache gives back what was written: the depth, and the tokens where there are any.
pub proof fn law_cache_reads_back(num_layers: u32, tokens: Seq<u32>)
    ensures
        le_word(cache_bytes(num_layers, tokens), 0) == num_layers,
        tokens.len() > 0 ==> cached_tokens(cache_bytes(num_layers, tokens)) == Some(tokens),
{
    let b = cache_bytes(num_layers, tokens);
    lemma_le_word(num_layers, b, 0);
    if tokens.len() > 0 {
        let read = cached_tokens(b)->0;
        assert forall|i: int| 0 <= i < tokens.len() implies read[i] == tokens[i] by {
            let at = 4 + 4 * i;
            assert((at) / 4 - 1 == i && at % 4 == 0);
            assert((at + 1) / 4 - 1 == i && (at + 1) % 4 == 1);
            assert((at + 2) / 4 - 1 == i && (at + 2) % 4 == 2);
            assert((at + 3) / 4 - 1 == i && (at + 3) % 4 == 3);
            lemma_le_word(tokens[i], b, at);
        }
        assert(read =~= tokens);
    }
}

/// A cache begins with the depth, least significant byte first, and goes on with four bytes for each
/// token in the same way.
pub proof fn law_cache_is_little_endian(num_layers: u32, tokens: Seq<u32>, i: int)
    requires
        0 <= i < tokens.len(),
    ensures
        ({
            let b = cache_bytes(num_layers, tokens);
            &&& b.len() == 4 * (tokens.len() + 1)
            &&& num_layers == b[0] + 256 * b[1] + 65536 * b[2] + 16777216 * b[3]
            &&& tokens[i] == b[4 * i + 4] + 256 * b[4 * i + 5] + 65536 * b[4 * i + 6] + 16777216 * b[4
                * i + 7]
        }),
{
    let b = cache_bytes(num_layers, tokens);
    let at = 4 + 4 * i;
    lemma_low_part(at, 0, i + 1, 4);
    lemma_low_part(at + 1, 1, i + 1, 4);
    lemma_low_part(at + 2, 2, i + 1, 4);
    lemma_low_part(at + 3, 3, i + 1, 4);
    assert(b[at] == le_byte(tokens[i], 0) && b[at + 1] == le_byte(tokens[i], 1));
    assert(b[at + 2] == le_byte(tokens[i], 2) && b[at + 3] == le_byte(tokens[i], 3));
    lemma_le_sum(num_layers);
    lemma_le_sum(tokens[i]);
}

/// A number is the sum of its bytes, each in its place.
proof fn lemma_le_sum(x: u32)
    ensures
        x == le_byte(x, 0) + 256 * le_byte(x, 1) + 65536 * le_byte(x, 2) + 16777216 * le_byte(x, 3),
{
    assert(x == x % 256 + 256 * (x / 256 % 256) + 65536 * (x / 65536 % 256) + 16777216 * (x
        / 16777216));
}

/// Nothing of a cache is passed over: a file of whole tokens, at least one, holds one token for each four
/// bytes behind the depth, and writing them for that depth gives the file again. Any other file holds
/// none.
pub proof fn law_whole_caches_are_read_whole(b: Seq<u8>)
    ensures
        cached_tokens(b) is Some <==> b.len() > 4 && b.len() % 4 == 0,
        cached_tokens(b) matches Some(tokens) ==> 4 * (tokens.len() + 1) == b.len() && cache_bytes(
            le_word(b, 0),
            tokens,
        ) == b,
{
    if cached_tokens(b) is Some {
        let tokens = cached_tokens(b)->0;
        let again = cache_bytes(le_word(b, 0), tokens);
        assert forall|i: int| 0 <= i < b.len() implies again[i] == b[i] by {
            let at = i / 4 * 4;
            lemma_bytes_of_word(b, at);
            if i >= 4 {
                assert(4 + 4 * (i / 4 - 1) == at);
                assert(tokens[i / 4 - 1] == le_word(b, at));
            } else {
                assert(at == 0);
            }
            assert(i == at + i % 4);
        }
        assert(again =~= b);
    }
}

/// The bytes of the number that four bytes write are those four.
proof fn lemma_bytes_of_word(b: Seq<u8>, at: int)
    requires
        0 <= at,
        at + 4 <= b.len(),
    ensures
        le_byte(le_word(b, at), 0) == b[at],
        le_byte(le_word(b, at), 1) == b[at + 1],
        le_byte(le_word(b, at), 2) == b[at + 2],
        le_byte(le_word(b, at), 3) == b[at + 3],
{
    let w = le_word(b, at) as int;
    let (p, q, r, s) = (b[at] as int, b[at + 1] as int, b[at + 2] as int, b[at + 3] as int);
    assert(w == p + 256 * q + 65536 * r + 16777216 * s);
    lemma_low_part(w, p, q + 256 * r + 65536 * s, 256);
    lemma_low_part(q + 256 * r + 65536 * s, q, r + 256 * s, 256);
    lemma_low_part(w, p + 256 * q, r + 256 * s, 65536);
    lemma_low_part(r + 256 * s, r, s, 256);
    lemma_low_part(w, p + 256 * q + 65536 * r, s, 16777216);
}

/// A number, split below a unit.
proof fn lemma_low_part(w: int, low: int, high: int, unit: int)
    requires
        w == low + unit * high,
        0 <= low < unit,
    ensures
        w % unit == low,
        w / unit == high,
{
    assert(unit * high == high * unit) by (nonlinear_arith);
    vstd::arithmetic::div_mod::lemma_fundamental_div_mod_converse(w, unit, high, low);
}

/// A fresh cache stands for the model that it was written for, and for no model of another depth.
pub proof fn law_cache_is_for_one_depth(
    num_layers: u32,
    tokens: Seq<u32>,
    depth: nat,
    written: i128,
    sources: Seq<i128>,
)
    requires
        forall|i: int| 0 <= i < sources.len() ==> #[trigger] sources[i] <= written,
    ensures
        is_valid_cache(cache_bytes(num_layers, tokens), depth, written, sources) <==> depth
            == num_layers,
{
    law_cache_reads_back(num_layers, tokens);
}

/// What is cached is found again at the next start: a corpus that has tokens, written for a depth that
/// the cache can name, stands for itself as long as no source changes.
pub proof fn law_next_start_finds_the_corpus(
    num_layers: usize,
    tokens: Seq<u32>,
    written: i128,
    sources: Seq<i128>,
)
    requires
        num_layers <= u32::MAX,
        tokens.len() > 0,
        forall|i: int| 0 <= i < sources.len() ==> #[trigger] sources[i] <= written,
    ensures
        ({
            let b = cache_bytes(num_layers as u32, tokens);
            is_valid_cache(b, num_layers as nat, written, sources) && cached_tokens(b) == Some(tokens)
        }),
{
    law_cache_reads_back(num_layers as u32, tokens);
}

/// A newer source makes a cache stale.
pub proof fn law_newer_source_makes_cache_stale(
    b: Seq<u8>,
    depth: nat,
    written: i128,
    sources: Seq<i128>,
    i: int,
)
    requires
        0 <= i < sources.len(),
        sources[i] > written,
    ensures
        !is_valid_cache(b, depth, written, sources),
{
}

/// Adds the four bytes of `x`.
fn push_word(out: &mut Vec<u8>, x: u32)
    ensures
        final(out)@ == old(out)@ + seq![
            le_byte(x, 0),
            le_byte(x, 1),
            le_byte(x, 2),
            le_byte(x, 3),
        ],
{
    out.push((x % 256) as u8);
    out.push((x / 256 % 256) as u8);
    out.push((x / 65536 % 256) as u8);
    out.push((x / 16777216) as u8);
    assert(out@ =~= old(out)@ + seq![le_byte(x, 0), le_byte(x, 1), le_byte(x, 2), le_byte(x, 3)]);
}

/// The number in the four bytes from `at` on.
fn word_at(b: &Vec<u8>, at: usize) -> (r: u32)
    requires
        at + 4 <= b.len(),
    ensures
        r == le_word(b@, at as int),
{
    b[at] as u32 + 256 * b[at + 1] as u32 + 65536 * b[at + 2] as u32 + 16777216 * b[at + 3] as u32
}

/// The bytes of the cache of a corpus. The depth is stored in 32 bits.
pub fn encode_cache(num_layers: usize, tokens: &Vec<u32>) -> (r: Vec<u8>)
    ensures
        r@ == cache_bytes(num_layers as u32, tokens@),
{
    let mut out: Vec<u8> = Vec::new();
    let depth: u32 = #[verifier::truncate] (num_layers as u32);
    push_word(&mut out, depth);
    assert(out@ =~= cache_bytes(depth, tokens@.take(0)));
    let mut i: usize = 0;
    while i < tokens.len()
        invariant
            i <= tokens.len(),
            out@ == cache_bytes(depth, tokens@.take(i as int)),
        decreases tokens.len() - i,
    {
        let ghost before = out@;
        push_word(&mut out, tokens[i]);
        proof {
            let more = cache_bytes(depth, tokens@.take(i + 1));
            assert forall|k: int| 0 <= k < out@.len() implies out@[k] == more[k] by {
                if k >= 4 + 4 * i {
                    assert(k / 4 - 1 == i);
                    assert(k - (4 + 4 * i) == k % 4);
                    assert(tokens@.take(i + 1)[i as int] == tokens@[i as int]);
                } else if k >= 4 {
                    assert(k / 4 - 1 < i);
                    assert(tokens@.take(i + 1)[k / 4 - 1] == tokens@.take(i as int)[k / 4 - 1]);
                }
            }
            assert(out@ =~= more);
        }
        i = i + 1;
    }
    assert(tokens@.take(i as int) =~= tokens@);
    out
}

/// The tokens that a cache holds.
pub fn decode_cache(b: &Vec<u8>) -> (r: Option<Vec<u32>>)
    ensures
        r matches Some(tokens) ==> cached_tokens(b@) == Some(tokens@),
        r is None ==> cached_tokens(b@) is None,
{
    if b.len() <= 4 || b.len() % 4 != 0 {
        return None;
    }
    let n: usize = b.len() / 4 - 1;
    let mut out: Vec<u32> = Vec::new();
    while out.len() < n
        invariant
            n == b.len() / 4 - 1,
            b.len() > 4,
            b.len() % 4 == 0,
            out.len() <= n,
            forall|i: int| 0 <= i < out.len() ==> #[trigger] out[i] == le_word(b@, 4 + 4 * i),
        decreases n - out.len(),
    {
        let at: usize = 4 + 4 * out.len();
        out.push(word_at(b, at));
    }
    assert(out@ =~= cached_tokens(b@)->0);
    Some(out)
}

/// What a cache is good for.
pub enum CacheUse {
    /// It stands for the corpus.
    Hit(Vec<u32>),
    /// It should, but holds no tokens or a part of one.
    Corrupt,
    /// It was written for another depth or before a source.
    Stale,
}

/// Whether a cache stands for the corpus of a model of `num_layers` layers.
pub fn cache_valid(b: &Vec<u8>, num_layers: usize, written: i128, sources: &Vec<i128>) -> (r: bool)
    ensures
        r == is_valid_cache(b@, num_layers as nat, written, sources@),
{
    if b.len() < 4 {
        return false;
    }
    if word_at(b, 0) as usize != num_layers {
        return false;
    }
    let mut i: usize = 0;
    while i < sources.len()
        invariant
            i <= sources.len(),
            forall|j: int| 0 <= j < i ==> #[trigger] sources[j] <= written,
        decreases sources.len() - i,
    {
        if sources[i] > written {
            return false;
        }
        i = i + 1;
    }
    true
}

/// Opens the cache of a corpus: `b` are its bytes, `written` the time of its last change and
/// `sources` those of the files that the corpus is made of.
pub fn open_cache(b: &Vec<u8>, num_layers: usize, written: i128, sources: &Vec<i128>) -> (r: CacheUse)
    ensures
        match r {
            CacheUse::Hit(tokens) => is_valid_cache(b@, num_layers as nat, written, sources@)
                && cached_tokens(b@) == Some(tokens@),
            CacheUse::Corrupt => is_valid_cache(b@, num_layers as nat, written, sources@)
                && cached_tokens(b@) is None,
            CacheUse::Stale => !is_valid_cache(b@, num_layers as nat, written, sources@),
        },
{
    if !cache_valid(b, num_layers, written, sources) {
        return CacheUse::Stale;
    }
    match decode_cache(b) {
        Some(tokens) => CacheUse::Hit(tokens),
        None => CacheUse::Corrupt,
    }
}

/// `a` comes before `b`: it is a beginning of `b`, or has the smaller byte where they first differ.
pub open spec fn comes_before(a: Seq<u8>, b: Seq<u8>) -> bool
    decreases a.len(),
{
    if b.len() == 0 {
        false
    } else if a.len() == 0 {
        true
    } else if a[0] == b[0] {
        comes_before(a.skip(1), b.skip(1))
    } else {
        a[0] < b[0]
    }
}

/// `r` lists each of the `n` places once.
pub open spec fn is_arrangement(r: Seq<usize>, n: nat) -> bool {
    &&& r.len() == n
    &&& forall|i: int| 0 <= i < r.len() ==> (#[trigger] r[i]) < n
    &&& forall|i: int, j: int|
        #![trigger r[i], r[j]]
        0 <= i < j < r.len() ==> r[i] != r[j]
}

/// No name comes before one that is listed earlier.
pub open spec fn is_in_order(names: Seq<Vec<u8>>, r: Seq<usize>) -> bool {
    forall|i: int, j: int|
        #![trigger r[i], r[j]]
        0 <= i < j < r.len() ==> !comes_before(names[r[j] as int]@, names[r[i] as int]@)
}

/// Whether `a` comes before `b`.
fn is_before(a: &Vec<u8>, b: &Vec<u8>) -> (r: bool)
    ensures
        r == comes_before(a@, b@),
{
    let mut i: usize = 0;
    assert(a@.skip(0) =~= a@);
    assert(b@.skip(0) =~= b@);
    while i < a.len() && i < b.len()
        invariant
            i <= a.len(),
            i <= b.len(),
            comes_before(a@, b@) == comes_before(a@.skip(i as int), b@.skip(i as int)),
        decreases a.len() - i,
    {
        assert(a@.skip(i as int)[0] == a@[i as int]);
        assert(b@.skip(i as int)[0] == b@[i as int]);
        if a[i] != b[i] {
            return a[i] < b[i];
        }
        assert(a@.skip(i as int).skip(1) =~= a@.skip(i + 1));
        assert(b@.skip(i as int).skip(1) =~= b@.skip(i + 1));
        i = i + 1;
    }
    i < b.len()
}

/// Of three names, one that does not come before a second, which does not come before a third, does not
/// come before the third.
proof fn lemma_order_carries(a: Seq<u8>, b: Seq<u8>, c: Seq<u8>)
    ensures
        !comes_before(b, a) && !comes_before(c, b) ==> !comes_before(c, a),
        comes_before(a, b) ==> !comes_before(b, a),
    decreases a.len() + b.len() + c.len(),
{
    if a.len() > 0 && b.len() > 0 {
        lemma_order_carries(
            a.skip(1),
            b.skip(1),
            if c.len() > 0 {
                c.skip(1)
            } else {
                c
            },
        );
    }
}

/// The order in which the files of a directory are read: by their names, byte by byte. What is given
/// back are the places of the names.
pub fn file_order(names: &Vec<Vec<u8>>) -> (r: Vec<usize>)
    ensures
        is_arrangement(r@, names@.len()),
        is_in_order(names@, r@),
{
    let mut out: Vec<usize> = Vec::new();
    let mut i: usize = 0;
    while i < names.len()
        invariant
            i <= names.len(),
            is_arrangement(out@, i as nat),
            is_in_order(names@, out@),
        decreases names.len() - i,
    {
        let mut at: usize = 0;
        while at < out.len() && !is_before(&names[i], &names[out[at]])
            invariant
                i < names.len(),
                at <= out.len(),
                is_arrangement(out@, i as nat),
                forall|j: int|
                    0 <= j < at ==> !comes_before(
                        names@[i as int]@,
                        names@[#[trigger] out@[j] as int]@,
                    ),
            decreases out.len() - at,
        {
            at = at + 1;
        }
        let ghost was = out@;
        out.insert(at, i);
        proof {
            assert(out@ =~= was.insert(at as int, i));
            assert forall|j: int| 0 <= j < out@.len() implies (#[trigger] out@[j]) < i + 1 by {
                if j < at {
                    assert(out@[j] == was[j]);
                } else if j > at {
                    assert(out@[j] == was[j - 1]);
                }
            }
            assert forall|j: int, k: int|
                #![trigger out@[j], out@[k]]
                0 <= j < k < out@.len() implies out@[j] != out@[k] by {
                assert(j < at ==> out@[j] == was[j]);
                assert(j > at ==> out@[j] == was[j - 1]);
                assert(k < at ==> out@[k] == was[k]);
                assert(k > at ==> out@[k] == was[k - 1]);
            }
            assert forall|j: int, k: int|
                #![trigger out@[j], out@[k]]
                0 <= j < k < out@.len() implies !comes_before(
                names@[out@[k] as int]@,
                names@[out@[j] as int]@,
            ) by {
                let new = names@[i as int]@;
                if j == at {
                    assert(out@[k] == was[k - 1]);
                    let next = names@[was[at as int] as int]@;
                    let last = names@[was[k - 1] as int]@;
                    lemma_order_carries(new, next, last);
                    if k - 1 > at {
                        assert(!comes_before(last, next));
                    } else {
                        lemma_order_carries(next, next, next);
                    }
                } else if k == at {
                    assert(out@[j] == was[j]);
                } else {
                    assert(out@[j] == was[if j < at {
                        j
                    } else {
                        j - 1
                    }]);
                    assert(out@[k] == was[if k < at {
                        k
                    } else {
                        k - 1
                    }]);
                }
            }
        }
        i = i + 1;
    }
    out
}

/// Files are read in the order of their names, however the directory lists them: of two different names
/// the one that is listed earlier comes before the other.
pub proof fn law_files_are_read_by_name(
    names: Seq<Vec<u8>>,
    r: Seq<usize>,
    i: int,
    j: int,
)
    requires
        is_arrangement(r, names.len()),
        is_in_order(names, r),
        0 <= i < j < r.len(),
        names[r[i] as int]@ != names[r[j] as int]@,
    ensures
        comes_before(names[r[i] as int]@, names[r[j] as int]@),
{
    lemma_order_is_total(names[r[i] as int]@, names[r[j] as int]@);
}

/// Of two different names one comes before the other.
proof fn lemma_order_is_total(a: Seq<u8>, b: Seq<u8>)
    requires
        a != b,
    ensures
        comes_before(a, b) || comes_before(b, a),
    decreases a.len(),
{
    if a.len() > 0 && b.len() > 0 && a[0] == b[0] {
        if a.skip(1) == b.skip(1) {
            assert(a.len() == a.skip(1).len() + 1);
            assert(b.len() == b.skip(1).len() + 1);
            assert forall|k: int| 0 <= k < a.len() implies a[k] == b[k] by {
                if k > 0 {
                    assert(a[k] == a.skip(1)[k - 1]);
                    assert(b[k] == b.skip(1)[k - 1]);
                }
            }
            assert(a =~= b);
        }
        lemma_order_is_total(a.skip(1), b.skip(1));
    } else if a.len() == 0 && b.len() == 0 {
        assert(a =~= b);
    }
}

/// Names are ordered byte by byte: where two names part, the smaller byte comes first, and a name comes
/// before those that go on from it; no name comes before itself.
pub proof fn law_names_are_ordered_by_bytes(
    common: Seq<u8>,
    x: u8,
    y: u8,
    rest: Seq<u8>,
    other: Seq<u8>,
)
    ensures
        x < y ==> comes_before(common + seq![x] + rest, common + seq![y] + other),
        x < y ==> !comes_before(common + seq![y] + other, common + seq![x] + rest),
        comes_before(common, common + seq![x] + rest),
        !comes_before(common + seq![x] + rest, common),
        !comes_before(common, common),
    decreases common.len(),
{
    let a = common + seq![x] + rest;
    let b = common + seq![y] + other;
    if common.len() > 0 {
        let less = common.skip(1);
        law_names_are_ordered_by_bytes(less, x, y, rest, other);
        assert(a.skip(1) =~= less + seq![x] + rest);
        assert(b.skip(1) =~= less + seq![y] + other);
        assert(a[0] == common[0] && b[0] == common[0]);
    } else {
        assert(a[0] == x && b[0] == y);
    }
}

/// Every file of a directory is read, and none twice: each place stands in the order once.
pub proof fn law_every_file_is_read_once(r: Seq<usize>, n: nat, i: int)
    requires
        is_arrangement(r, n),
        0 <= i < n,
    ensures
        r.len() == n,
        exists|k: int| 0 <= k < r.len() && #[trigger] r[k] == i,
        forall|j: int, k: int|
            #![trigger r[j], r[k]]
            0 <= j < r.len() && 0 <= k < r.len() && r[j] == r[k] ==> j == k,
{
    let places = r.map_values(|p: usize| p as int);
    assert forall|j: int, k: int|
        #![trigger r[j], r[k]]
        0 <= j < r.len() && 0 <= k < r.len() && r[j] == r[k] implies j == k by {
        if j < k {
            assert(r[j] != r[k]);
        } else if k < j {
            assert(r[k] != r[j]);
        }
    }
    assert(places.no_duplicates()) by {
        assert forall|j: int, k: int|
            0 <= j < places.len() && 0 <= k < places.len() && j != k implies places[j] != places[k] by {
            assert(places[j] == r[j] && places[k] == r[k]);
        }
    }
    places.unique_seq_to_set();
    let all = vstd::set_lib::set_int_range(0, n as int);
    vstd::set_lib::lemma_int_range(0, n as int);
    assert(places.to_set().subset_of(all)) by {
        assert forall|x: int| places.to_set().contains(x) implies all.contains(x) by {
            let k = choose|k: int| 0 <= k < places.len() && places[k] == x;
            assert(places[k] == r[k]);
        }
    }
    vstd::set_lib::lemma_subset_equality(places.to_set(), all);
    assert(places.to_set().contains(i));
    let k = choose|k: int| 0 <= k < places.len() && places[k] == i;
    assert(r[k] == i);
}

} // verus!
