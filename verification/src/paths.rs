//! The files of a run.
use crate::numerals::{decimal, decimal_text, is_digit, lemma_decimal, lemma_decimal_injective};
use crate::text::{
    cat, lemma_replace_first, occurs_at, replace_all, replace_text, same_text, text_of, views,
};
use vstd::prelude::*;
use vstd::string::*;

verus! {

/// The files that a run keeps under its root.
pub struct Paths {
    /// The vocabulary.
    pub vocab: String,
    /// The configuration of the model.
    pub config: String,
    /// The latest weights.
    pub checkpoint: String,
    /// The best weights.
    pub best: String,
    /// The number of epochs.
    pub meta: String,
    /// The loss of the best epoch.
    pub best_loss: String,
    /// The number of the best epoch.
    pub best_epoch: String,
    /// The state of the model's evolution.
    pub evolution: String,
    /// Which checkpoints of others were taken in.
    pub spore_state: String,
    /// The weights that are served.
    pub serving: String,
    /// The weights that are about to be served.
    pub serving_tmp: String,
    /// The file whose presence asks for a restart.
    pub hot_reload: String,
    /// The corpus.
    pub corpus: String,
    /// The tokens of the corpus.
    pub cache: String,
}

/// The files under a root.
pub fn paths(root: &str) -> (r: Paths)
    ensures
        r.vocab@ == root@ + "/data/vocab_v3.json"@,
        r.config@ == root@ + "/models/albert_v3.0.config.json"@,
        r.checkpoint@ == root@ + "/models/albert_v3.0.safetensors"@,
        r.best@ == root@ + "/models/albert_v3.0.best.safetensors"@,
        r.meta@ == root@ + "/models/albert_v3.0.meta"@,
        r.best_loss@ == root@ + "/models/albert_v3.0.best_loss"@,
        r.best_epoch@ == root@ + "/models/albert_v3.0.best_epoch"@,
        r.evolution@ == root@ + "/models/albert_v3.0.evolution"@,
        r.spore_state@ == root@ + "/models/albert_v3.0.spore_state"@,
        r.serving@ == root@ + "/models/albert_v3.0_serving.safetensors"@,
        r.serving_tmp@ == root@ + "/models/albert_v3.0_serving.safetensors.tmp"@,
        r.hot_reload@ == root@ + "/models/.hot_reload"@,
        r.corpus@ == root@ + "/data/corpus"@,
        r.cache@ == root@ + "/data/corpus_cache.bin"@,
{
    Paths {
        vocab: cat(root, "/data/vocab_v3.json"),
        config: cat(root, "/models/albert_v3.0.config.json"),
        checkpoint: cat(root, "/models/albert_v3.0.safetensors"),
        best: cat(root, "/models/albert_v3.0.best.safetensors"),
        meta: cat(root, "/models/albert_v3.0.meta"),
        best_loss: cat(root, "/models/albert_v3.0.best_loss"),
        best_epoch: cat(root, "/models/albert_v3.0.best_epoch"),
        evolution: cat(root, "/models/albert_v3.0.evolution"),
        spore_state: cat(root, "/models/albert_v3.0.spore_state"),
        serving: cat(root, "/models/albert_v3.0_serving.safetensors"),
        serving_tmp: cat(root, "/models/albert_v3.0_serving.safetensors.tmp"),
        hot_reload: cat(root, "/models/.hot_reload"),
        corpus: cat(root, "/data/corpus"),
        cache: cat(root, "/data/corpus_cache.bin"),
    }
}

/// The directories whose files have to be older than the cache.
pub fn watched(root: &str) -> (r: Vec<String>)
    ensures
        views(r@) == seq![
            root@ + "/data/corpus"@,
            root@ + "/data/multilingual"@,
            root@ + "/data/academic"@,
            root@ + "/data/fulltext"@,
            root@ + "/data/chaos"@,
        ],
{
    let mut out: Vec<String> = Vec::new();
    out.push(cat(root, "/data/corpus"));
    out.push(cat(root, "/data/multilingual"));
    out.push(cat(root, "/data/academic"));
    out.push(cat(root, "/data/fulltext"));
    out.push(cat(root, "/data/chaos"));
    assert(views(out@) =~= seq![
        root@ + "/data/corpus"@,
        root@ + "/data/multilingual"@,
        root@ + "/data/academic"@,
        root@ + "/data/fulltext"@,
        root@ + "/data/chaos"@,
    ]);
    out
}

/// The parts of the corpus that are read at any depth.
pub fn extra_corpora() -> (r: Vec<String>)
    ensures
        views(r@) == seq!["multilingual"@, "academic"@, "fulltext"@, "chaos"@],
{
    let mut out: Vec<String> = Vec::new();
    out.push("multilingual".to_owned());
    out.push("academic".to_owned());
    out.push("fulltext".to_owned());
    out.push("chaos".to_owned());
    assert(views(out@) =~= seq!["multilingual"@, "academic"@, "fulltext"@, "chaos"@]);
    out
}

/// The directory of the log, where there is a home; it may have to be made.
pub fn log_dir(home: &str) -> (r: String)
    ensures
        r@ == home@ + "/.albert"@,
{
    cat(home, "/.albert")
}

/// The log: under the home, or under the root where there is no home.
pub open spec fn log_path_of(home: Option<Seq<char>>, root: Seq<char>) -> Seq<char> {
    match home {
        Some(h) => h + "/.albert"@ + "/training.log"@,
        None => root + "/dashboard/training.log"@,
    }
}

/// The log.
pub fn log_path(home: &Option<String>, root: &str) -> (r: String)
    ensures
        r@ == log_path_of(text_of(*home), root@),
{
    match home {
        Some(h) => cat(log_dir(h.as_str()).as_str(), "/training.log"),
        None => cat(root, "/dashboard/training.log"),
    }
}

/// The epochs' summaries, beside the log.
pub fn history_path(log: &str) -> (r: String)
    ensures
        r@ == replace_all(log@, "training.log"@, "epoch_history.log"@),
{
    proof {
        reveal_strlit("training.log");
    }
    replace_text(log, "training.log", "epoch_history.log")
}

/// The best weights of a depth, put away when the model grows.
pub open spec fn archive_of(root: Seq<char>, layers: nat) -> Seq<char> {
    root + "/models/albert_v3.0.best."@ + decimal(layers) + "L.safetensors"@
}

/// The best weights of a single-stream model, put away when it is split.
pub open spec fn cord_archive_of(root: Seq<char>, layers: nat) -> Seq<char> {
    root + "/models/albert_v3.0.best."@ + decimal(layers) + "L.pre_cord.safetensors"@
}

/// Where the best weights of a depth are put when the model grows.
pub fn archive_path(root: &str, layers: usize) -> (r: String)
    ensures
        r@ == archive_of(root@, layers as nat),
{
    let mut out: String = cat(root, "/models/albert_v3.0.best.");
    out.append(decimal_text(layers as u64).as_str());
    out.append("L.safetensors");
    out
}

/// Where the best weights of a single-stream model are put when it is split.
pub fn cord_archive_path(root: &str, layers: usize) -> (r: String)
    ensures
        r@ == cord_archive_of(root@, layers as nat),
{
    let mut out: String = cat(root, "/models/albert_v3.0.best.");
    out.append(decimal_text(layers as u64).as_str());
    out.append("L.pre_cord.safetensors");
    out
}

/// No surgery overwrites what another put away: archives of different depths, and of different
/// surgeries, are different files.
pub proof fn law_archives_are_distinct(root: Seq<char>, a: nat, b: nat)
    ensures
        archive_of(root, a) != cord_archive_of(root, b),
        archive_of(root, a) == archive_of(root, b) ==> a == b,
        cord_archive_of(root, a) == cord_archive_of(root, b) ==> a == b,
{
    let head = root + "/models/albert_v3.0.best."@;
    if archive_of(root, a) == cord_archive_of(root, b) {
        reveal_strlit("L.safetensors");
        reveal_strlit("L.pre_cord.safetensors");
        let s = archive_of(root, a);
        let rest = s.skip(head.len() as int);
        assert(rest =~= decimal(a) + "L.safetensors"@);
        assert(rest =~= decimal(b) + "L.pre_cord.safetensors"@);
        lemma_decimal(a);
        lemma_decimal(b);
        let i = decimal(a).len() as int;
        let j = decimal(b).len() as int;
        assert(rest[i] == 'L');
        assert(rest[j] == 'L');
        if i < j {
            assert(is_digit(decimal(b)[i]));
            assert(rest[i] == decimal(b)[i]);
        } else if j < i {
            assert(is_digit(decimal(a)[j]));
            assert(rest[j] == decimal(a)[j]);
        }
    }
    if archive_of(root, a) == archive_of(root, b) {
        lemma_same_middle(head, decimal(a), decimal(b), "L.safetensors"@);
        lemma_decimal_injective(a, b);
    }
    if cord_archive_of(root, a) == cord_archive_of(root, b) {
        lemma_same_middle(head, decimal(a), decimal(b), "L.pre_cord.safetensors"@);
        lemma_decimal_injective(a, b);
    }
}

/// Between the same beginning and the same end stands the same.
proof fn lemma_same_middle(head: Seq<char>, x: Seq<char>, y: Seq<char>, tail: Seq<char>)
    requires
        head + x + tail == head + y + tail,
    ensures
        x == y,
{
    let s = head + x + tail;
    assert(s.len() == head.len() + x.len() + tail.len());
    assert(s.len() == head.len() + y.len() + tail.len());
    assert(x =~= s.subrange(head.len() as int, (head.len() + x.len()) as int));
    assert(y =~= s.subrange(head.len() as int, (head.len() + y.len()) as int));
}

/// The weights that a cord surgery is made on: the best, where there are any, else the latest.
pub open spec fn cord_source_of(
    best: Seq<char>,
    checkpoint: Seq<char>,
    best_exists: bool,
) -> Seq<char> {
    if best_exists {
        best
    } else {
        checkpoint
    }
}

/// The file of the weights that a cord surgery is made on.
pub fn cord_source(files: &Paths, best_exists: bool) -> (r: String)
    ensures
        r@ == cord_source_of(files.best@, files.checkpoint@, best_exists),
{
    if best_exists {
        files.best.clone()
    } else {
        files.checkpoint.clone()
    }
}

/// Where checkpoints of others are looked for; nowhere where the place is empty.
pub open spec fn spores_dir_of(flag: Seq<char>, home: Option<Seq<char>>) -> Seq<char> {
    if flag == "none"@ {
        Seq::empty()
    } else if flag.len() == 0 {
        match home {
            Some(h) => h + "/projects/albert-spores/spores"@,
            None => Seq::empty(),
        }
    } else {
        flag
    }
}

/// Where checkpoints of others are looked for.
pub fn spores_dir(flag: &str, home: &Option<String>) -> (r: String)
    ensures
        r@ == spores_dir_of(flag@, text_of(*home)),
{
    if same_text(flag, "none") {
        String::new()
    } else if flag.unicode_len() == 0 {
        match home {
            Some(h) => cat(h.as_str(), "/projects/albert-spores/spores"),
            None => String::new(),
        }
    } else {
        flag.to_owned()
    }
}

/// The log lies in the home, where there is one, and under the root otherwise.
pub proof fn law_log_lies_in_the_home(home: Seq<char>, root: Seq<char>)
    ensures
        log_path_of(Some(home), root) == home + "/.albert/training.log"@,
        log_path_of(None, root) == root + "/dashboard/training.log"@,
{
    reveal_strlit("/.albert");
    reveal_strlit("/training.log");
    reveal_strlit("/.albert/training.log");
    assert(home + "/.albert"@ + "/training.log"@ =~= home + "/.albert/training.log"@);
}

/// The epochs' summaries lie beside the log, in a directory whose name does not hold the log's.
pub proof fn law_history_lies_beside_the_log(dir: Seq<char>)
    requires
        forall|i: int|
            0 <= i < dir.len() ==> !#[trigger] occurs_at(
                dir + "training.log"@,
                "training.log"@,
                i,
            ),
    ensures
        replace_all(dir + "training.log"@, "training.log"@, "epoch_history.log"@) == dir
            + "epoch_history.log"@,
{
    reveal_strlit("training.log");
    let none = Seq::<char>::empty();
    assert(dir + "training.log"@ + none =~= dir + "training.log"@);
    lemma_replace_first(dir, "training.log"@, none, "epoch_history.log"@);
    assert(replace_all(none, "training.log"@, "epoch_history.log"@) =~= none);
    assert(dir + "epoch_history.log"@ + none =~= dir + "epoch_history.log"@);
}

/// Checkpoints of others are looked for where the flag says; nowhere where it says `none`; and in the
/// home where it says nothing, if there is a home.
pub proof fn law_spores_are_looked_for_where_told(flag: Seq<char>, home: Seq<char>)
    ensures
        flag.len() > 0 && flag != "none"@ ==> spores_dir_of(flag, Some(home)) == flag && spores_dir_of(
            flag,
            None,
        ) == flag,
        spores_dir_of("none"@, Some(home)).len() == 0,
        spores_dir_of("none"@, None).len() == 0,
        spores_dir_of(Seq::empty(), Some(home)) == home + "/projects/albert-spores/spores"@,
        spores_dir_of(Seq::empty(), None).len() == 0,
{
    reveal_strlit("none");
    assert("none"@.len() == 4);
}

/// A cord surgery is made on the best weights wherever there are any.
pub proof fn law_cord_surgery_takes_the_best(best: Seq<char>, checkpoint: Seq<char>)
    ensures
        cord_source_of(best, checkpoint, true) == best,
        cord_source_of(best, checkpoint, false) == checkpoint,
{
}

} // verus!
