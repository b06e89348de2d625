//! The epochs of a run: how many there were, which was the best, and whether the model has collapsed.
use crate::fraction::{below, equal, is_below, is_equal, is_nan, LARGEST};
use crate::numerals::{decimal, is_digit, lemma_decimal, number_up_to, parse_u32};
use crate::text::{
    chars_of, is_white_space, law_trim_takes_white_space_off, text_of, trim, trim_chars, trim_end,
    trim_start,
};
use vstd::prelude::*;

verus! {

/// The bits of 11.0: an epoch whose average loss lies at or above it is a collapsed one.
pub const COLLAPSE_THRESHOLD: u32 = 0x4130_0000;

/// After how many collapsed epochs in a row something is done about it.
pub const COLLAPSE_STREAK_LIMIT: u32 = 2;

/// The bits of 0.15: a gap in the losses that weighs more has the cold layers boosted harder.
pub const SEVERE_GAP: u32 = 0x3E19_999A;

/// The number that a small file holds, with white space around it; zero where there is no such file,
/// or it holds something else.
pub open spec fn number_of_file(text: Option<Seq<char>>) -> nat {
    match text {
        Some(t) => match number_up_to(trim(t), u32::MAX as int) {
            Some(n) => n,
            None => 0,
        },
        None => 0,
    }
}

/// The number that a small file holds.
pub fn number_in_file(text: &Option<String>) -> (r: u32)
    ensures
        r == number_of_file(text_of(*text)),
{
    match text {
        Some(t) => match parse_u32(&trim_chars(&chars_of(t.as_str()))) {
            Some(n) => n,
            None => 0,
        },
        None => 0,
    }
}

/// A loss that a file may hold; the largest one where it does not.
pub open spec fn loss_of_file(loss: Option<u32>) -> u32 {
    match loss {
        Some(l) => l,
        None => LARGEST,
    }
}

/// What is known of the epochs of a run. Losses are the bits of singles.
#[derive(Clone, Copy, Debug, PartialEq, Eq, Structural)]
pub struct Progress {
    /// The epochs, over all starts of the program.
    pub epochs: u32,
    /// The lowest average loss of any of them.
    pub best_loss: u32,
    /// The epoch that had it.
    pub best_epoch: u32,
    /// The average loss of the epoch before.
    pub last_loss: u32,
    /// The collapsed epochs in a row.
    pub collapsed: u32,
}

/// What is done after an epoch.
#[derive(Clone, Copy, Debug, PartialEq, Eq, Structural)]
pub enum Verdict {
    /// The epoch was sound.
    Sound,
    /// The epoch was a collapsed one; there have been so many in a row.
    Streak(u32),
    /// The best weights are loaded again, and the optimizer starts over.
    Rollback(u32),
    /// The best weights are no better, so the model grows.
    Surgery,
    /// The best weights are no better, and the model may not grow: it goes on as it is.
    Suppressed,
}

/// What is known once the current epoch has this average loss.
pub open spec fn with_loss(p: Progress, avg_loss: u32) -> Progress {
    if is_below(avg_loss, p.best_loss) {
        Progress { best_loss: avg_loss, best_epoch: p.epochs, ..p }
    } else {
        p
    }
}

/// The loss is that of a collapsed model: it lies at or above the threshold.
pub open spec fn is_collapsed(loss: u32) -> bool {
    is_below(COLLAPSE_THRESHOLD, loss) || is_equal(COLLAPSE_THRESHOLD, loss)
}

/// Going back to the best weights helps: there are some, and their loss is not that of a collapsed
/// model.
pub open spec fn best_is_usable(best_exists: bool, best_recorded: u32) -> bool {
    best_exists && !is_collapsed(best_recorded)
}

/// Whether a loss is that of a collapsed model.
pub fn collapsed_loss(loss: u32) -> (r: bool)
    ensures
        r == is_collapsed(loss),
{
    below(COLLAPSE_THRESHOLD, loss) || equal(COLLAPSE_THRESHOLD, loss)
}

/// A run of so many epochs was told to stop by now.
pub open spec fn is_reached(epochs: int, stop_at: Option<u32>) -> bool {
    stop_at matches Some(e) && epochs >= e
}

/// What is done after an epoch with this average loss.
pub open spec fn verdict_of(
    p: Progress,
    avg_loss: u32,
    best_exists: bool,
    best_recorded: u32,
    num_layers: int,
    max_layers: int,
) -> Verdict {
    if !is_collapsed(avg_loss) {
        Verdict::Sound
    } else if p.collapsed + 1 < COLLAPSE_STREAK_LIMIT {
        Verdict::Streak((p.collapsed + 1) as u32)
    } else if best_is_usable(best_exists, best_recorded) {
        Verdict::Rollback((p.collapsed + 1) as u32)
    } else if num_layers >= max_layers {
        Verdict::Suppressed
    } else {
        Verdict::Surgery
    }
}

/// The collapsed epochs in a row after a verdict.
pub open spec fn collapsed_after(v: Verdict) -> u32 {
    match v {
        Verdict::Streak(n) => n,
        _ => 0,
    }
}

impl Progress {
    /// There are fewer collapsed epochs in a row than something is done about.
    pub open spec fn wf(&self) -> bool {
        self.collapsed < COLLAPSE_STREAK_LIMIT
    }

    /// Takes up a run from the files that it left: the number of its epochs, the number of the best,
    /// and the loss of the best, where the file holds one.
    pub fn resume(epochs: &Option<String>, best_epoch: &Option<String>, best_loss: Option<u32>) -> (r:
        Progress)
        ensures
            r.wf(),
            r.epochs == number_of_file(text_of(*epochs)),
            r.best_epoch == number_of_file(text_of(*best_epoch)),
            r.best_loss == loss_of_file(best_loss),
            r.last_loss == r.best_loss,
            r.collapsed == 0,
    {
        let best: u32 = match best_loss {
            Some(l) => l,
            None => LARGEST,
        };
        Progress {
            epochs: number_in_file(epochs),
            best_loss: best,
            best_epoch: number_in_file(best_epoch),
            last_loss: best,
            collapsed: 0,
        }
    }

    /// Begins an epoch.
    pub fn begin_epoch(&mut self)
        requires
            old(self).epochs < u32::MAX,
        ensures
            *final(self) == (Progress { epochs: (old(self).epochs + 1) as u32, ..*old(self) }),
    {
        self.epochs = self.epochs + 1;
    }

    /// Takes the average loss of the current epoch, and says whether it is the best so far.
    pub fn take_loss(&mut self, avg_loss: u32) -> (r: bool)
        ensures
            r == is_below(avg_loss, old(self).best_loss),
            *final(self) == with_loss(*old(self), avg_loss),
    {
        if below(avg_loss, self.best_loss) {
            self.best_loss = avg_loss;
            self.best_epoch = self.epochs;
            true
        } else {
            false
        }
    }

    /// The epochs since the best one; zero where the best is said to lie ahead.
    pub fn since_best(&self) -> (r: u32)
        ensures
            r == (if self.epochs >= self.best_epoch {
                self.epochs - self.best_epoch
            } else {
                0
            }),
    {
        if self.epochs >= self.best_epoch {
            self.epochs - self.best_epoch
        } else {
            0
        }
    }

    /// Keeps the average loss of the current epoch for comparison with the next.
    pub fn keep_loss(&mut self, avg_loss: u32)
        ensures
            *final(self) == (Progress { last_loss: avg_loss, ..*old(self) }),
    {
        self.last_loss = avg_loss;
    }

    /// Whether the run was told to stop by now.
    pub fn has_reached(&self, stop_at: Option<u32>) -> (r: bool)
        ensures
            r == is_reached(self.epochs as int, stop_at),
    {
        match stop_at {
            Some(e) => self.epochs >= e,
            None => false,
        }
    }

    /// Judges an epoch by its average loss. `best_recorded` is the loss that the best weights were
    /// saved with, where it is known.
    pub fn judge(
        &mut self,
        avg_loss: u32,
        best_exists: bool,
        best_recorded: Option<u32>,
        num_layers: usize,
        max_layers: usize,
    ) -> (r: Verdict)
        requires
            old(self).wf(),
        ensures
            final(self).wf(),
            r == verdict_of(
                *old(self),
                avg_loss,
                best_exists,
                loss_of_file(best_recorded),
                num_layers as int,
                max_layers as int,
            ),
            *final(self) == (Progress { collapsed: collapsed_after(r), ..*old(self) }),
    {
        if !collapsed_loss(avg_loss) {
            self.collapsed = 0;
            return Verdict::Sound;
        }
        let streak: u32 = self.collapsed + 1;
        if streak < COLLAPSE_STREAK_LIMIT {
            self.collapsed = streak;
            return Verdict::Streak(streak);
        }
        self.collapsed = 0;
        let recorded: u32 = match best_recorded {
            Some(l) => l,
            None => LARGEST,
        };
        if best_exists && !collapsed_loss(recorded) {
            Verdict::Rollback(streak)
        } else if num_layers >= max_layers {
            Verdict::Suppressed
        } else {
            Verdict::Surgery
        }
    }
}

/// What is known at the end of an epoch, besides what the run knows itself.
#[derive(Clone, Copy, Debug, PartialEq, Eq, Structural)]
pub struct EpochFacts {
    /// The average loss.
    pub avg_loss: u32,
    /// A restart was asked for.
    pub reload: bool,
    /// There are best weights.
    pub best_exists: bool,
    /// The loss that the best weights were saved with, where it is known.
    pub best_recorded: Option<u32>,
    /// How deep the model may become.
    pub max_layers: usize,
}

/// How an epoch ends.
#[derive(Clone, Copy, Debug, PartialEq, Eq, Structural)]
pub enum EpochEnd {
    /// The run stops, as it was told to.
    Stop,
    /// The program is restarted.
    Reload,
    /// The run goes on, with this verdict on the epoch.
    Judged(Verdict),
}

/// How an epoch ends: a run that was told to stop stops; else a restart that was asked for comes; else
/// the epoch is judged.
pub open spec fn end_of(p: Progress, stop_at: Option<u32>, f: EpochFacts, num_layers: int) -> EpochEnd {
    if is_reached(p.epochs as int, stop_at) {
        EpochEnd::Stop
    } else if f.reload {
        EpochEnd::Reload
    } else {
        EpochEnd::Judged(
            verdict_of(
                p,
                f.avg_loss,
                f.best_exists,
                loss_of_file(f.best_recorded),
                num_layers,
                f.max_layers as int,
            ),
        )
    }
}

/// What is known after an epoch has ended.
pub open spec fn after_end(p: Progress, end: EpochEnd) -> Progress {
    match end {
        EpochEnd::Judged(v) => Progress { collapsed: collapsed_after(v), ..p },
        _ => p,
    }
}

/// The run asks whether the model has learned all that it can at its depth: not in an epoch in which
/// something was done about a collapse.
pub open spec fn is_asked(v: Verdict) -> bool {
    v is Sound || v is Streak
}

/// The model grows after an epoch: on account of a collapse, or because it has learned all that it
/// can.
pub open spec fn grows_after(v: Verdict, evolves: bool) -> bool {
    v is Surgery || (is_asked(v) && evolves)
}

impl Progress {
    /// Ends the current epoch.
    pub fn end_epoch(&mut self, stop_at: Option<u32>, facts: EpochFacts, num_layers: usize) -> (r:
        EpochEnd)
        requires
            old(self).wf(),
        ensures
            final(self).wf(),
            r == end_of(*old(self), stop_at, facts, num_layers as int),
            *final(self) == after_end(*old(self), r),
    {
        if self.has_reached(stop_at) {
            EpochEnd::Stop
        } else if facts.reload {
            EpochEnd::Reload
        } else {
            EpochEnd::Judged(
                self.judge(
                    facts.avg_loss,
                    facts.best_exists,
                    facts.best_recorded,
                    num_layers,
                    facts.max_layers,
                ),
            )
        }
    }
}

/// Whether the run asks if the model has learned all that it can at its depth.
pub fn asks_growth(v: Verdict) -> (r: bool)
    ensures
        r == is_asked(v),
{
    match v {
        Verdict::Sound => true,
        Verdict::Streak(_) => true,
        _ => false,
    }
}

/// Whether the model grows after an epoch. `evolves` is the answer to what `asks_growth` has asked.
pub fn grows(v: Verdict, evolves: bool) -> (r: bool)
    ensures
        r == grows_after(v, evolves),
{
    match v {
        Verdict::Surgery => true,
        Verdict::Sound => evolves,
        Verdict::Streak(_) => evolves,
        _ => false,
    }
}

/// What is known after a whole epoch: it is counted, its loss is compared with the best, it ends, and
/// its loss is kept.
pub open spec fn after_epoch(
    p: Progress,
    stop_at: Option<u32>,
    f: EpochFacts,
    num_layers: int,
) -> Progress {
    let q = in_epoch(p, f);
    Progress { last_loss: f.avg_loss, ..after_end(q, end_of(q, stop_at, f, num_layers)) }
}

/// What is known when an epoch ends.
pub open spec fn in_epoch(p: Progress, f: EpochFacts) -> Progress {
    with_loss(Progress { epochs: (p.epochs + 1) as u32, ..p }, f.avg_loss)
}

/// What is known after some epochs.
pub open spec fn after_run(
    p: Progress,
    stop_at: Option<u32>,
    facts: Seq<EpochFacts>,
    num_layers: int,
) -> Progress
    decreases facts.len(),
{
    if facts.len() == 0 {
        p
    } else {
        after_epoch(
            after_run(p, stop_at, facts.drop_last(), num_layers),
            stop_at,
            facts.last(),
            num_layers,
        )
    }
}

/// How the last of some epochs ends.
pub open spec fn last_end(
    p: Progress,
    stop_at: Option<u32>,
    facts: Seq<EpochFacts>,
    num_layers: int,
) -> EpochEnd {
    end_of(
        in_epoch(after_run(p, stop_at, facts.drop_last(), num_layers), facts.last()),
        stop_at,
        facts.last(),
        num_layers,
    )
}

/// A run is counted epoch by epoch, and its state stays sound.
proof fn lemma_run_counts(
    p: Progress,
    stop_at: Option<u32>,
    facts: Seq<EpochFacts>,
    num_layers: int,
)
    requires
        p.wf(),
        p.epochs + facts.len() <= u32::MAX,
    ensures
        after_run(p, stop_at, facts, num_layers).epochs == p.epochs + facts.len(),
        after_run(p, stop_at, facts, num_layers).wf(),
    decreases facts.len(),
{
    if facts.len() > 0 {
        lemma_run_counts(p, stop_at, facts.drop_last(), num_layers);
    }
}

/// A run that was told to stop after `s` epochs, and has had `m`, stops at the end of the first epoch
/// from the next one on that is no less than `s`, and not before; one that was not told never stops.
pub proof fn law_run_stops_when_told(
    p: Progress,
    stop_at: Option<u32>,
    facts: Seq<EpochFacts>,
    num_layers: nat,
)
    requires
        p.wf(),
        facts.len() > 0,
        p.epochs + facts.len() <= u32::MAX,
    ensures
        ({
            let epoch = p.epochs + facts.len();
            let stops = last_end(p, stop_at, facts, num_layers as int) is Stop;
            match stop_at {
                Some(s) => stops <==> epoch >= (if s > p.epochs + 1 {
                    s as int
                } else {
                    p.epochs + 1
                }),
                None => !stops,
            }
        }),
{
    lemma_run_counts(p, stop_at, facts.drop_last(), num_layers as int);
}

/// An epoch ends in order: a run that was told to stop does so whatever else is asked of it; a restart
/// comes before anything is done about a collapse; and a model grows only where neither came, and not
/// in an epoch in which the best weights were loaded again or growth was suppressed.
pub proof fn law_epoch_ends_in_order(
    p: Progress,
    stop_at: Option<u32>,
    f: EpochFacts,
    num_layers: nat,
    evolves: bool,
)
    ensures
        ({
            let end = end_of(p, stop_at, f, num_layers as int);
            &&& end is Stop <==> is_reached(p.epochs as int, stop_at)
            &&& end is Reload <==> !is_reached(p.epochs as int, stop_at) && f.reload
            &&& end is Judged <==> !is_reached(p.epochs as int, stop_at) && !f.reload
            &&& !(end is Judged) ==> after_end(p, end) == p
            &&& end matches EpochEnd::Judged(v) ==> (v is Rollback || v is Suppressed
                ==> !grows_after(v, evolves))
            &&& end matches EpochEnd::Judged(v) ==> (v is Sound || v is Streak ==> grows_after(
                v,
                evolves,
            ) == evolves)
            &&& end matches EpochEnd::Judged(v) ==> (v is Surgery ==> grows_after(v, evolves)
                && num_layers < f.max_layers)
        }),
{
}

/// The numbers of epochs are kept across restarts: what is written of them is read back.
pub proof fn law_small_files_read_back(n: u32)
    ensures
        number_of_file(Some(decimal(n as nat))) == n,
{
    let t = decimal(n as nat);
    lemma_decimal(n as nat);
    assert(is_digit(t[0]));
    assert(is_digit(t[t.len() - 1]));
    assert(trim_start(t) == t);
    assert(trim_end(t) == t);
}

/// Epochs are counted one by one. The best loss is the lowest that any of them had, it never rises,
/// and the best epoch is one that had it. A loss that is no number is never the best.
pub proof fn law_best_epoch_had_the_lowest_loss(
    p: Progress,
    stop_at: Option<u32>,
    facts: Seq<EpochFacts>,
    num_layers: nat,
)
    requires
        p.epochs + facts.len() <= u32::MAX,
        p.best_epoch <= p.epochs,
        !is_nan(p.best_loss),
    ensures
        ({
            let q = after_run(p, stop_at, facts, num_layers as int);
            &&& q.epochs == p.epochs + facts.len()
            &&& q.best_epoch <= q.epochs
            &&& !is_nan(q.best_loss)
            &&& !is_below(p.best_loss, q.best_loss)
            &&& forall|i: int|
                0 <= i < facts.len() ==> !is_below((#[trigger] facts[i]).avg_loss, q.best_loss)
            &&& q.best_epoch > p.epochs ==> q.best_loss == facts[q.best_epoch - p.epochs
                - 1].avg_loss
            &&& q.best_epoch <= p.epochs ==> q.best_epoch == p.best_epoch && q.best_loss
                == p.best_loss
        }),
    decreases facts.len(),
{
    if facts.len() > 0 {
        let rest = facts.drop_last();
        law_best_epoch_had_the_lowest_loss(p, stop_at, rest, num_layers);
        let r = after_run(p, stop_at, rest, num_layers as int);
        let q = after_run(p, stop_at, facts, num_layers as int);
        assert forall|i: int| 0 <= i < facts.len() implies !is_below(
            (#[trigger] facts[i]).avg_loss,
            q.best_loss,
        ) by {
            if i < rest.len() {
                assert(rest[i] == facts[i]);
                assert(!is_below(rest[i].avg_loss, r.best_loss));
            }
        }
        if r.best_epoch > p.epochs {
            assert(rest[r.best_epoch - p.epochs - 1] == facts[r.best_epoch - p.epochs - 1]);
        }
    }
}

/// Whatever a run was taken up from, its best loss never rises.
pub proof fn law_best_loss_never_rises(
    p: Progress,
    stop_at: Option<u32>,
    facts: Seq<EpochFacts>,
    num_layers: nat,
)
    ensures
        !is_below(p.best_loss, after_run(p, stop_at, facts, num_layers as int).best_loss),
    decreases facts.len(),
{
    if facts.len() > 0 {
        law_best_loss_never_rises(p, stop_at, facts.drop_last(), num_layers);
    }
}

/// Nothing is done about a single collapsed epoch after a sound one, and something is always done
/// about the second in a row. A model never grows past its limit on account of a collapse, and never
/// while going back to the best weights would help.
pub proof fn law_collapse_takes_two_epochs(
    p: Progress,
    avg_loss: u32,
    best_exists: bool,
    best_recorded: u32,
    num_layers: nat,
    max_layers: nat,
)
    requires
        p.wf(),
    ensures
        ({
            let v = verdict_of(
                p,
                avg_loss,
                best_exists,
                best_recorded,
                num_layers as int,
                max_layers as int,
            );
            &&& v is Sound <==> !is_collapsed(avg_loss)
            &&& v is Streak <==> is_collapsed(avg_loss) && p.collapsed == 0
            &&& (v is Rollback || v is Surgery || v is Suppressed) <==> is_collapsed(avg_loss)
                && p.collapsed == 1
            &&& v is Surgery ==> num_layers < max_layers
            &&& (v is Surgery || v is Suppressed) ==> !best_is_usable(best_exists, best_recorded)
            &&& collapsed_after(v) < COLLAPSE_STREAK_LIMIT
        }),
{
}

/// How hard the cold layers are boosted.
#[derive(Clone, Copy, Debug, PartialEq, Eq, Structural)]
pub enum Boost {
    /// Not at all: the gap has been there for long, and boosting does not close it.
    Off,
    /// By how severe the gap is.
    Severe,
    /// A little: there is no gap to speak of.
    Base,
}

/// How hard the cold layers are boosted, for a gap of this severity in the losses.
pub open spec fn boost_of(stale: bool, severity: u32) -> Boost {
    if stale {
        Boost::Off
    } else if is_below(SEVERE_GAP, severity) {
        Boost::Severe
    } else {
        Boost::Base
    }
}

/// How hard the cold layers are boosted.
pub fn boost(stale: bool, severity: u32) -> (r: Boost)
    ensures
        r == boost_of(stale, severity),
{
    if stale {
        Boost::Off
    } else if below(SEVERE_GAP, severity) {
        Boost::Severe
    } else {
        Boost::Base
    }
}

/// A loss is that of a collapsed model exactly where it is 11.0 or more, infinity among them. What is no
/// number is not.
pub proof fn law_collapse_begins_at_eleven(loss: u32)
    ensures
        is_collapsed(loss) <==> 0x4130_0000 <= loss <= 0x7F80_0000,
{
}

/// What comes of an epoch: one below 11.0 is sound; the first at or above it is noted; at the second in a
/// row the model goes back to its best weights, if there are any whose loss lay below 11.0, and else
/// grows, unless it is as deep as it may be.
pub proof fn law_what_comes_of_a_collapse(
    p: Progress,
    avg_loss: u32,
    best_exists: bool,
    best_recorded: u32,
    num_layers: nat,
    max_layers: nat,
)
    requires
        p.collapsed < 2,
    ensures
        ({
            let v = verdict_of(
                p,
                avg_loss,
                best_exists,
                best_recorded,
                num_layers as int,
                max_layers as int,
            );
            let bad = 0x4130_0000 <= avg_loss <= 0x7F80_0000;
            let second = bad && p.collapsed == 1;
            let back = best_exists && !(0x4130_0000 <= best_recorded <= 0x7F80_0000);
            &&& v == Verdict::Sound <==> !bad
            &&& v == Verdict::Streak(1) <==> bad && p.collapsed == 0
            &&& v == Verdict::Rollback(2) <==> second && back
            &&& v == Verdict::Suppressed <==> second && !back && num_layers >= max_layers
            &&& v == Verdict::Surgery <==> second && !back && num_layers < max_layers
        }),
{
}

/// Two collapsed epochs in a row are acted on at the second, and the count starts over; a sound epoch
/// between them starts it over too.
pub proof fn law_collapses_have_to_be_in_a_row(
    p: Progress,
    f: EpochFacts,
    g: EpochFacts,
    num_layers: nat,
)
    requires
        p.collapsed == 0,
        p.epochs + 2 <= u32::MAX,
        !f.reload,
        !g.reload,
        0x4130_0000 <= f.avg_loss <= 0x7F80_0000,
    ensures
        ({
            let n = num_layers as int;
            let once = after_epoch(p, None, f, n);
            let end = end_of(in_epoch(once, g), None, g, n);
            &&& end_of(in_epoch(p, f), None, f, n) == EpochEnd::Judged(Verdict::Streak(1))
            &&& once.collapsed == 1
            &&& after_epoch(once, None, g, n).collapsed == 0
            &&& end == EpochEnd::Judged(Verdict::Sound) <==> !(0x4130_0000 <= g.avg_loss
                <= 0x7F80_0000)
            &&& 0x4130_0000 <= g.avg_loss <= 0x7F80_0000 ==> (end matches EpochEnd::Judged(v) && (
            v is Rollback || v is Surgery || v is Suppressed))
        }),
{
}

/// A run without a recorded best takes any loss below the largest number as its best; one with a record
/// takes what is recorded.
pub proof fn law_first_loss_is_the_best(p: Progress, loss: u32)
    ensures
        loss_of_file(Some(loss)) == loss,
        p.best_loss == loss_of_file(None) && loss < 0x7F7F_FFFF ==> with_loss(p, loss).best_loss
            == loss && with_loss(p, loss).best_epoch == p.epochs,
        with_loss(p, loss).epochs == p.epochs,
        with_loss(p, loss).collapsed == p.collapsed,
{
}

/// A small file may have white space around its number, such as the end of a line; without a file, or
/// with something else in it, the number is zero.
pub proof fn law_small_files_may_have_white_space(n: u32, left: Seq<char>, right: Seq<char>)
    requires
        forall|i: int| 0 <= i < left.len() ==> is_white_space(#[trigger] left[i]),
        forall|i: int| 0 <= i < right.len() ==> is_white_space(#[trigger] right[i]),
    ensures
        number_of_file(Some(left + decimal(n as nat) + right)) == n,
        number_of_file(None) == 0,
        number_of_file(Some(Seq::<char>::empty())) == 0,
{
    let t = decimal(n as nat);
    lemma_decimal(n as nat);
    assert(is_digit(t[0]));
    assert(is_digit(t[t.len() - 1]));
    law_trim_takes_white_space_off(left, t, right);
}

/// A run asks whether the model has learned all that it can exactly where the answer matters.
pub proof fn law_growth_is_asked_where_it_matters(v: Verdict)
    ensures
        is_asked(v) <==> grows_after(v, true) != grows_after(v, false),
        grows_after(v, false) <==> v == Verdict::Surgery,
{
}

/// Cold layers are boosted by the severity of a gap exactly where it is above 0.15, and not at all where
/// the gap has been there for long.
pub proof fn law_severe_gaps_are_boosted(stale: bool, severity: u32)
    ensures
        boost_of(stale, severity) == Boost::Off <==> stale,
        boost_of(stale, severity) == Boost::Severe <==> !stale && 0x3E19_999A < severity <= 0x7F80_0000,
{
}

} // verus!
