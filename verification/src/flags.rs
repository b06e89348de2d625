//! The command line of the trainer.
//!
//! Fractions are held as the bits of their IEEE 754 form, which keeps them exact and lets them be
//! ordered as integers: the caller reads the text behind an argument's `=` as a fraction, and the
//! rules here decide which argument counts.
use crate::fraction::INFINITE;
use crate::numerals::{number_up_to, parse_u32, parse_usize};
use crate::text::{
    after_prefix, chars_of, same_text, starts_with, trim_end_char, without_trailing,
};
use vstd::prelude::*;
use vstd::string::*;

verus! {

/// The bits of 0.03 in double precision.
pub const DEFAULT_LB_WEIGHT: u64 = 0x3F9E_B851_EB85_1EB8;

/// An argument, with what the text behind its first `=` is as a fraction in double and in single
/// precision.
pub struct Arg {
    /// The argument.
    pub text: String,
    /// The bits of the fraction in double precision, where the text is one.
    pub wide: Option<u64>,
    /// The bits of the fraction in single precision, where the text is one.
    pub narrow: Option<u32>,
}

/// What a run is told on the command line.
pub struct TrainFlags {
    /// The weight of the load-balancing loss, as the bits of a double. Zero switches it off.
    pub lb_weight: u64,
    /// Over how many epochs the load-balancing loss comes in.
    pub lb_ramp_epochs: usize,
    /// Rotate and scale the experts' weights at the start.
    pub seed_experts: bool,
    /// Reset the routers and add noise to the experts at the start.
    pub break_symmetry: bool,
    /// A fixed weight of the divergence loss in place of the schedule, as the bits of a double.
    pub div_weight_override: Option<u64>,
    /// The spread of the routers' fixed bias, as the bits of a single.
    pub gate_diversity: u32,
    /// The directory that all paths start from.
    pub root: String,
    /// Split the model into two streams, then stop.
    pub cord_surgery: bool,
    /// Stop after this epoch.
    pub stop_at_epoch: Option<u32>,
    /// Where checkpoints of others are found; empty for the default place.
    pub spores_dir: String,
    /// Batches in an epoch; at least one.
    pub batches_per_epoch: usize,
    /// Rows in a batch; at least one.
    pub batch_size: usize,
    /// Resurrect experts that are routed but starved.
    pub vestigial_rescue: bool,
    /// How many epochs an expert has to starve before it is; at least one.
    pub vestigial_patience: usize,
    /// How far a new router is tilted toward proven experts, as the bits of a single; not negative.
    pub atl_seed_scale: u32,
}

/// The flags, with their texts as sequences.
pub struct FlagsView {
    pub lb_weight: u64,
    pub lb_ramp_epochs: nat,
    pub seed_experts: bool,
    pub break_symmetry: bool,
    pub div_weight_override: Option<u64>,
    pub gate_diversity: u32,
    pub root: Seq<char>,
    pub cord_surgery: bool,
    pub stop_at_epoch: Option<nat>,
    pub spores_dir: Seq<char>,
    pub batches_per_epoch: nat,
    pub batch_size: nat,
    pub vestigial_rescue: bool,
    pub vestigial_patience: nat,
    pub atl_seed_scale: u32,
}

/// `n`, where it is a `u32`, as a `nat`.
pub open spec fn wide_epoch(n: Option<u32>) -> Option<nat> {
    match n {
        Some(e) => Some(e as nat),
        None => None,
    }
}

impl View for TrainFlags {
    type V = FlagsView;

    open spec fn view(&self) -> FlagsView {
        FlagsView {
            lb_weight: self.lb_weight,
            lb_ramp_epochs: self.lb_ramp_epochs as nat,
            seed_experts: self.seed_experts,
            break_symmetry: self.break_symmetry,
            div_weight_override: self.div_weight_override,
            gate_diversity: self.gate_diversity,
            root: self.root@,
            cord_surgery: self.cord_surgery,
            stop_at_epoch: wide_epoch(self.stop_at_epoch),
            spores_dir: self.spores_dir@,
            batches_per_epoch: self.batches_per_epoch as nat,
            batch_size: self.batch_size as nat,
            vestigial_rescue: self.vestigial_rescue,
            vestigial_patience: self.vestigial_patience as nat,
            atl_seed_scale: self.atl_seed_scale,
        }
    }
}

/// The flags of an empty command line.
pub open spec fn default_flags() -> FlagsView {
    FlagsView {
        lb_weight: DEFAULT_LB_WEIGHT,
        lb_ramp_epochs: 5,
        seed_experts: false,
        break_symmetry: false,
        div_weight_override: None,
        gate_diversity: 0,
        root: "."@,
        cord_surgery: false,
        stop_at_epoch: None,
        spores_dir: Seq::empty(),
        batches_per_epoch: 300,
        batch_size: 8,
        vestigial_rescue: true,
        vestigial_patience: 12,
        atl_seed_scale: 0,
    }
}

/// The text behind `p`, where the argument begins with it.
pub open spec fn value_of(text: Seq<char>, p: Seq<char>) -> Seq<char> {
    text.skip(p.len() as int)
}

/// The number behind `p`, as a `usize`.
pub open spec fn usize_value(text: Seq<char>, p: Seq<char>) -> Option<nat> {
    number_up_to(value_of(text, p), usize::MAX as int)
}

/// `n`, or one where it is zero.
pub open spec fn at_least_one(n: nat) -> nat {
    if n == 0 {
        1
    } else {
        n
    }
}

/// The bits of a fraction, or those of zero where it is negative or no number.
pub open spec fn at_least_zero(bits: u32) -> u32 {
    if bits <= INFINITE {
        bits
    } else {
        0
    }
}

/// What an argument makes of the flags. One that is not known, or whose value is no number where
/// it has to be one, changes nothing.
pub open spec fn apply_arg(f: FlagsView, a: Arg) -> FlagsView {
    let t = a.text@;
    if t == "--lb-disable"@ {
        FlagsView { lb_weight: 0, ..f }
    } else if t == "--seed-experts"@ {
        FlagsView { seed_experts: true, ..f }
    } else if t == "--break-symmetry"@ {
        FlagsView { break_symmetry: true, ..f }
    } else if t == "--cord-surgery"@ {
        FlagsView { cord_surgery: true, ..f }
    } else if t == "--vestigial-rescue"@ {
        FlagsView { vestigial_rescue: true, ..f }
    } else if t == "--no-vestigial-rescue"@ {
        FlagsView { vestigial_rescue: false, ..f }
    } else if starts_with(t, "--lb-weight="@) {
        match a.wide {
            Some(w) => FlagsView { lb_weight: w, ..f },
            None => f,
        }
    } else if starts_with(t, "--lb-ramp="@) {
        match usize_value(t, "--lb-ramp="@) {
            Some(n) => FlagsView { lb_ramp_epochs: n, ..f },
            None => f,
        }
    } else if starts_with(t, "--div-weight="@) {
        match a.wide {
            Some(w) => FlagsView { div_weight_override: Some(w), ..f },
            None => f,
        }
    } else if starts_with(t, "--gate-diversity="@) {
        match a.narrow {
            Some(w) => FlagsView { gate_diversity: w, ..f },
            None => f,
        }
    } else if starts_with(t, "--root="@) {
        FlagsView { root: trim_end_char(value_of(t, "--root="@), '/'), ..f }
    } else if starts_with(t, "--stop-at-epoch="@) {
        match number_up_to(value_of(t, "--stop-at-epoch="@), u32::MAX as int) {
            Some(n) => FlagsView { stop_at_epoch: Some(n), ..f },
            None => f,
        }
    } else if starts_with(t, "--spores-dir="@) {
        FlagsView { spores_dir: value_of(t, "--spores-dir="@), ..f }
    } else if starts_with(t, "--batches-per-epoch="@) {
        match usize_value(t, "--batches-per-epoch="@) {
            Some(n) => FlagsView { batches_per_epoch: at_least_one(n), ..f },
            None => f,
        }
    } else if starts_with(t, "--batch-size="@) {
        match usize_value(t, "--batch-size="@) {
            Some(n) => FlagsView { batch_size: at_least_one(n), ..f },
            None => f,
        }
    } else if starts_with(t, "--vestigial-patience="@) {
        match usize_value(t, "--vestigial-patience="@) {
            Some(n) => FlagsView { vestigial_patience: at_least_one(n), ..f },
            None => f,
        }
    } else if starts_with(t, "--atl-seed-scale="@) {
        match a.narrow {
            Some(w) => FlagsView { atl_seed_scale: at_least_zero(w), ..f },
            None => f,
        }
    } else {
        f
    }
}

/// What a command line makes of the flags: its arguments count from left to right.
pub open spec fn flags_of(args: Seq<Arg>) -> FlagsView
    decreases args.len(),
{
    if args.len() == 0 {
        default_flags()
    } else {
        apply_arg(flags_of(args.drop_last()), args.last())
    }
}

/// The number behind `p`, where the argument begins with `p`.
fn usize_after(text: &str, p: &str) -> (r: Option<Option<usize>>)
    ensures
        r is Some <==> starts_with(text@, p@),
        r matches Some(Some(n)) ==> usize_value(text@, p@) == Some(n as nat),
        r matches Some(None) ==> usize_value(text@, p@) is None,
{
    match after_prefix(text, p) {
        Some(v) => Some(parse_usize(&chars_of(v.as_str()))),
        None => None,
    }
}

/// `n`, or one where it is zero.
fn one_or_more(n: usize) -> (r: usize)
    ensures
        r == at_least_one(n as nat),
{
    if n == 0 {
        1
    } else {
        n
    }
}

/// Applies an argument that has a value.
fn apply_valued(flags: &mut TrainFlags, a: &Arg)
    requires
        a.text@ != "--lb-disable"@,
        a.text@ != "--seed-experts"@,
        a.text@ != "--break-symmetry"@,
        a.text@ != "--cord-surgery"@,
        a.text@ != "--vestigial-rescue"@,
        a.text@ != "--no-vestigial-rescue"@,
    ensures
        final(flags)@ == apply_arg(old(flags)@, *a),
{
    let t: &str = a.text.as_str();
    if after_prefix(t, "--lb-weight=").is_some() {
        match a.wide {
            Some(w) => {
                flags.lb_weight = w;
            },
            None => {},
        }
    } else if let Some(v) = usize_after(t, "--lb-ramp=") {
        match v {
            Some(n) => {
                flags.lb_ramp_epochs = n;
            },
            None => {},
        }
    } else if after_prefix(t, "--div-weight=").is_some() {
        match a.wide {
            Some(w) => {
                flags.div_weight_override = Some(w);
            },
            None => {},
        }
    } else if after_prefix(t, "--gate-diversity=").is_some() {
        match a.narrow {
            Some(w) => {
                flags.gate_diversity = w;
            },
            None => {},
        }
    } else if let Some(v) = after_prefix(t, "--root=") {
        flags.root = without_trailing(v.as_str(), '/');
    } else if let Some(v) = after_prefix(t, "--stop-at-epoch=") {
        match parse_u32(&chars_of(v.as_str())) {
            Some(n) => {
                flags.stop_at_epoch = Some(n);
            },
            None => {},
        }
    } else if let Some(v) = after_prefix(t, "--spores-dir=") {
        flags.spores_dir = v;
    } else if let Some(v) = usize_after(t, "--batches-per-epoch=") {
        match v {
            Some(n) => {
                flags.batches_per_epoch = one_or_more(n);
            },
            None => {},
        }
    } else if let Some(v) = usize_after(t, "--batch-size=") {
        match v {
            Some(n) => {
                flags.batch_size = one_or_more(n);
            },
            None => {},
        }
    } else if let Some(v) = usize_after(t, "--vestigial-patience=") {
        match v {
            Some(n) => {
                flags.vestigial_patience = one_or_more(n);
            },
            None => {},
        }
    } else if after_prefix(t, "--atl-seed-scale=").is_some() {
        match a.narrow {
            Some(w) => {
                flags.atl_seed_scale = if w <= INFINITE {
                    w
                } else {
                    0
                };
            },
            None => {},
        }
    }
}

/// Reads a command line, without the name of the program.
pub fn parse_args(args: &Vec<Arg>) -> (r: TrainFlags)
    ensures
        r@ == flags_of(args@),
{
    let mut flags = TrainFlags {
        lb_weight: DEFAULT_LB_WEIGHT,
        lb_ramp_epochs: 5,
        seed_experts: false,
        break_symmetry: false,
        div_weight_override: None,
        gate_diversity: 0,
        root: ".".to_owned(),
        cord_surgery: false,
        stop_at_epoch: None,
        spores_dir: String::new(),
        batches_per_epoch: 300,
        batch_size: 8,
        vestigial_rescue: true,
        vestigial_patience: 12,
        atl_seed_scale: 0,
    };
    let mut i: usize = 0;
    assert(args@.take(0) =~= Seq::<Arg>::empty());
    while i < args.len()
        invariant
            i <= args.len(),
            flags@ == flags_of(args@.take(i as int)),
        decreases args.len() - i,
    {
        proof {
            assert(args@.take(i + 1).drop_last() =~= args@.take(i as int));
            assert(args@.take(i + 1).last() == args@[i as int]);
        }
        let t: &str = args[i].text.as_str();
        if same_text(t, "--lb-disable") {
            flags.lb_weight = 0;
        } else if same_text(t, "--seed-experts") {
            flags.seed_experts = true;
        } else if same_text(t, "--break-symmetry") {
            flags.break_symmetry = true;
        } else if same_text(t, "--cord-surgery") {
            flags.cord_surgery = true;
        } else if same_text(t, "--vestigial-rescue") {
            flags.vestigial_rescue = true;
        } else if same_text(t, "--no-vestigial-rescue") {
            flags.vestigial_rescue = false;
        } else {
            apply_valued(&mut flags, &args[i]);
        }
        i = i + 1;
    }
    assert(args@.take(i as int) =~= args@);
    flags
}

/// Whatever the command line, a run has batches and rows, waits at least one epoch before a rescue,
/// never tilts a router away from proven experts, and its root ends in no slash.
pub proof fn law_flags_are_sane(args: Seq<Arg>)
    ensures
        flags_of(args).batches_per_epoch >= 1,
        flags_of(args).batch_size >= 1,
        flags_of(args).vestigial_patience >= 1,
        flags_of(args).atl_seed_scale <= INFINITE,
        flags_of(args).root.len() > 0 ==> flags_of(args).root.last() != '/',
    decreases args.len(),
{
    reveal_strlit(".");
    if args.len() > 0 {
        law_flags_are_sane(args.drop_last());
        lemma_trimmed(value_of(args.last().text@, "--root="@), '/');
    }
}

/// A text without its trailing `c`s does not end in one.
proof fn lemma_trimmed(s: Seq<char>, c: char)
    ensures
        trim_end_char(s, c).len() > 0 ==> trim_end_char(s, c).last() != c,
    decreases s.len(),
{
    if s.len() > 0 && s.last() == c {
        lemma_trimmed(s.drop_last(), c);
    }
}

/// The argument is none that is known, or one whose value cannot be read.
pub open spec fn is_idle(a: Arg) -> bool {
    let t = a.text@;
    &&& t != "--lb-disable"@
    &&& t != "--seed-experts"@
    &&& t != "--break-symmetry"@
    &&& t != "--cord-surgery"@
    &&& t != "--vestigial-rescue"@
    &&& t != "--no-vestigial-rescue"@
    &&& !starts_with(t, "--root="@)
    &&& !starts_with(t, "--spores-dir="@)
    &&& starts_with(t, "--lb-weight="@) ==> a.wide is None
    &&& starts_with(t, "--div-weight="@) ==> a.wide is None
    &&& starts_with(t, "--gate-diversity="@) ==> a.narrow is None
    &&& starts_with(t, "--atl-seed-scale="@) ==> a.narrow is None
    &&& starts_with(t, "--stop-at-epoch="@) ==> number_up_to(
        value_of(t, "--stop-at-epoch="@),
        u32::MAX as int,
    ) is None
    &&& starts_with(t, "--lb-ramp="@) ==> usize_value(t, "--lb-ramp="@) is None
    &&& starts_with(t, "--batches-per-epoch="@) ==> usize_value(t, "--batches-per-epoch="@) is None
    &&& starts_with(t, "--batch-size="@) ==> usize_value(t, "--batch-size="@) is None
    &&& starts_with(t, "--vestigial-patience="@) ==> usize_value(t, "--vestigial-patience="@) is None
}

/// An argument that is not known, or whose value cannot be read, changes nothing, wherever it stands.
pub proof fn law_other_arguments_are_ignored(args: Seq<Arg>, a: Arg, i: int)
    requires
        is_idle(a),
        0 <= i <= args.len(),
    ensures
        flags_of(args.insert(i, a)) == flags_of(args),
    decreases args.len(),
{
    let with = args.insert(i, a);
    if i == args.len() {
        assert(with.drop_last() =~= args);
        assert(with.last() == a);
    } else {
        assert(with.last() == args.last());
        assert(with.drop_last() =~= args.drop_last().insert(i, a));
        law_other_arguments_are_ignored(args.drop_last(), a, i);
    }
}

} // verus!
