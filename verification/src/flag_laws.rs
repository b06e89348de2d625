//! What each argument of the command line does, whatever stands before it.
use crate::flags::{apply_arg, flags_of, Arg, FlagsView};
use crate::numerals::{decimal, lemma_decimal};
use crate::text::{lemma_starts_with, starts_with, trim_end_char};
use vstd::prelude::*;

verus! {

/// The last argument counts last.
proof fn lemma_last_argument(args: Seq<Arg>, a: Arg)
    ensures
        flags_of(args.push(a)) == apply_arg(flags_of(args), a),
{
    assert(args.push(a).drop_last() =~= args);
    assert(args.push(a).last() == a);
}

/// A text that begins with `p` neither is nor begins with `q`, which differs from `p` somewhere.
proof fn lemma_other_option(t: Seq<char>, p: Seq<char>, q: Seq<char>, k: int)
    requires
        starts_with(t, p),
        0 <= k < p.len(),
        k < q.len(),
        p[k] != q[k],
    ensures
        !starts_with(t, q),
        t != q,
{
    assert(t.subrange(0, p.len() as int)[k] == t[k]);
    if starts_with(t, q) {
        assert(t.subrange(0, q.len() as int)[k] == t[k]);
    }
}

/// An argument that begins with `--lb-weight=` is no other.
proof fn lemma_is_lb_weight(t: Seq<char>)
    requires
        starts_with(t, "--lb-weight="@),
    ensures
        !starts_with(t, "--lb-ramp="@),
        !starts_with(t, "--div-weight="@),
        !starts_with(t, "--gate-diversity="@),
        !starts_with(t, "--root="@),
        !starts_with(t, "--stop-at-epoch="@),
        !starts_with(t, "--spores-dir="@),
        !starts_with(t, "--batches-per-epoch="@),
        !starts_with(t, "--batch-size="@),
        !starts_with(t, "--vestigial-patience="@),
        !starts_with(t, "--atl-seed-scale="@),
        t != "--lb-disable"@,
        t != "--seed-experts"@,
        t != "--break-symmetry"@,
        t != "--cord-surgery"@,
        t != "--vestigial-rescue"@,
        t != "--no-vestigial-rescue"@,
{
    reveal_strlit("--lb-weight=");
    reveal_strlit("--lb-ramp=");
    reveal_strlit("--div-weight=");
    reveal_strlit("--gate-diversity=");
    reveal_strlit("--root=");
    reveal_strlit("--stop-at-epoch=");
    reveal_strlit("--spores-dir=");
    reveal_strlit("--batches-per-epoch=");
    reveal_strlit("--batch-size=");
    reveal_strlit("--vestigial-patience=");
    reveal_strlit("--atl-seed-scale=");
    reveal_strlit("--lb-disable");
    reveal_strlit("--seed-experts");
    reveal_strlit("--break-symmetry");
    reveal_strlit("--cord-surgery");
    reveal_strlit("--vestigial-rescue");
    reveal_strlit("--no-vestigial-rescue");
    lemma_other_option(t, "--lb-weight="@, "--lb-ramp="@, 5);
    lemma_other_option(t, "--lb-weight="@, "--div-weight="@, 2);
    lemma_other_option(t, "--lb-weight="@, "--gate-diversity="@, 2);
    lemma_other_option(t, "--lb-weight="@, "--root="@, 2);
    lemma_other_option(t, "--lb-weight="@, "--stop-at-epoch="@, 2);
    lemma_other_option(t, "--lb-weight="@, "--spores-dir="@, 2);
    lemma_other_option(t, "--lb-weight="@, "--batches-per-epoch="@, 2);
    lemma_other_option(t, "--lb-weight="@, "--batch-size="@, 2);
    lemma_other_option(t, "--lb-weight="@, "--vestigial-patience="@, 2);
    lemma_other_option(t, "--lb-weight="@, "--atl-seed-scale="@, 2);
    lemma_other_option(t, "--lb-weight="@, "--lb-disable"@, 5);
    lemma_other_option(t, "--lb-weight="@, "--seed-experts"@, 2);
    lemma_other_option(t, "--lb-weight="@, "--break-symmetry"@, 2);
    lemma_other_option(t, "--lb-weight="@, "--cord-surgery"@, 2);
    lemma_other_option(t, "--lb-weight="@, "--vestigial-rescue"@, 2);
    lemma_other_option(t, "--lb-weight="@, "--no-vestigial-rescue"@, 2);
}

/// An argument that begins with `--lb-ramp=` is no other.
proof fn lemma_is_lb_ramp(t: Seq<char>)
    requires
        starts_with(t, "--lb-ramp="@),
    ensures
        !starts_with(t, "--lb-weight="@),
        !starts_with(t, "--div-weight="@),
        !starts_with(t, "--gate-diversity="@),
        !starts_with(t, "--root="@),
        !starts_with(t, "--stop-at-epoch="@),
        !starts_with(t, "--spores-dir="@),
        !starts_with(t, "--batches-per-epoch="@),
        !starts_with(t, "--batch-size="@),
        !starts_with(t, "--vestigial-patience="@),
        !starts_with(t, "--atl-seed-scale="@),
        t != "--lb-disable"@,
        t != "--seed-experts"@,
        t != "--break-symmetry"@,
        t != "--cord-surgery"@,
        t != "--vestigial-rescue"@,
        t != "--no-vestigial-rescue"@,
{
    reveal_strlit("--lb-ramp=");
    reveal_strlit("--lb-weight=");
    reveal_strlit("--div-weight=");
    reveal_strlit("--gate-diversity=");
    reveal_strlit("--root=");
    reveal_strlit("--stop-at-epoch=");
    reveal_strlit("--spores-dir=");
    reveal_strlit("--batches-per-epoch=");
    reveal_strlit("--batch-size=");
    reveal_strlit("--vestigial-patience=");
    reveal_strlit("--atl-seed-scale=");
    reveal_strlit("--lb-disable");
    reveal_strlit("--seed-experts");
    reveal_strlit("--break-symmetry");
    reveal_strlit("--cord-surgery");
    reveal_strlit("--vestigial-rescue");
    reveal_strlit("--no-vestigial-rescue");
    lemma_other_option(t, "--lb-ramp="@, "--lb-weight="@, 5);
    lemma_other_option(t, "--lb-ramp="@, "--div-weight="@, 2);
    lemma_other_option(t, "--lb-ramp="@, "--gate-diversity="@, 2);
    lemma_other_option(t, "--lb-ramp="@, "--root="@, 2);
    lemma_other_option(t, "--lb-ramp="@, "--stop-at-epoch="@, 2);
    lemma_other_option(t, "--lb-ramp="@, "--spores-dir="@, 2);
    lemma_other_option(t, "--lb-ramp="@, "--batches-per-epoch="@, 2);
    lemma_other_option(t, "--lb-ramp="@, "--batch-size="@, 2);
    lemma_other_option(t, "--lb-ramp="@, "--vestigial-patience="@, 2);
    lemma_other_option(t, "--lb-ramp="@, "--atl-seed-scale="@, 2);
    lemma_other_option(t, "--lb-ramp="@, "--lb-disable"@, 5);
    lemma_other_option(t, "--lb-ramp="@, "--seed-experts"@, 2);
    lemma_other_option(t, "--lb-ramp="@, "--break-symmetry"@, 2);
    lemma_other_option(t, "--lb-ramp="@, "--cord-surgery"@, 2);
    lemma_other_option(t, "--lb-ramp="@, "--vestigial-rescue"@, 2);
    lemma_other_option(t, "--lb-ramp="@, "--no-vestigial-rescue"@, 2);
}

/// An argument that begins with `--div-weight=` is no other.
proof fn lemma_is_div_weight(t: Seq<char>)
    requires
        starts_with(t, "--div-weight="@),
    ensures
        !starts_with(t, "--lb-weight="@),
        !starts_with(t, "--lb-ramp="@),
        !starts_with(t, "--gate-diversity="@),
        !starts_with(t, "--root="@),
        !starts_with(t, "--stop-at-epoch="@),
        !starts_with(t, "--spores-dir="@),
        !starts_with(t, "--batches-per-epoch="@),
        !starts_with(t, "--batch-size="@),
        !starts_with(t, "--vestigial-patience="@),
        !starts_with(t, "--atl-seed-scale="@),
        t != "--lb-disable"@,
        t != "--seed-experts"@,
        t != "--break-symmetry"@,
        t != "--cord-surgery"@,
        t != "--vestigial-rescue"@,
        t != "--no-vestigial-rescue"@,
{
    reveal_strlit("--div-weight=");
    reveal_strlit("--lb-weight=");
    reveal_strlit("--lb-ramp=");
    reveal_strlit("--gate-diversity=");
    reveal_strlit("--root=");
    reveal_strlit("--stop-at-epoch=");
    reveal_strlit("--spores-dir=");
    reveal_strlit("--batches-per-epoch=");
    reveal_strlit("--batch-size=");
    reveal_strlit("--vestigial-patience=");
    reveal_strlit("--atl-seed-scale=");
    reveal_strlit("--lb-disable");
    reveal_strlit("--seed-experts");
    reveal_strlit("--break-symmetry");
    reveal_strlit("--cord-surgery");
    reveal_strlit("--vestigial-rescue");
    reveal_strlit("--no-vestigial-rescue");
    lemma_other_option(t, "--div-weight="@, "--lb-weight="@, 2);
    lemma_other_option(t, "--div-weight="@, "--lb-ramp="@, 2);
    lemma_other_option(t, "--div-weight="@, "--gate-diversity="@, 2);
    lemma_other_option(t, "--div-weight="@, "--root="@, 2);
    lemma_other_option(t, "--div-weight="@, "--stop-at-epoch="@, 2);
    lemma_other_option(t, "--div-weight="@, "--spores-dir="@, 2);
    lemma_other_option(t, "--div-weight="@, "--batches-per-epoch="@, 2);
    lemma_other_option(t, "--div-weight="@, "--batch-size="@, 2);
    lemma_other_option(t, "--div-weight="@, "--vestigial-patience="@, 2);
    lemma_other_option(t, "--div-weight="@, "--atl-seed-scale="@, 2);
    lemma_other_option(t, "--div-weight="@, "--lb-disable"@, 2);
    lemma_other_option(t, "--div-weight="@, "--seed-experts"@, 2);
    lemma_other_option(t, "--div-weight="@, "--break-symmetry"@, 2);
    lemma_other_option(t, "--div-weight="@, "--cord-surgery"@, 2);
    lemma_other_option(t, "--div-weight="@, "--vestigial-rescue"@, 2);
    lemma_other_option(t, "--div-weight="@, "--no-vestigial-rescue"@, 2);
}

/// An argument that begins with `--gate-diversity=` is no other.
proof fn lemma_is_gate_diversity(t: Seq<char>)
    requires
        starts_with(t, "--gate-diversity="@),
    ensures
        !starts_with(t, "--lb-weight="@),
        !starts_with(t, "--lb-ramp="@),
        !starts_with(t, "--div-weight="@),
        !starts_with(t, "--root="@),
        !starts_with(t, "--stop-at-epoch="@),
        !starts_with(t, "--spores-dir="@),
        !starts_with(t, "--batches-per-epoch="@),
        !starts_with(t, "--batch-size="@),
        !starts_with(t, "--vestigial-patience="@),
        !starts_with(t, "--atl-seed-scale="@),
        t != "--lb-disable"@,
        t != "--seed-experts"@,
        t != "--break-symmetry"@,
        t != "--cord-surgery"@,
        t != "--vestigial-rescue"@,
        t != "--no-vestigial-rescue"@,
{
    reveal_strlit("--gate-diversity=");
    reveal_strlit("--lb-weight=");
    reveal_strlit("--lb-ramp=");
    reveal_strlit("--div-weight=");
    reveal_strlit("--root=");
    reveal_strlit("--stop-at-epoch=");
    reveal_strlit("--spores-dir=");
    reveal_strlit("--batches-per-epoch=");
    reveal_strlit("--batch-size=");
    reveal_strlit("--vestigial-patience=");
    reveal_strlit("--atl-seed-scale=");
    reveal_strlit("--lb-disable");
    reveal_strlit("--seed-experts");
    reveal_strlit("--break-symmetry");
    reveal_strlit("--cord-surgery");
    reveal_strlit("--vestigial-rescue");
    reveal_strlit("--no-vestigial-rescue");
    lemma_other_option(t, "--gate-diversity="@, "--lb-weight="@, 2);
    lemma_other_option(t, "--gate-diversity="@, "--lb-ramp="@, 2);
    lemma_other_option(t, "--gate-diversity="@, "--div-weight="@, 2);
    lemma_other_option(t, "--gate-diversity="@, "--root="@, 2);
    lemma_other_option(t, "--gate-diversity="@, "--stop-at-epoch="@, 2);
    lemma_other_option(t, "--gate-diversity="@, "--spores-dir="@, 2);
    lemma_other_option(t, "--gate-diversity="@, "--batches-per-epoch="@, 2);
    lemma_other_option(t, "--gate-diversity="@, "--batch-size="@, 2);
    lemma_other_option(t, "--gate-diversity="@, "--vestigial-patience="@, 2);
    lemma_other_option(t, "--gate-diversity="@, "--atl-seed-scale="@, 2);
    lemma_other_option(t, "--gate-diversity="@, "--lb-disable"@, 2);
    lemma_other_option(t, "--gate-diversity="@, "--seed-experts"@, 2);
    lemma_other_option(t, "--gate-diversity="@, "--break-symmetry"@, 2);
    lemma_other_option(t, "--gate-diversity="@, "--cord-surgery"@, 2);
    lemma_other_option(t, "--gate-diversity="@, "--vestigial-rescue"@, 2);
    lemma_other_option(t, "--gate-diversity="@, "--no-vestigial-rescue"@, 2);
}

/// An argument that begins with `--root=` is no other.
proof fn lemma_is_root(t: Seq<char>)
    requires
        starts_with(t, "--root="@),
    ensures
        !starts_with(t, "--lb-weight="@),
        !starts_with(t, "--lb-ramp="@),
        !starts_with(t, "--div-weight="@),
        !starts_with(t, "--gate-diversity="@),
        !starts_with(t, "--stop-at-epoch="@),
        !starts_with(t, "--spores-dir="@),
        !starts_with(t, "--batches-per-epoch="@),
        !starts_with(t, "--batch-size="@),
        !starts_with(t, "--vestigial-patience="@),
        !starts_with(t, "--atl-seed-scale="@),
        t != "--lb-disable"@,
        t != "--seed-experts"@,
        t != "--break-symmetry"@,
        t != "--cord-surgery"@,
        t != "--vestigial-rescue"@,
        t != "--no-vestigial-rescue"@,
{
    reveal_strlit("--root=");
    reveal_strlit("--lb-weight=");
    reveal_strlit("--lb-ramp=");
    reveal_strlit("--div-weight=");
    reveal_strlit("--gate-diversity=");
    reveal_strlit("--stop-at-epoch=");
    reveal_strlit("--spores-dir=");
    reveal_strlit("--batches-per-epoch=");
    reveal_strlit("--batch-size=");
    reveal_strlit("--vestigial-patience=");
    reveal_strlit("--atl-seed-scale=");
    reveal_strlit("--lb-disable");
    reveal_strlit("--seed-experts");
    reveal_strlit("--break-symmetry");
    reveal_strlit("--cord-surgery");
    reveal_strlit("--vestigial-rescue");
    reveal_strlit("--no-vestigial-rescue");
    lemma_other_option(t, "--root="@, "--lb-weight="@, 2);
    lemma_other_option(t, "--root="@, "--lb-ramp="@, 2);
    lemma_other_option(t, "--root="@, "--div-weight="@, 2);
    lemma_other_option(t, "--root="@, "--gate-diversity="@, 2);
    lemma_other_option(t, "--root="@, "--stop-at-epoch="@, 2);
    lemma_other_option(t, "--root="@, "--spores-dir="@, 2);
    lemma_other_option(t, "--root="@, "--batches-per-epoch="@, 2);
    lemma_other_option(t, "--root="@, "--batch-size="@, 2);
    lemma_other_option(t, "--root="@, "--vestigial-patience="@, 2);
    lemma_other_option(t, "--root="@, "--atl-seed-scale="@, 2);
    lemma_other_option(t, "--root="@, "--lb-disable"@, 2);
    lemma_other_option(t, "--root="@, "--seed-experts"@, 2);
    lemma_other_option(t, "--root="@, "--break-symmetry"@, 2);
    lemma_other_option(t, "--root="@, "--cord-surgery"@, 2);
    lemma_other_option(t, "--root="@, "--vestigial-rescue"@, 2);
    lemma_other_option(t, "--root="@, "--no-vestigial-rescue"@, 2);
}

/// An argument that begins with `--stop-at-epoch=` is no other.
proof fn lemma_is_stop_at_epoch(t: Seq<char>)
    requires
        starts_with(t, "--stop-at-epoch="@),
    ensures
        !starts_with(t, "--lb-weight="@),
        !starts_with(t, "--lb-ramp="@),
        !starts_with(t, "--div-weight="@),
        !starts_with(t, "--gate-diversity="@),
        !starts_with(t, "--root="@),
        !starts_with(t, "--spores-dir="@),
        !starts_with(t, "--batches-per-epoch="@),
        !starts_with(t, "--batch-size="@),
        !starts_with(t, "--vestigial-patience="@),
        !starts_with(t, "--atl-seed-scale="@),
        t != "--lb-disable"@,
        t != "--seed-experts"@,
        t != "--break-symmetry"@,
        t != "--cord-surgery"@,
        t != "--vestigial-rescue"@,
        t != "--no-vestigial-rescue"@,
{
    reveal_strlit("--stop-at-epoch=");
    reveal_strlit("--lb-weight=");
    reveal_strlit("--lb-ramp=");
    reveal_strlit("--div-weight=");
    reveal_strlit("--gate-diversity=");
    reveal_strlit("--root=");
    reveal_strlit("--spores-dir=");
    reveal_strlit("--batches-per-epoch=");
    reveal_strlit("--batch-size=");
    reveal_strlit("--vestigial-patience=");
    reveal_strlit("--atl-seed-scale=");
    reveal_strlit("--lb-disable");
    reveal_strlit("--seed-experts");
    reveal_strlit("--break-symmetry");
    reveal_strlit("--cord-surgery");
    reveal_strlit("--vestigial-rescue");
    reveal_strlit("--no-vestigial-rescue");
    lemma_other_option(t, "--stop-at-epoch="@, "--lb-weight="@, 2);
    lemma_other_option(t, "--stop-at-epoch="@, "--lb-ramp="@, 2);
    lemma_other_option(t, "--stop-at-epoch="@, "--div-weight="@, 2);
    lemma_other_option(t, "--stop-at-epoch="@, "--gate-diversity="@, 2);
    lemma_other_option(t, "--stop-at-epoch="@, "--root="@, 2);
    lemma_other_option(t, "--stop-at-epoch="@, "--spores-dir="@, 3);
    lemma_other_option(t, "--stop-at-epoch="@, "--batches-per-epoch="@, 2);
    lemma_other_option(t, "--stop-at-epoch="@, "--batch-size="@, 2);
    lemma_other_option(t, "--stop-at-epoch="@, "--vestigial-patience="@, 2);
    lemma_other_option(t, "--stop-at-epoch="@, "--atl-seed-scale="@, 2);
    lemma_other_option(t, "--stop-at-epoch="@, "--lb-disable"@, 2);
    lemma_other_option(t, "--stop-at-epoch="@, "--seed-experts"@, 3);
    lemma_other_option(t, "--stop-at-epoch="@, "--break-symmetry"@, 2);
    lemma_other_option(t, "--stop-at-epoch="@, "--cord-surgery"@, 2);
    lemma_other_option(t, "--stop-at-epoch="@, "--vestigial-rescue"@, 2);
    lemma_other_option(t, "--stop-at-epoch="@, "--no-vestigial-rescue"@, 2);
}

/// An argument that begins with `--spores-dir=` is no other.
proof fn lemma_is_spores_dir(t: Seq<char>)
    requires
        starts_with(t, "--spores-dir="@),
    ensures
        !starts_with(t, "--lb-weight="@),
        !starts_with(t, "--lb-ramp="@),
        !starts_with(t, "--div-weight="@),
        !starts_with(t, "--gate-diversity="@),
        !starts_with(t, "--root="@),
        !starts_with(t, "--stop-at-epoch="@),
        !starts_with(t, "--batches-per-epoch="@),
        !starts_with(t, "--batch-size="@),
        !starts_with(t, "--vestigial-patience="@),
        !starts_with(t, "--atl-seed-scale="@),
        t != "--lb-disable"@,
        t != "--seed-experts"@,
        t != "--break-symmetry"@,
        t != "--cord-surgery"@,
        t != "--vestigial-rescue"@,
        t != "--no-vestigial-rescue"@,
{
    reveal_strlit("--spores-dir=");
    reveal_strlit("--lb-weight=");
    reveal_strlit("--lb-ramp=");
    reveal_strlit("--div-weight=");
    reveal_strlit("--gate-diversity=");
    reveal_strlit("--root=");
    reveal_strlit("--stop-at-epoch=");
    reveal_strlit("--batches-per-epoch=");
    reveal_strlit("--batch-size=");
    reveal_strlit("--vestigial-patience=");
    reveal_strlit("--atl-seed-scale=");
    reveal_strlit("--lb-disable");
    reveal_strlit("--seed-experts");
    reveal_strlit("--break-symmetry");
    reveal_strlit("--cord-surgery");
    reveal_strlit("--vestigial-rescue");
    reveal_strlit("--no-vestigial-rescue");
    lemma_other_option(t, "--spores-dir="@, "--lb-weight="@, 2);
    lemma_other_option(t, "--spores-dir="@, "--lb-ramp="@, 2);
    lemma_other_option(t, "--spores-dir="@, "--div-weight="@, 2);
    lemma_other_option(t, "--spores-dir="@, "--gate-diversity="@, 2);
    lemma_other_option(t, "--spores-dir="@, "--root="@, 2);
    lemma_other_option(t, "--spores-dir="@, "--stop-at-epoch="@, 3);
    lemma_other_option(t, "--spores-dir="@, "--batches-per-epoch="@, 2);
    lemma_other_option(t, "--spores-dir="@, "--batch-size="@, 2);
    lemma_other_option(t, "--spores-dir="@, "--vestigial-patience="@, 2);
    lemma_other_option(t, "--spores-dir="@, "--atl-seed-scale="@, 2);
    lemma_other_option(t, "--spores-dir="@, "--lb-disable"@, 2);
    lemma_other_option(t, "--spores-dir="@, "--seed-experts"@, 3);
    lemma_other_option(t, "--spores-dir="@, "--break-symmetry"@, 2);
    lemma_other_option(t, "--spores-dir="@, "--cord-surgery"@, 2);
    lemma_other_option(t, "--spores-dir="@, "--vestigial-rescue"@, 2);
    lemma_other_option(t, "--spores-dir="@, "--no-vestigial-rescue"@, 2);
}

/// An argument that begins with `--batches-per-epoch=` is no other.
proof fn lemma_is_batches_per_epoch(t: Seq<char>)
    requires
        starts_with(t, "--batches-per-epoch="@),
    ensures
        !starts_with(t, "--lb-weight="@),
        !starts_with(t, "--lb-ramp="@),
        !starts_with(t, "--div-weight="@),
        !starts_with(t, "--gate-diversity="@),
        !starts_with(t, "--root="@),
        !starts_with(t, "--stop-at-epoch="@),
        !starts_with(t, "--spores-dir="@),
        !starts_with(t, "--batch-size="@),
        !starts_with(t, "--vestigial-patience="@),
        !starts_with(t, "--atl-seed-scale="@),
        t != "--lb-disable"@,
        t != "--seed-experts"@,
        t != "--break-symmetry"@,
        t != "--cord-surgery"@,
        t != "--vestigial-rescue"@,
        t != "--no-vestigial-rescue"@,
{
    reveal_strlit("--batches-per-epoch=");
    reveal_strlit("--lb-weight=");
    reveal_strlit("--lb-ramp=");
    reveal_strlit("--div-weight=");
    reveal_strlit("--gate-diversity=");
    reveal_strlit("--root=");
    reveal_strlit("--stop-at-epoch=");
    reveal_strlit("--spores-dir=");
    reveal_strlit("--batch-size=");
    reveal_strlit("--vestigial-patience=");
    reveal_strlit("--atl-seed-scale=");
    reveal_strlit("--lb-disable");
    reveal_strlit("--seed-experts");
    reveal_strlit("--break-symmetry");
    reveal_strlit("--cord-surgery");
    reveal_strlit("--vestigial-rescue");
    reveal_strlit("--no-vestigial-rescue");
    lemma_other_option(t, "--batches-per-epoch="@, "--lb-weight="@, 2);
    lemma_other_option(t, "--batches-per-epoch="@, "--lb-ramp="@, 2);
    lemma_other_option(t, "--batches-per-epoch="@, "--div-weight="@, 2);
    lemma_other_option(t, "--batches-per-epoch="@, "--gate-diversity="@, 2);
    lemma_other_option(t, "--batches-per-epoch="@, "--root="@, 2);
    lemma_other_option(t, "--batches-per-epoch="@, "--stop-at-epoch="@, 2);
    lemma_other_option(t, "--batches-per-epoch="@, "--spores-dir="@, 2);
    lemma_other_option(t, "--batches-per-epoch="@, "--batch-size="@, 7);
    lemma_other_option(t, "--batches-per-epoch="@, "--vestigial-patience="@, 2);
    lemma_other_option(t, "--batches-per-epoch="@, "--atl-seed-scale="@, 2);
    lemma_other_option(t, "--batches-per-epoch="@, "--lb-disable"@, 2);
    lemma_other_option(t, "--batches-per-epoch="@, "--seed-experts"@, 2);
    lemma_other_option(t, "--batches-per-epoch="@, "--break-symmetry"@, 3);
    lemma_other_option(t, "--batches-per-epoch="@, "--cord-surgery"@, 2);
    lemma_other_option(t, "--batches-per-epoch="@, "--vestigial-rescue"@, 2);
    lemma_other_option(t, "--batches-per-epoch="@, "--no-vestigial-rescue"@, 2);
}

/// An argument that begins with `--batch-size=` is no other.
proof fn lemma_is_batch_size(t: Seq<char>)
    requires
        starts_with(t, "--batch-size="@),
    ensures
        !starts_with(t, "--lb-weight="@),
        !starts_with(t, "--lb-ramp="@),
        !starts_with(t, "--div-weight="@),
        !starts_with(t, "--gate-diversity="@),
        !starts_with(t, "--root="@),
        !starts_with(t, "--stop-at-epoch="@),
        !starts_with(t, "--spores-dir="@),
        !starts_with(t, "--batches-per-epoch="@),
        !starts_with(t, "--vestigial-patience="@),
        !starts_with(t, "--atl-seed-scale="@),
        t != "--lb-disable"@,
        t != "--seed-experts"@,
        t != "--break-symmetry"@,
        t != "--cord-surgery"@,
        t != "--vestigial-rescue"@,
        t != "--no-vestigial-rescue"@,
{
    reveal_strlit("--batch-size=");
    reveal_strlit("--lb-weight=");
    reveal_strlit("--lb-ramp=");
    reveal_strlit("--div-weight=");
    reveal_strlit("--gate-diversity=");
    reveal_strlit("--root=");
    reveal_strlit("--stop-at-epoch=");
    reveal_strlit("--spores-dir=");
    reveal_strlit("--batches-per-epoch=");
    reveal_strlit("--vestigial-patience=");
    reveal_strlit("--atl-seed-scale=");
    reveal_strlit("--lb-disable");
    reveal_strlit("--seed-experts");
    reveal_strlit("--break-symmetry");
    reveal_strlit("--cord-surgery");
    reveal_strlit("--vestigial-rescue");
    reveal_strlit("--no-vestigial-rescue");
    lemma_other_option(t, "--batch-size="@, "--lb-weight="@, 2);
    lemma_other_option(t, "--batch-size="@, "--lb-ramp="@, 2);
    lemma_other_option(t, "--batch-size="@, "--div-weight="@, 2);
    lemma_other_option(t, "--batch-size="@, "--gate-diversity="@, 2);
    lemma_other_option(t, "--batch-size="@, "--root="@, 2);
    lemma_other_option(t, "--batch-size="@, "--stop-at-epoch="@, 2);
    lemma_other_option(t, "--batch-size="@, "--spores-dir="@, 2);
    lemma_other_option(t, "--batch-size="@, "--batches-per-epoch="@, 7);
    lemma_other_option(t, "--batch-size="@, "--vestigial-patience="@, 2);
    lemma_other_option(t, "--batch-size="@, "--atl-seed-scale="@, 2);
    lemma_other_option(t, "--batch-size="@, "--lb-disable"@, 2);
    lemma_other_option(t, "--batch-size="@, "--seed-experts"@, 2);
    lemma_other_option(t, "--batch-size="@, "--break-symmetry"@, 3);
    lemma_other_option(t, "--batch-size="@, "--cord-surgery"@, 2);
    lemma_other_option(t, "--batch-size="@, "--vestigial-rescue"@, 2);
    lemma_other_option(t, "--batch-size="@, "--no-vestigial-rescue"@, 2);
}

/// An argument that begins with `--vestigial-patience=` is no other.
proof fn lemma_is_vestigial_patience(t: Seq<char>)
    requires
        starts_with(t, "--vestigial-patience="@),
    ensures
        !starts_with(t, "--lb-weight="@),
        !starts_with(t, "--lb-ramp="@),
        !starts_with(t, "--div-weight="@),
        !starts_with(t, "--gate-diversity="@),
        !starts_with(t, "--root="@),
        !starts_with(t, "--stop-at-epoch="@),
        !starts_with(t, "--spores-dir="@),
        !starts_with(t, "--batches-per-epoch="@),
        !starts_with(t, "--batch-size="@),
        !starts_with(t, "--atl-seed-scale="@),
        t != "--lb-disable"@,
        t != "--seed-experts"@,
        t != "--break-symmetry"@,
        t != "--cord-surgery"@,
        t != "--vestigial-rescue"@,
        t != "--no-vestigial-rescue"@,
{
    reveal_strlit("--vestigial-patience=");
    reveal_strlit("--lb-weight=");
    reveal_strlit("--lb-ramp=");
    reveal_strlit("--div-weight=");
    reveal_strlit("--gate-diversity=");
    reveal_strlit("--root=");
    reveal_strlit("--stop-at-epoch=");
    reveal_strlit("--spores-dir=");
    reveal_strlit("--batches-per-epoch=");
    reveal_strlit("--batch-size=");
    reveal_strlit("--atl-seed-scale=");
    reveal_strlit("--lb-disable");
    reveal_strlit("--seed-experts");
    reveal_strlit("--break-symmetry");
    reveal_strlit("--cord-surgery");
    reveal_strlit("--vestigial-rescue");
    reveal_strlit("--no-vestigial-rescue");
    lemma_other_option(t, "--vestigial-patience="@, "--lb-weight="@, 2);
    lemma_other_option(t, "--vestigial-patience="@, "--lb-ramp="@, 2);
    lemma_other_option(t, "--vestigial-patience="@, "--div-weight="@, 2);
    lemma_other_option(t, "--vestigial-patience="@, "--gate-diversity="@, 2);
    lemma_other_option(t, "--vestigial-patience="@, "--root="@, 2);
    lemma_other_option(t, "--vestigial-patience="@, "--stop-at-epoch="@, 2);
    lemma_other_option(t, "--vestigial-patience="@, "--spores-dir="@, 2);
    lemma_other_option(t, "--vestigial-patience="@, "--batches-per-epoch="@, 2);
    lemma_other_option(t, "--vestigial-patience="@, "--batch-size="@, 2);
    lemma_other_option(t, "--vestigial-patience="@, "--atl-seed-scale="@, 2);
    lemma_other_option(t, "--vestigial-patience="@, "--lb-disable"@, 2);
    lemma_other_option(t, "--vestigial-patience="@, "--seed-experts"@, 2);
    lemma_other_option(t, "--vestigial-patience="@, "--break-symmetry"@, 2);
    lemma_other_option(t, "--vestigial-patience="@, "--cord-surgery"@, 2);
    lemma_other_option(t, "--vestigial-patience="@, "--vestigial-rescue"@, 12);
    lemma_other_option(t, "--vestigial-patience="@, "--no-vestigial-rescue"@, 2);
}

/// An argument that begins with `--atl-seed-scale=` is no other.
proof fn lemma_is_atl_seed_scale(t: Seq<char>)
    requires
        starts_with(t, "--atl-seed-scale="@),
    ensures
        !starts_with(t, "--lb-weight="@),
        !starts_with(t, "--lb-ramp="@),
        !starts_with(t, "--div-weight="@),
        !starts_with(t, "--gate-diversity="@),
        !starts_with(t, "--root="@),
        !starts_with(t, "--stop-at-epoch="@),
        !starts_with(t, "--spores-dir="@),
        !starts_with(t, "--batches-per-epoch="@),
        !starts_with(t, "--batch-size="@),
        !starts_with(t, "--vestigial-patience="@),
        t != "--lb-disable"@,
        t != "--seed-experts"@,
        t != "--break-symmetry"@,
        t != "--cord-surgery"@,
        t != "--vestigial-rescue"@,
        t != "--no-vestigial-rescue"@,
{
    reveal_strlit("--atl-seed-scale=");
    reveal_strlit("--lb-weight=");
    reveal_strlit("--lb-ramp=");
    reveal_strlit("--div-weight=");
    reveal_strlit("--gate-diversity=");
    reveal_strlit("--root=");
    reveal_strlit("--stop-at-epoch=");
    reveal_strlit("--spores-dir=");
    reveal_strlit("--batches-per-epoch=");
    reveal_strlit("--batch-size=");
    reveal_strlit("--vestigial-patience=");
    reveal_strlit("--lb-disable");
    reveal_strlit("--seed-experts");
    reveal_strlit("--break-symmetry");
    reveal_strlit("--cord-surgery");
    reveal_strlit("--vestigial-rescue");
    reveal_strlit("--no-vestigial-rescue");
    lemma_other_option(t, "--atl-seed-scale="@, "--lb-weight="@, 2);
    lemma_other_option(t, "--atl-seed-scale="@, "--lb-ramp="@, 2);
    lemma_other_option(t, "--atl-seed-scale="@, "--div-weight="@, 2);
    lemma_other_option(t, "--atl-seed-scale="@, "--gate-diversity="@, 2);
    lemma_other_option(t, "--atl-seed-scale="@, "--root="@, 2);
    lemma_other_option(t, "--atl-seed-scale="@, "--stop-at-epoch="@, 2);
    lemma_other_option(t, "--atl-seed-scale="@, "--spores-dir="@, 2);
    lemma_other_option(t, "--atl-seed-scale="@, "--batches-per-epoch="@, 2);
    lemma_other_option(t, "--atl-seed-scale="@, "--batch-size="@, 2);
    lemma_other_option(t, "--atl-seed-scale="@, "--vestigial-patience="@, 2);
    lemma_other_option(t, "--atl-seed-scale="@, "--lb-disable"@, 2);
    lemma_other_option(t, "--atl-seed-scale="@, "--seed-experts"@, 2);
    lemma_other_option(t, "--atl-seed-scale="@, "--break-symmetry"@, 2);
    lemma_other_option(t, "--atl-seed-scale="@, "--cord-surgery"@, 2);
    lemma_other_option(t, "--atl-seed-scale="@, "--vestigial-rescue"@, 2);
    lemma_other_option(t, "--atl-seed-scale="@, "--no-vestigial-rescue"@, 2);
}

/// Without arguments a run trains on three hundred batches of eight rows, under its own directory, with a
/// load-balancing loss of weight 0.03 that comes in over five epochs, and rescues experts that have
/// starved for twelve; nothing else is switched on.
pub proof fn law_flags_of_an_empty_command_line()
    ensures
        flags_of(Seq::empty()) == (FlagsView {
            lb_weight: 0x3F9E_B851_EB85_1EB8,
            lb_ramp_epochs: 5,
            seed_experts: false,
            break_symmetry: false,
            div_weight_override: None,
            gate_diversity: 0,
            root: "."@,
            cord_surgery: false,
            stop_at_epoch: None,
            spores_dir: Seq::empty(),
            batches_per_epoch: 300,
            batch_size: 8,
            vestigial_rescue: true,
            vestigial_patience: 12,
            atl_seed_scale: 0,
        }),
{
}

/// A switch switches one thing, and leaves all else as the arguments before it have it.
pub proof fn law_switches_switch_one_thing(args: Seq<Arg>, a: Arg)
    ensures
        ({
            let f = flags_of(args);
            let g = flags_of(args.push(a));
            let t = a.text@;
            &&& t == "--lb-disable"@ ==> g == (FlagsView { lb_weight: 0, ..f })
            &&& t == "--seed-experts"@ ==> g == (FlagsView { seed_experts: true, ..f })
            &&& t == "--break-symmetry"@ ==> g == (FlagsView { break_symmetry: true, ..f })
            &&& t == "--cord-surgery"@ ==> g == (FlagsView { cord_surgery: true, ..f })
            &&& t == "--vestigial-rescue"@ ==> g == (FlagsView { vestigial_rescue: true, ..f })
            &&& t == "--no-vestigial-rescue"@ ==> g == (FlagsView { vestigial_rescue: false, ..f })
        }),
{
    lemma_last_argument(args, a);
    reveal_strlit("--lb-disable");
    reveal_strlit("--seed-experts");
    reveal_strlit("--break-symmetry");
    reveal_strlit("--cord-surgery");
    reveal_strlit("--vestigial-rescue");
    reveal_strlit("--no-vestigial-rescue");
    assert("--lb-disable"@[2] != "--seed-experts"@[2]);
    assert("--lb-disable"@[2] != "--break-symmetry"@[2]);
    assert("--lb-disable"@[2] != "--cord-surgery"@[2]);
    assert("--lb-disable"@[2] != "--vestigial-rescue"@[2]);
    assert("--lb-disable"@[2] != "--no-vestigial-rescue"@[2]);
    assert("--seed-experts"@[2] != "--break-symmetry"@[2]);
    assert("--seed-experts"@[2] != "--cord-surgery"@[2]);
    assert("--seed-experts"@[2] != "--vestigial-rescue"@[2]);
    assert("--seed-experts"@[2] != "--no-vestigial-rescue"@[2]);
    assert("--break-symmetry"@[2] != "--cord-surgery"@[2]);
    assert("--break-symmetry"@[2] != "--vestigial-rescue"@[2]);
    assert("--break-symmetry"@[2] != "--no-vestigial-rescue"@[2]);
    assert("--cord-surgery"@[2] != "--vestigial-rescue"@[2]);
    assert("--cord-surgery"@[2] != "--no-vestigial-rescue"@[2]);
    assert("--vestigial-rescue"@[2] != "--no-vestigial-rescue"@[2]);
}

/// The load-balancing loss comes in over as many epochs as are asked for.
pub proof fn law_ramp_is_what_is_asked(args: Seq<Arg>, a: Arg, n: nat)
    requires
        n <= usize::MAX,
        a.text@ == "--lb-ramp="@ + decimal(n),
    ensures
        flags_of(args.push(a)) == (FlagsView { lb_ramp_epochs: n, ..flags_of(args) }),
{
    lemma_last_argument(args, a);
    lemma_starts_with(decimal(n), "--lb-ramp="@);
    lemma_is_lb_ramp(a.text@);
    lemma_decimal(n);
}

/// A run stops at the epoch that is asked for.
pub proof fn law_stop_is_what_is_asked(args: Seq<Arg>, a: Arg, n: nat)
    requires
        n <= u32::MAX,
        a.text@ == "--stop-at-epoch="@ + decimal(n),
    ensures
        flags_of(args.push(a)) == (FlagsView { stop_at_epoch: Some(n), ..flags_of(args) }),
{
    lemma_last_argument(args, a);
    lemma_starts_with(decimal(n), "--stop-at-epoch="@);
    lemma_is_stop_at_epoch(a.text@);
    lemma_decimal(n);
}

/// An epoch has as many batches as are asked for, and one where none are.
pub proof fn law_batches_are_what_is_asked(args: Seq<Arg>, a: Arg, n: nat)
    requires
        n <= usize::MAX,
        a.text@ == "--batches-per-epoch="@ + decimal(n),
    ensures
        flags_of(args.push(a)) == (FlagsView { batches_per_epoch: if n == 0 {
                1
            } else {
                n
            }, ..flags_of(args) }),
{
    lemma_last_argument(args, a);
    lemma_starts_with(decimal(n), "--batches-per-epoch="@);
    lemma_is_batches_per_epoch(a.text@);
    lemma_decimal(n);
}

/// A batch has as many rows as are asked for, and one where none are.
pub proof fn law_rows_are_what_is_asked(args: Seq<Arg>, a: Arg, n: nat)
    requires
        n <= usize::MAX,
        a.text@ == "--batch-size="@ + decimal(n),
    ensures
        flags_of(args.push(a)) == (FlagsView { batch_size: if n == 0 {
                1
            } else {
                n
            }, ..flags_of(args) }),
{
    lemma_last_argument(args, a);
    lemma_starts_with(decimal(n), "--batch-size="@);
    lemma_is_batch_size(a.text@);
    lemma_decimal(n);
}

/// A rescue waits for as many epochs as are asked for, and for one where none are.
pub proof fn law_patience_is_what_is_asked(args: Seq<Arg>, a: Arg, n: nat)
    requires
        n <= usize::MAX,
        a.text@ == "--vestigial-patience="@ + decimal(n),
    ensures
        flags_of(args.push(a)) == (FlagsView { vestigial_patience: if n == 0 {
                1
            } else {
                n
            }, ..flags_of(args) }),
{
    lemma_last_argument(args, a);
    lemma_starts_with(decimal(n), "--vestigial-patience="@);
    lemma_is_vestigial_patience(a.text@);
    lemma_decimal(n);
}

/// The load-balancing loss has the weight that is asked for.
pub proof fn law_balance_weight_is_what_is_asked(args: Seq<Arg>, a: Arg, w: u64)
    requires
        starts_with(a.text@, "--lb-weight="@),
        a.wide == Some(w),
    ensures
        flags_of(args.push(a)) == (FlagsView { lb_weight: w, ..flags_of(args) }),
{
    lemma_last_argument(args, a);
    lemma_is_lb_weight(a.text@);
}

/// The divergence loss has the weight that is asked for, in place of the schedule.
pub proof fn law_divergence_weight_is_what_is_asked(args: Seq<Arg>, a: Arg, w: u64)
    requires
        starts_with(a.text@, "--div-weight="@),
        a.wide == Some(w),
    ensures
        flags_of(args.push(a)) == (FlagsView { div_weight_override: Some(w), ..flags_of(args) }),
{
    lemma_last_argument(args, a);
    lemma_is_div_weight(a.text@);
}

/// The routers have the spread that is asked for.
pub proof fn law_gate_spread_is_what_is_asked(args: Seq<Arg>, a: Arg, w: u32)
    requires
        starts_with(a.text@, "--gate-diversity="@),
        a.narrow == Some(w),
    ensures
        flags_of(args.push(a)) == (FlagsView { gate_diversity: w, ..flags_of(args) }),
{
    lemma_last_argument(args, a);
    lemma_is_gate_diversity(a.text@);
}

/// New routers are tilted as far as is asked for, and not at all where that is below zero or no number.
pub proof fn law_tilt_is_what_is_asked(args: Seq<Arg>, a: Arg, w: u32)
    requires
        starts_with(a.text@, "--atl-seed-scale="@),
        a.narrow == Some(w),
    ensures
        flags_of(args.push(a)) == (FlagsView { atl_seed_scale: if w <= 0x7F80_0000 {
                w
            } else {
                0
            }, ..flags_of(args) }),
{
    lemma_last_argument(args, a);
    lemma_is_atl_seed_scale(a.text@);
}

/// The root is the directory that is asked for, without the slashes at its end.
pub proof fn law_root_is_what_is_asked(args: Seq<Arg>, a: Arg, dir: Seq<char>, slashes: nat)
    requires
        a.text@ == "--root="@ + (dir + Seq::new(slashes, |i: int| '/')),
        dir.len() > 0 ==> dir.last() != '/',
    ensures
        flags_of(args.push(a)) == (FlagsView { root: dir, ..flags_of(args) }),
{
    let value = dir + Seq::new(slashes, |i: int| '/');
    lemma_last_argument(args, a);
    lemma_starts_with(value, "--root="@);
    lemma_is_root(a.text@);
    lemma_slashes(dir, slashes);
}

/// The slashes at the end of a text are taken off.
proof fn lemma_slashes(dir: Seq<char>, n: nat)
    requires
        dir.len() > 0 ==> dir.last() != '/',
    ensures
        trim_end_char(dir + Seq::new(n, |i: int| '/'), '/') == dir,
    decreases n,
{
    let s = dir + Seq::new(n, |i: int| '/');
    if n == 0 {
        assert(s =~= dir);
    } else {
        lemma_slashes(dir, (n - 1) as nat);
        assert(s.last() == '/');
        assert(s.drop_last() =~= dir + Seq::new((n - 1) as nat, |i: int| '/'));
    }
}

/// Checkpoints of others are looked for in the directory that is asked for.
pub proof fn law_spores_are_what_is_asked(args: Seq<Arg>, a: Arg, dir: Seq<char>)
    requires
        a.text@ == "--spores-dir="@ + dir,
    ensures
        flags_of(args.push(a)) == (FlagsView { spores_dir: dir, ..flags_of(args) }),
{
    lemma_last_argument(args, a);
    lemma_starts_with(dir, "--spores-dir="@);
    lemma_is_spores_dir(a.text@);
}

} // verus!
