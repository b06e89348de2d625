use albert_train::burst::{Burst, BurstGuard, BURST_RATIO_THRESHOLD};
use albert_train::cascade::{CascadeLog, Norms};
use albert_train::fraction::{below, equal, finite, nan, wide_positive, wide_zero, LARGEST};
use albert_train::progress::{
    asks_growth, boost, collapsed_loss, grows, number_in_file, Boost, EpochEnd, EpochFacts,
    Progress, Verdict, COLLAPSE_THRESHOLD, SEVERE_GAP,
};
use albert_train::schedule::{
    batch_plan, div_counts, div_stage, remaining_seconds, BatchPlan, DivStage, LbRamp, LbStrength,
};
use albert_train::steps::{
    cold, explosion, GradCensus, Steps, WindowEnd, COLD_NORM, LOSS_EXPLOSION_THRESHOLD,
    MAX_GRAD_NORM,
};
use albert_train::streaks::{Dominance, HotLayer, DOMINANT_SHARE};
use albert_train::watch::LayerWatch;

fn samples() -> Vec<f32> {
    vec![
        0.0,
        -0.0,
        1.0,
        -1.0,
        0.7,
        11.0,
        f32::MIN_POSITIVE,
        -f32::MIN_POSITIVE,
        f32::from_bits(1),
        f32::from_bits(0x8000_0001),
        f32::MAX,
        f32::MIN,
        f32::INFINITY,
        f32::NEG_INFINITY,
        f32::NAN,
        -f32::NAN,
        f32::from_bits(0x7F80_0001),
    ]
}

#[test]
fn bits_compare_as_fractions() {
    for a in samples() {
        assert_eq!(nan(a.to_bits()), a.is_nan());
        assert_eq!(finite(a.to_bits()), a.is_finite());
        for b in samples() {
            assert_eq!(below(a.to_bits(), b.to_bits()), a < b, "{a} < {b}");
            assert_eq!(equal(a.to_bits(), b.to_bits()), a == b, "{a} == {b}");
        }
    }
}

#[test]
fn wide_bits_compare_with_zero() {
    for a in [0.0, -0.0, 0.03, -0.03, f64::INFINITY, f64::NEG_INFINITY, f64::NAN, -f64::NAN] {
        assert_eq!(wide_zero(a.to_bits()), a == 0.0);
        assert_eq!(wide_positive(a.to_bits()), a > 0.0);
    }
}

#[test]
fn limits_have_their_values() {
    assert_eq!(f32::from_bits(LOSS_EXPLOSION_THRESHOLD), 11.0);
    assert_eq!(f32::from_bits(COLLAPSE_THRESHOLD), 11.0);
    assert_eq!(f32::from_bits(MAX_GRAD_NORM), 1.0);
    assert_eq!(f32::from_bits(COLD_NORM), 0.005);
    assert_eq!(f32::from_bits(BURST_RATIO_THRESHOLD), 5.0);
    assert_eq!(f32::from_bits(DOMINANT_SHARE), 0.70);
    assert_eq!(f32::from_bits(SEVERE_GAP), 0.15);
    assert_eq!(f32::from_bits(LARGEST), f32::MAX);
}

#[test]
fn divergence_loss_decays_and_ends() {
    assert_eq!(div_stage(0), DivStage::Start);
    assert_eq!(div_stage(104), DivStage::Start);
    assert_eq!(div_stage(105), DivStage::Decay { elapsed: 0, span: 19 });
    assert_eq!(div_stage(124), DivStage::Decay { elapsed: 19, span: 19 });
    assert_eq!(div_stage(125), DivStage::Off);
    assert!(div_counts(None, 124) && !div_counts(None, 125));
    assert!(div_counts(Some(1e-3f64.to_bits()), 200));
    assert!(!div_counts(Some(0.0f64.to_bits()), 1));
}

#[test]
fn balance_loss_ramps_up() {
    let w = 0.03f64.to_bits();
    let mut ramp = LbRamp::new();
    assert_eq!(ramp.begin_epoch(w, 2), LbStrength::Ramp { part: 0, of: 2 });
    assert_eq!(ramp.begin_epoch(w, 2), LbStrength::Ramp { part: 1, of: 2 });
    assert_eq!(ramp.begin_epoch(w, 2), LbStrength::Full);
    assert_eq!(ramp.begin_epoch(w, 2), LbStrength::Full);
    let mut none = LbRamp::new();
    assert_eq!(none.begin_epoch(w, 0), LbStrength::Full);
    let mut off = LbRamp::new();
    assert_eq!(off.begin_epoch(0, 5), LbStrength::Off);
    assert_eq!(off.epochs, 0);
}

#[test]
fn batches_have_their_plan() {
    let first = batch_plan(1_234, 1, 0, 300, None, false);
    assert_eq!(
        first,
        BatchPlan {
            lr_phase: 234,
            steps: true,
            diverges: true,
            routes: true,
            grads: false,
            memory: true,
            weights: false
        }
    );
    let fifth = batch_plan(0, 125, 5, 300, None, false);
    assert!(fifth.routes && !fifth.grads && !fifth.diverges && fifth.steps && !fifth.memory);
    let thirtieth = batch_plan(0, 1, 30, 300, None, false);
    assert!(thirtieth.routes && thirtieth.grads && thirtieth.weights);
    assert!(!batch_plan(0, 1, 30, 300, None, true).weights);
    let fixed = Some(0.05f64.to_bits());
    assert!(batch_plan(0, 130, 5, 300, fixed, false).diverges);
    assert!(!batch_plan(0, 130, 5, 300, None, false).diverges);
    assert!(!batch_plan(0, 1, 5, 300, Some(0.0f64.to_bits()), false).diverges);
}

#[test]
fn remaining_time_is_proportional() {
    assert_eq!(remaining_seconds(100, 0, 300), 0);
    assert_eq!(remaining_seconds(100, 100, 300), 200);
    assert_eq!(remaining_seconds(10, 3, 10), 23);
}

#[test]
fn explosions_are_seen() {
    for l in samples() {
        assert_eq!(
            explosion(l.to_bits()),
            l.is_nan() || l.is_infinite() || l > 11.0,
            "{l}"
        );
    }
    assert!(explosion(11.1f32.to_bits()));
}

#[test]
fn an_exploded_batch_is_skipped_and_not_counted() {
    let mut s = Steps::new();
    s.begin_epoch();
    assert!(s.wants_gradients());
    assert_eq!(s.take_loss(3.0f32.to_bits(), true), WindowEnd::Step);
    assert!(s.take_norm(1.5f32.to_bits()));
    s.end_batch();
    assert_eq!(s.take_loss(f32::NAN.to_bits(), true), WindowEnd::Skip);
    assert_eq!(s.take_loss(12.0f32.to_bits(), false), WindowEnd::Hold);
    assert!(!s.wants_gradients());
    s.end_batch();
    assert_eq!(s.take_loss(3.0f32.to_bits(), true), WindowEnd::Skip);
    assert_eq!((s.step, s.counted, s.clipped, s.skipped), (4, 1, 1, 2));
    assert!(!s.take_norm(1.0f32.to_bits()));
    assert!(!s.take_norm(f32::INFINITY.to_bits()));
    s.begin_epoch();
    assert_eq!((s.step, s.counted, s.clipped, s.skipped), (4, 0, 0, 0));
    s.restart();
    assert_eq!(s.step, 0);
}

#[test]
fn a_held_batch_counts_once_its_window_closes() {
    let good = 3.0f32.to_bits();
    let mut s = Steps::new();
    s.begin_epoch();
    assert_eq!(s.take_loss(good, false), WindowEnd::Hold);
    s.end_batch();
    assert_eq!((s.held, s.counted), (1, 0));
    assert_eq!(s.take_loss(good, true), WindowEnd::Step);
    s.end_batch();
    assert_eq!((s.held, s.counted), (0, 2));
    assert_eq!(s.take_loss(good, false), WindowEnd::Hold);
    s.end_batch();
    assert_eq!(s.take_loss(f32::INFINITY.to_bits(), true), WindowEnd::Skip);
    assert_eq!((s.held, s.counted, s.skipped, s.step), (0, 2, 1, 4));
}

#[test]
fn cold_layers_are_found_by_name() {
    let norms = vec![0.004f32.to_bits(), 0.005f32.to_bits(), f32::NAN.to_bits()];
    assert!(cold(&"blocks.0.ln1.weight".to_string(), &norms));
    assert!(!cold(&"blocks.1.ln1.weight".to_string(), &norms));
    assert!(!cold(&"blocks.2.ln1.weight".to_string(), &norms));
    assert!(!cold(&"blocks.3.ln1.weight".to_string(), &norms));
    assert!(!cold(&"embed.weight".to_string(), &norms));
}

#[test]
fn the_census_counts_blocks_apart() {
    let mut c = GradCensus::new();
    c.count(0, 2, true);
    c.count(1, 2, false);
    c.count(2, 2, true);
    c.count(3, 2, true);
    c.count(3, 2, false);
    assert_eq!((c.block_with, c.block_without, c.other_with, c.other_without), (1, 1, 2, 1));
}

#[test]
fn bursts_freeze_a_layer_five_times() {
    let one = 1.0f32.to_bits();
    let ten = 10.0f32.to_bits();
    let mut g = BurstGuard::new(2);
    assert_eq!(g.observe(0, 0, ten, one, 7), Burst::Quiet);
    assert_eq!(g.level(0), 0);
    assert_eq!(g.observe(0, ten, ten, one, 7), Burst::Bootstrap);
    assert_eq!(g.level(0), ten);
    assert_eq!(g.observe(0, ten, 5.0f32.to_bits(), one, 8), Burst::Calm);
    assert_eq!(g.level(0), one);
    for nth in 1..=5 {
        assert_eq!(g.observe(0, ten, ten, one, 100), Burst::Freeze { end: 150, nth });
    }
    assert_eq!(g.observe(0, ten, ten, one, 100), Burst::Suppressed);
    assert_eq!(g.observe(1, ten, ten, one, 100), Burst::Bootstrap);
    assert_eq!(g.observe(1, ten, ten, one, 100), Burst::Freeze { end: 150, nth: 1 });
    assert_eq!(g.total(), 6);
    assert_eq!(g.freezes(), "L0x5,L1x1");
    g.begin_epoch();
    assert_eq!(g.freezes(), "none");
    assert_eq!(g.level(1), one);
    assert_eq!(g.observe(0, ten, ten, one, 0), Burst::Freeze { end: 50, nth: 1 });
}

fn four(n: u32) -> Norms {
    Norms { l0: n, l1: n, l2: n, l3: n }
}

#[test]
fn freezes_are_looked_at_thirty_steps_later() {
    let mut log = CascadeLog::new();
    log.record(&vec![1, 2, 3], 0, 8);
    assert!(log.recent().is_empty());
    for n in 0..12 {
        log.record(&vec![n, n, n, n, 99], 5, 8);
    }
    assert_eq!(log.recent().len(), 10);
    assert_eq!(log.recent()[0], four(2));
    log.schedule(10, 3, four(1), 8);
    log.schedule(12, 0, four(2), 8);
    log.schedule(12, 3, four(3), 8);
    log.record(&vec![7, 7, 7, 7], 39, 8);
    assert!(log.by_layer(8).is_empty());
    log.record(&vec![8, 8, 8, 8], 40, 8);
    log.record(&vec![9, 9, 9, 9], 60, 8);
    let groups = log.by_layer(8);
    assert_eq!(groups.len(), 2);
    assert_eq!(groups[0].0, 0);
    assert_eq!(groups[0].1[0].post, four(9));
    assert_eq!(groups[1].0, 3);
    assert_eq!(groups[1].1.len(), 2);
    assert_eq!(groups[1].1[0].pre, four(1));
    assert_eq!(groups[1].1[0].post, four(8));
    assert_eq!(groups[1].1[1].pre, four(3));
    assert_eq!(groups[1].1[1].fired, 12);
}

#[test]
fn dominance_is_warned_of_in_the_third_epoch() {
    let high = 0.71f32.to_bits();
    let low = 0.70f32.to_bits();
    let mut d = Dominance::new(2);
    assert!(d.observe(&vec![high, low]).is_empty());
    assert!(d.observe(&vec![high, low]).is_empty());
    assert_eq!(d.observe(&vec![high, high]), vec![(0, 3)]);
    assert_eq!(d.observe(&vec![high, high]), vec![(0, 4)]);
    assert_eq!(d.observe(&vec![low, high]), vec![(1, 3)]);
    for _ in 0..300 {
        d.observe(&vec![low, high]);
    }
    assert_eq!(d.observe(&vec![high, high]), vec![(1, 255)]);
}

#[test]
fn the_hot_layer_has_a_streak() {
    let mut h = HotLayer::new();
    assert_eq!((h.layer, h.epochs), (None, 0));
    for (l, n) in [(3, 1), (3, 2), (3, 3), (0, 1), (3, 1)] {
        h.observe(l);
        assert_eq!((h.layer, h.epochs), (Some(l), n));
    }
}

#[test]
fn small_files_hold_numbers() {
    assert_eq!(number_in_file(&Some(" 42\n".to_string())), 42);
    assert_eq!(number_in_file(&Some("4294967295".to_string())), u32::MAX);
    assert_eq!(number_in_file(&Some("4294967296".to_string())), 0);
    assert_eq!(number_in_file(&Some("x".to_string())), 0);
    assert_eq!(number_in_file(&None), 0);
}

#[test]
fn the_best_epoch_is_kept() {
    let mut p = Progress::resume(&Some("10\n".to_string()), &None, None);
    assert_eq!((p.epochs, p.best_epoch, p.best_loss, p.last_loss), (10, 0, LARGEST, LARGEST));
    assert_eq!(p.since_best(), 10);
    p.begin_epoch();
    assert!(p.take_loss(5.0f32.to_bits()));
    assert_eq!((p.epochs, p.best_epoch), (11, 11));
    p.keep_loss(5.0f32.to_bits());
    p.begin_epoch();
    assert!(!p.take_loss(5.0f32.to_bits()));
    assert!(!p.take_loss(f32::NAN.to_bits()));
    assert_eq!(p.since_best(), 1);
    assert_eq!(f32::from_bits(p.last_loss), 5.0);
    assert!(p.has_reached(Some(12)));
    assert!(!p.has_reached(Some(13)));
    assert!(!p.has_reached(None));
    let ahead =
        Progress::resume(&Some("3".to_string()), &Some("7".to_string()), Some(1.0f32.to_bits()));
    assert_eq!(ahead.since_best(), 0);
}

#[test]
fn the_second_collapsed_epoch_is_acted_on() {
    let bad = 11.5f32.to_bits();
    let good = 4.0f32.to_bits();
    let fresh = || Progress::resume(&None, &None, None);
    let mut p = fresh();
    assert_eq!(p.judge(good, true, Some(good), 5, 8), Verdict::Sound);
    assert_eq!(p.judge(bad, true, Some(good), 5, 8), Verdict::Streak(1));
    assert_eq!(p.judge(good, true, Some(good), 5, 8), Verdict::Sound);
    assert_eq!(p.judge(bad, true, Some(good), 5, 8), Verdict::Streak(1));
    assert_eq!(p.judge(bad, true, Some(good), 5, 8), Verdict::Rollback(2));
    assert_eq!(p.judge(bad, true, Some(good), 5, 8), Verdict::Streak(1));
    assert_eq!(p.judge(bad, false, Some(good), 5, 8), Verdict::Surgery);
    let limit = 11.0f32.to_bits();
    assert_eq!(p.judge(limit, true, Some(8.0f32.to_bits()), 5, 8), Verdict::Streak(1));
    assert_eq!(p.judge(limit, true, Some(8.0f32.to_bits()), 5, 8), Verdict::Rollback(2));
    assert_eq!(p.judge(10.999f32.to_bits(), false, None, 5, 8), Verdict::Sound);
    assert_eq!(p.judge(f32::NAN.to_bits(), false, None, 5, 8), Verdict::Sound);
    p.judge(bad, true, None, 5, 8);
    assert_eq!(p.judge(bad, true, None, 5, 8), Verdict::Surgery);
    p.judge(bad, true, None, 5, 8);
    assert_eq!(p.judge(bad, true, Some(11.0f32.to_bits()), 8, 8), Verdict::Suppressed);
    p.judge(bad, true, None, 5, 8);
    assert_eq!(p.judge(bad, true, Some(f32::NAN.to_bits()), 8, 8), Verdict::Rollback(2));
}

#[test]
fn a_collapsed_loss_lies_at_or_above_the_threshold() {
    for l in samples() {
        assert_eq!(collapsed_loss(l.to_bits()), l >= 11.0, "{l}");
    }
}

#[test]
fn an_epoch_ends_in_order() {
    let facts = |loss: f32, reload: bool| EpochFacts {
        avg_loss: loss.to_bits(),
        reload,
        best_exists: true,
        best_recorded: Some(4.0f32.to_bits()),
        max_layers: 8,
    };
    let mut p = Progress::resume(&Some("9".to_string()), &None, None);
    p.begin_epoch();
    assert_eq!(p.end_epoch(Some(10), facts(12.0, true), 5), EpochEnd::Stop);
    assert_eq!(p.end_epoch(Some(11), facts(12.0, true), 5), EpochEnd::Reload);
    assert_eq!(p.collapsed, 0);
    assert_eq!(
        p.end_epoch(None, facts(12.0, false), 5),
        EpochEnd::Judged(Verdict::Streak(1))
    );
    assert_eq!(
        p.end_epoch(None, facts(12.0, false), 5),
        EpochEnd::Judged(Verdict::Rollback(2))
    );
    assert_eq!(p.end_epoch(None, facts(3.0, false), 5), EpochEnd::Judged(Verdict::Sound));
}

#[test]
fn a_model_grows_when_asked_or_forced() {
    for (v, asked, forced) in [
        (Verdict::Sound, true, false),
        (Verdict::Streak(1), true, false),
        (Verdict::Rollback(2), false, false),
        (Verdict::Suppressed, false, false),
        (Verdict::Surgery, false, true),
    ] {
        assert_eq!(asks_growth(v), asked);
        assert_eq!(grows(v, false), forced);
        assert_eq!(grows(v, true), asked || forced);
    }
}

#[test]
fn cold_layers_are_boosted_by_the_gap() {
    assert_eq!(boost(true, 0.9f32.to_bits()), Boost::Off);
    assert_eq!(boost(false, 0.16f32.to_bits()), Boost::Severe);
    assert_eq!(boost(false, 0.15f32.to_bits()), Boost::Base);
    assert_eq!(boost(false, f32::NAN.to_bits()), Boost::Base);
}

#[test]
fn every_freeze_is_accounted_for() {
    let one = 1.0f32.to_bits();
    let ten = 10.0f32.to_bits();
    let norms = vec![ten, 0, ten, ten, one, one];
    let mut w = LayerWatch::new(4);
    w.begin_epoch();
    w.record(&norms, 0);
    assert_eq!(w.recent().len(), 1);
    let first = w.observe(&norms, &vec![ten; 4], &vec![one; 4], four(0), 0);
    assert_eq!(first, vec![Burst::Bootstrap, Burst::Quiet, Burst::Bootstrap, Burst::Bootstrap]);
    w.record(&norms, 1);
    let second = w.observe(&norms, &vec![ten, ten, one, ten], &vec![one; 4], four(7), 1);
    assert_eq!(
        second,
        vec![
            Burst::Freeze { end: 51, nth: 1 },
            Burst::Quiet,
            Burst::Calm,
            Burst::Freeze { end: 51, nth: 1 }
        ]
    );
    assert_eq!((w.level(0), w.level(1)), (one, 0));
    assert_eq!((w.total(), w.freezes().as_str()), (2, "L0x1,L3x1"));
    assert!(w.by_layer().is_empty());
    w.record(&norms, 31);
    let groups = w.by_layer();
    assert_eq!(groups.iter().map(|g| (g.0, g.1.len())).collect::<Vec<_>>(), vec![(0, 1), (3, 1)]);
    assert_eq!(groups[0].1[0].pre, four(7));
    w.begin_epoch();
    assert_eq!(w.total(), 0);
    assert!(w.by_layer().is_empty() && w.recent().is_empty());
    assert_eq!(w.level(0), one);
}
