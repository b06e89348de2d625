use albert_train::checkpoint::{load_plan, TensorInfo};
use albert_train::corpus::{encode_cache, file_order, open_cache, CacheUse};
use albert_train::flags::{parse_args, Arg};
use albert_train::fraction::{below, equal};
use albert_train::fusion::fibonacci_fusion_layers;
use albert_train::growth::{perform_surgery, Growth};
use albert_train::paths::{archive_path, cord_archive_path};
use albert_train::schedule::{batch_plan, div_stage, DivStage};
use albert_train::seeding::{draw_pairs, plan_seeding};
use albert_train::shape::read_architecture;
use albert_train::steps::{Steps, WindowEnd};
use albert_train::numerals::decimal_text;
use albert_train::progress::{EpochEnd, EpochFacts, Progress};
use albert_train::telemetry::grad_line;

fn tensor(name: &str) -> TensorInfo {
    TensorInfo { name: name.to_string(), dims: vec![2, 2] }
}

#[test]
fn comparing_orders_numbers() {
    let v: Vec<u32> = [-2.5f32, -0.0, 0.0, 1e-40, 3.0].map(f32::to_bits).to_vec();
    for &a in &v {
        for &b in &v {
            assert!(below(a, b) || below(b, a) || equal(a, b));
            assert!(!(below(a, b) && below(b, a)));
        }
    }
    let nan = f32::NAN.to_bits();
    assert!(!below(nan, nan) && !equal(nan, nan));
}

#[test]
fn a_model_restores_its_own_checkpoint() {
    let vars = vec![tensor("a"), tensor("b"), tensor("c")];
    let saved = vec![tensor("c"), tensor("x"), tensor("a"), tensor("b")];
    assert_eq!(load_plan(&vars, &vars).1, 3);
    assert_eq!(load_plan(&vars, &saved).1, 3);
}

#[test]
fn the_next_start_finds_the_corpus() {
    let tokens: Vec<u32> = (0..1000).collect();
    let bytes = encode_cache(7, &tokens);
    match open_cache(&bytes, 7, 10, &vec![10, 3]) {
        CacheUse::Hit(found) => assert_eq!(found, tokens),
        _ => panic!("not found"),
    }
}

#[test]
fn archives_of_different_depths_are_different_files() {
    for a in 0..30 {
        for b in 0..30 {
            assert_eq!(archive_path("r", a) == archive_path("r", b), a == b);
            assert_ne!(archive_path("r", a), cord_archive_path("r", b));
        }
    }
}

#[test]
fn experts_have_their_own_seeds() {
    let mut t = Vec::new();
    for l in 0..3 {
        for e in 0..12 {
            t.push(tensor(&format!("blocks.{l}.moe.experts.{e}.c_fc.weight")));
        }
    }
    let plan = plan_seeding(&t, 3, 12);
    let mut seeds: Vec<usize> = plan.iter().map(|o| o.seed).collect();
    let mut places: Vec<usize> = plan.iter().map(|o| o.tensor).collect();
    seeds.sort();
    seeds.dedup();
    places.sort();
    places.dedup();
    assert_eq!((plan.len(), seeds.len(), places.len()), (36, 36, 36));
    for (a, b) in draw_pairs(256, 211) {
        assert!(a < 1 << 53 && b < 1 << 53);
    }
}

#[test]
fn a_grad_line_reads_back() {
    let norms = vec!["1.00e-3".to_string(), "2.00e0".to_string()];
    let line = grad_line(40, "0.1234", &norms);
    let rest = line.strip_prefix("GRAD step=").unwrap();
    let mut words = rest.split(' ');
    assert_eq!(words.next(), Some("40"));
    assert_eq!(words.next(), Some("n=0.1234"));
    let list = words.next().unwrap().strip_prefix("L=").unwrap();
    assert_eq!(list.split(',').collect::<Vec<_>>(), norms);
}

#[test]
fn flags_are_sane_whatever_is_given() {
    let arg = |text: &str| Arg { text: text.to_string(), wide: None, narrow: Some(u32::MAX) };
    let f = parse_args(&vec![
        arg("--batches-per-epoch=0"),
        arg("--batch-size=+0"),
        arg("--vestigial-patience=000"),
        arg("--atl-seed-scale=?"),
        arg("--root=a/b///"),
    ]);
    assert_eq!((f.batches_per_epoch, f.batch_size, f.vestigial_patience), (1, 1, 1));
    assert_eq!((f.atl_seed_scale, f.root.as_str()), (0, "a/b"));
}

#[test]
fn idle_arguments_change_nothing_anywhere() {
    let arg = |text: &str| Arg { text: text.to_string(), wide: None, narrow: None };
    let base = ["--batch-size=3", "--seed-experts", "--root=/r"];
    for idle in ["", "x", "--", "--Root=/q", "--lb-weight=x", "--stop-at-epoch=", "--batch-size=-1"] {
        for i in 0..=base.len() {
            let mut args: Vec<Arg> = base.iter().map(|t| arg(t)).collect();
            args.insert(i, arg(idle));
            let f = parse_args(&args);
            assert_eq!((f.batch_size, f.seed_experts, f.root.as_str()), (3, true, "/r"));
            assert_eq!((f.stop_at_epoch, f64::from_bits(f.lb_weight)), (None, 0.03));
        }
    }
}

#[test]
fn files_are_read_by_name() {
    let names: Vec<Vec<u8>> =
        ["b.txt", "a.txt", "B.txt", "ab.txt", "a", "\u{e9}.txt"].map(|n| n.as_bytes().to_vec()).to_vec();
    let mut sorted = names.clone();
    sorted.sort();
    let listed: Vec<Vec<u8>> = file_order(&names).iter().map(|&i| names[i].clone()).collect();
    assert_eq!(listed, sorted);
    assert!(file_order(&vec![]).is_empty());
}

#[test]
fn epochs_are_kept_across_restarts() {
    for n in [0u32, 7, 900, u32::MAX] {
        let text = Some(decimal_text(n as u64));
        let p = Progress::resume(&text, &text, None);
        assert_eq!((p.epochs, p.best_epoch), (n, n));
    }
}

#[test]
fn the_best_loss_never_rises() {
    for start in [None, Some(3.0f32.to_bits()), Some(f32::NAN.to_bits())] {
        let mut p = Progress::resume(&None, &Some("9".to_string()), start);
        for l in [5.0f32, 2.0, f32::NAN, 4.0, f32::NEG_INFINITY, 1.0] {
            let before = p.best_loss;
            p.begin_epoch();
            p.take_loss(l.to_bits());
            assert!(!below(before, p.best_loss));
        }
    }
}

#[test]
fn a_run_stops_when_told() {
    for (m, s) in [(0u32, 3u32), (5, 3), (5, 6), (5, 9), (0, 0)] {
        let mut p = Progress::resume(&Some(decimal_text(m as u64)), &None, None);
        let expected = s.max(m + 1);
        for epoch in m + 1..m + 8 {
            p.begin_epoch();
            let facts = EpochFacts {
                avg_loss: 4.0f32.to_bits(),
                reload: false,
                best_exists: false,
                best_recorded: None,
                max_layers: 8,
            };
            let stops = p.end_epoch(Some(s), facts, 5) == EpochEnd::Stop;
            assert_eq!(stops, epoch >= expected);
        }
    }
}

#[test]
fn the_divergence_loss_never_rises() {
    let position = |e: usize| match div_stage(e) {
        DivStage::Start => 0,
        DivStage::Decay { elapsed, .. } => elapsed,
        DivStage::Off => usize::MAX,
    };
    for e in 0..200 {
        assert!(position(e) <= position(e + 1));
    }
}

#[test]
fn only_sound_batches_count_in_the_average() {
    let losses = [3.0f32, f32::NAN, 12.0, 4.0, f32::INFINITY];
    let mut s = Steps::new();
    s.begin_epoch();
    for (i, l) in losses.iter().enumerate() {
        let plan = batch_plan(s.step, 1, i, losses.len(), None, true);
        if s.take_loss(l.to_bits(), plan.steps) != WindowEnd::Skip {
            s.end_batch();
        }
    }
    assert_eq!((s.step, s.counted, s.skipped, s.exploded), (5, 2, 3, false));
}

#[test]
fn fusion_layers_stay_in_step_while_a_model_grows() {
    let mut names = vec!["blocks.0.stream_a.ln1.weight".to_string()];
    let mut config = r#"{"num_layers": 1, "num_streams": 2, "hidden_size": 4, "num_heads": 1,
        "max_seq_len": 8, "num_experts": 2, "fusion_layers": []}"#
        .to_string();
    for depth in 1..14 {
        let tensors: Vec<TensorInfo> = names.iter().map(|n| tensor(n)).collect();
        let Ok(Growth::Grown { plan, config: text, .. }) = perform_surgery(&config, &tensors, None)
        else {
            panic!("no growth");
        };
        names = plan.into_iter().map(|p| p.name).collect();
        config = text;
        let a = read_architecture(&config).ok().unwrap();
        assert_eq!(a.num_layers, depth + 1);
        assert_eq!(a.fusion_layers, fibonacci_fusion_layers(depth + 1));
        assert_eq!(
            names.iter().filter(|n| n.starts_with("anastomosis.")).count(),
            2 * a.fusion_layers.len()
        );
    }
}
