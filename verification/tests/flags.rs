use albert_train::flags::{parse_args, Arg, TrainFlags};

fn arg(text: &str) -> Arg {
    let value = text.split_once('=').map(|(_, v)| v).unwrap_or("");
    Arg {
        text: text.to_string(),
        wide: value.parse::<f64>().ok().map(f64::to_bits),
        narrow: value.parse::<f32>().ok().map(f32::to_bits),
    }
}

fn parse(texts: &[&str]) -> TrainFlags {
    let args: Vec<Arg> = texts.iter().map(|t| arg(t)).collect();
    parse_args(&args)
}

#[test]
fn an_empty_command_line_gives_the_defaults() {
    let f = parse(&[]);
    assert_eq!(f64::from_bits(f.lb_weight), 0.03);
    assert_eq!(f.lb_ramp_epochs, 5);
    assert!(!f.seed_experts && !f.break_symmetry && !f.cord_surgery && f.vestigial_rescue);
    assert_eq!(f.div_weight_override, None);
    assert_eq!(f32::from_bits(f.gate_diversity), 0.0);
    assert_eq!(f32::from_bits(f.atl_seed_scale), 0.0);
    assert_eq!((f.root.as_str(), f.spores_dir.as_str()), (".", ""));
    assert_eq!(f.stop_at_epoch, None);
    assert_eq!((f.batches_per_epoch, f.batch_size, f.vestigial_patience), (300, 8, 12));
}

#[test]
fn every_flag_is_read() {
    let f = parse(&[
        "--lb-weight=0.5",
        "--lb-ramp=7",
        "--seed-experts",
        "--break-symmetry",
        "--div-weight=1e-3",
        "--gate-diversity=-0.25",
        "--root=/srv/albert//",
        "--cord-surgery",
        "--stop-at-epoch=900",
        "--spores-dir=none",
        "--batches-per-epoch=30",
        "--batch-size=2",
        "--no-vestigial-rescue",
        "--vestigial-patience=3",
        "--atl-seed-scale=0.15",
    ]);
    assert_eq!(f64::from_bits(f.lb_weight), 0.5);
    assert_eq!(f.lb_ramp_epochs, 7);
    assert!(f.seed_experts && f.break_symmetry && f.cord_surgery && !f.vestigial_rescue);
    assert_eq!(f.div_weight_override.map(f64::from_bits), Some(1e-3));
    assert_eq!(f32::from_bits(f.gate_diversity), -0.25);
    assert_eq!(f32::from_bits(f.atl_seed_scale), 0.15);
    assert_eq!((f.root.as_str(), f.spores_dir.as_str()), ("/srv/albert", "none"));
    assert_eq!(f.stop_at_epoch, Some(900));
    assert_eq!((f.batches_per_epoch, f.batch_size, f.vestigial_patience), (30, 2, 3));
}

#[test]
fn the_last_valid_argument_counts() {
    let f = parse(&["--batch-size=4", "--batch-size=x", "--lb-weight=1", "--lb-disable"]);
    assert_eq!(f.batch_size, 4);
    assert_eq!(f64::from_bits(f.lb_weight), 0.0);
    let g = parse(&["--lb-disable", "--lb-weight=2", "--no-vestigial-rescue", "--vestigial-rescue"]);
    assert_eq!(f64::from_bits(g.lb_weight), 2.0);
    assert!(g.vestigial_rescue);
}

#[test]
fn counts_are_at_least_one() {
    let f = parse(&["--batches-per-epoch=0", "--batch-size=0", "--vestigial-patience=0"]);
    assert_eq!((f.batches_per_epoch, f.batch_size, f.vestigial_patience), (1, 1, 1));
}

#[test]
fn a_negative_tilt_is_none() {
    for v in ["-1", "NaN", "-NaN", "-inf"] {
        let f = parse(&[&format!("--atl-seed-scale={v}")]);
        assert_eq!(f32::from_bits(f.atl_seed_scale), 0.0);
    }
    assert_eq!(f32::from_bits(parse(&["--atl-seed-scale=inf"]).atl_seed_scale), f32::INFINITY);
}

#[test]
fn other_arguments_are_ignored() {
    let f = parse(&["train", "-x", "--unknown", "--stop-at-epoch=-1", "--lb-ramp", "--seed-experts=1"]);
    assert_eq!(f.stop_at_epoch, None);
    assert_eq!(f.lb_ramp_epochs, 5);
    assert!(!f.seed_experts);
}

#[test]
fn a_root_of_slashes_is_empty() {
    assert_eq!(parse(&["--root=/"]).root, "");
}
