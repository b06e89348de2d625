use albert_train::paths::{
    archive_path, cord_archive_path, cord_source, extra_corpora, history_path, log_path, paths, spores_dir,
    watched,
};
use albert_train::telemetry::{
    arch_line, balance_banner, balance_line, balance_off_line, balance_on_line, banner, batch_line,
    best_line, cascade_line, console_line, cord_line, critical_line, decay_line, div_grads_line,
    div_line, div_weights_line, divergence_banner, dominance_line, entropy_line, epoch_line,
    freeze_limit_line, freeze_line, freeze_skip_line, gate_line, grad_line, keep_states,
    lights_line, memory_line, mycelium_line, parse_memory, rollback_line, route_line,
    sparsity_slot, summary_line, tele_line, Light, Sparsity, Summary, ZERO_WEIGHT,
};

fn texts(v: &[&str]) -> Vec<String> {
    v.iter().map(|s| s.to_string()).collect()
}

#[test]
fn batch_lines_have_their_form() {
    assert_eq!(arch_line(18, 256, 12, 512, 32000), "ARCH 18L 256H 12E 512CTX 32000V");
    assert_eq!(batch_line(18, 907, 3, "4.1234"), "Epoch 18 (Global 907), Batch 3: loss = 4.1234");
    assert_eq!(
        console_line(9, 87, 4, 300, "4.1234", "3.00e-4", 75, 3661),
        format!("Epoch {:>2}L (Global {:>4}) | {:>3}/{} | Loss: {} | LR: {} | {:>3}ms | ETA {:02}:{:02}",
            9, 87, 4, 300, "4.1234", "3.00e-4", 75, 61, 1)
    );
    assert_eq!(
        console_line(109, 12345, 1004, 3, "l", "r", 1075, 0),
        "Epoch 109L (Global 12345) | 1004/3 | Loss: l | LR: r | 1075ms | ETA 00:00"
    );
    assert_eq!(
        critical_line("inf", "11.0", 9),
        "[CRITICAL] loss=inf > 11.0 at step=9 — explosion, skipping accumulation window"
    );
    assert_eq!(grad_line(10, "0.5000", &texts(&["1e-3", "2e-3"])), "GRAD step=10 n=0.5000 L=1e-3,2e-3");
    assert_eq!(memory_line(4, 1, 2, 3), "GPUMEM step=4 used=1MB free=2MB total=3MB");
    assert_eq!(route_line(10, &texts(&["0.100", "0.900"])), "ROUTE step=10 E=0.100,0.900");
    assert_eq!(entropy_line(10, "2.4000"), "ENTR step=10 avg=2.4000");
    assert_eq!(balance_line(10, "1.0000"), "LB step=10 val=1.0000");
    assert_eq!(cord_line(1, &texts(&["0.5"]), &texts(&[])), "CORD step=1 gate=[0.5] cos=[]");
    assert_eq!(div_line(1, "5.00e-2", &texts(&["0.1"])), "DIV step=1 w=5.00e-2 L=0.1");
    assert_eq!(div_weights_line(1, &texts(&["a", "b"])), "DIVF32 step=1 L=a,b");
    assert_eq!(div_grads_line(1, &texts(&["a"])), "DIVGRAD step=1 L=a");
    assert_eq!(decay_line(1, &texts(&["a/b/c", "d"])), "DIVWD step=1 grad/wdequiv/ratio=a/b/c,d");
    assert_eq!(tele_line(2, &texts(&["0.1", "0.2"]), &texts(&["1.0"])), "TELE L=2 S=0.1,0.2 E=1.0");
}

#[test]
fn a_route_line_reads_back() {
    let line = route_line(123, &texts(&["0.250", "0.750"]));
    let rest = line.strip_prefix("ROUTE step=").unwrap();
    let (step, list) = rest.split_once(" E=").unwrap();
    assert_eq!(step.parse::<usize>(), Ok(123));
    assert_eq!(list.split(',').collect::<Vec<_>>(), vec!["0.250", "0.750"]);
}

#[test]
fn freeze_lines_have_their_form() {
    assert_eq!(
        freeze_line(7, 3, "n", "b", "r", "l", 57),
        "TTLFREEZE step=7 layer=3 grad=n baseline=b ratio=r lr=l freeze_end=57"
    );
    assert_eq!(freeze_limit_line(7, 3, 5), "TTLFREEZE WARN step=7 layer=3 max_bursts_reached=5");
    assert_eq!(
        freeze_skip_line(7, 3, "n", "b", "r"),
        "TTLFREEZE SKIP step=7 layer=3 grad=n baseline=b ratio=r"
    );
    assert_eq!(
        cascade_line(3, 2, "1e-3", "2e-3", "+100"),
        "TTLFREEZE CASCADE layer=L3 events=2 L0-L3_pre=1e-3 post=2e-3 (+100%)"
    );
}

#[test]
fn epoch_lines_have_their_form() {
    assert_eq!(
        epoch_line(9, "4.5", 1, 2, 61),
        "=== Epoch 9L done | Avg Loss: 4.5 | Clipped: 1 | Skipped: 2 | 01:01 elapsed ==="
    );
    assert_eq!(balance_off_line(5), "[lb] disabled epoch=5");
    assert_eq!(balance_on_line("3.000e-2", 5), "[lb] active weight=3.000e-2 epoch=5");
    assert_eq!(
        dominance_line(4, "71.2", 3),
        "[lb] WARNING: Expert 4 dominated routing 71.2% for 3 consecutive epochs — collapse risk"
    );
    assert_eq!(
        mycelium_line(5, 1, 2, 3, 4, 0, &texts(&["0.1", "0.2"]), 6),
        "MYCELIUM epoch=5 dead=1 vestigial=2 blooming=3 hot=L4 cold=L0 pressure=[0.1,0.2] myc_stable=6"
    );
    assert_eq!(best_line(5, "4.5", "0.1", "c"), "ATL_BEST epoch=5 loss=4.5 improvement=0.1 c");
    assert_eq!(rollback_line(2, "11.5", "p"), "COLLAPSE_ROLLBACK streak=2 avg=11.5 src=p");
    assert_eq!(
        gate_line(5, "nan", "0.0100", 34, 30, 2, 13),
        "GATE epoch=5 smoothed_delta=nan threshold=0.0100 window=34 filled=30 myc_stable=2 myc_thresh=13"
    );
    let s = Summary {
        epoch: 5,
        loss: "4.5".to_string(),
        change: "-0.1".to_string(),
        best: "4.4".to_string(),
        since_best: 3,
        severity: "0.9".to_string(),
        fill: "50.0".to_string(),
        freezes: 6,
        frozen: "L0x5,L1x1".to_string(),
        norms: texts(&["a", "b", "c", "d"]),
        hot: 4,
        cold: 0,
        tensors: 99,
    };
    assert_eq!(
        summary_line(&s),
        "EPOCH_SUMMARY epoch=5 loss_avg=4.5 (d-0.1) loss_best=4.4 since_best=3 wald_sev=0.9 \
         wald_fill=50.0% ttlfreeze=6 (L0x5,L1x1) myc_L0-L3=[a/b/c/d] hot=L4 cold=L0 tns=99"
    );
}

#[test]
fn the_banner_describes_the_run() {
    let lb = balance_banner(0.03f64.to_bits(), "3.000e-2", 5);
    assert_eq!(lb, "[lb] active weight=3.000e-2 ramp_epochs=5");
    assert_eq!(
        balance_banner(0, "0.000e0", 5),
        "[lb] disabled — LB gradient will NOT flow this run"
    );
    let div = divergence_banner(false, "5.00e-2", "5.00e-2", "1.00e-4");
    assert_eq!(
        div,
        "[divloss] enabled weight=5.00e-2 (decay 5.00e-2->1.00e-4 epochs 105-124)"
    );
    assert_eq!(
        divergence_banner(true, "1.00e-3", "", ""),
        "[divloss] enabled weight=1.00e-3 (OVERRIDE — schedule bypassed)"
    );
    assert_eq!(
        banner("0.02", 50, "5", &lb, &div),
        "[ttlfreeze] enabled\n\
         [ttlfreeze]   ema_alpha=0.02 (effective window ~50 steps)\n\
         [ttlfreeze]   burst_threshold=5x baseline\n\
         [ttlfreeze]   freeze_steps=50\n\
         [ttlfreeze]   max_bursts_per_epoch_per_layer=5\n\
         [ttlfreeze]   ema_init=bootstrap_to_first_observation\n\
         [lb] active weight=3.000e-2 ramp_epochs=5\n\
         [divloss] enabled weight=5.00e-2 (decay 5.00e-2->1.00e-4 epochs 105-124)"
    );
}

#[test]
fn lights_are_written_and_kept() {
    let light = |g: usize, s: &str| Light { green: g, orange: 1, red: 2, state: s.to_string() };
    let lights = vec![light(3, "GOR"), light(4, "RRR"), light(5, "OOO")];
    assert_eq!(
        lights_line(7, &lights),
        "TLIGHT step=7 L0:GOR(G3/O1/R2) L1:RRR(G4/O1/R2) L2:OOO(G5/O1/R2)"
    );
    let mut states = texts(&["", ""]);
    keep_states(&mut states, &lights);
    assert_eq!(states, vec!["GOR", "RRR"]);
    keep_states(&mut states, &vec![light(0, "X")]);
    assert_eq!(states, vec!["X", "RRR"]);
}

#[test]
fn memory_reports_are_parsed() {
    assert_eq!(parse_memory("100, 200, 300\n1, 2, 3\n"), Some((100, 200, 300)));
    assert_eq!(parse_memory("100,200 ,\t300\r\n"), Some((100, 200, 300)));
    assert_eq!(parse_memory("1,2,3,x"), Some((1, 2, 3)));
    assert_eq!(parse_memory("1,2"), None);
    assert_eq!(parse_memory("1,[N/A],3"), None);
    assert_eq!(parse_memory(""), None);
}

#[test]
fn sparsity_is_counted_by_layer() {
    let mut s = Sparsity::new(2);
    let bits = |v: &[f32]| v.iter().map(|x| x.to_bits()).collect::<Vec<u32>>();
    assert_eq!(f32::from_bits(ZERO_WEIGHT), 0.1);
    s.add_weights(1, &bits(&[0.0, -0.0, 0.09, -0.09, 0.1, -0.1, 2.0]));
    s.add_weights(1, &bits(&[f32::NAN, -f32::NAN, f32::INFINITY, 1e-40]));
    assert_eq!(s.counts(0), (0, 0));
    assert_eq!(s.counts(1), (5, 11));
    assert_eq!(sparsity_slot("blocks.1.ln1.weight", 2), Some(1));
    assert_eq!(sparsity_slot("blocks.2.ln1.weight", 2), None);
    assert_eq!(sparsity_slot("blocks.1.ln1.bias", 2), None);
}

#[test]
fn files_lie_under_the_root() {
    let p = paths("/r");
    assert_eq!(p.vocab, "/r/data/vocab_v3.json");
    assert_eq!(p.config, "/r/models/albert_v3.0.config.json");
    assert_eq!(p.checkpoint, "/r/models/albert_v3.0.safetensors");
    assert_eq!(p.best, "/r/models/albert_v3.0.best.safetensors");
    assert_eq!(p.meta, "/r/models/albert_v3.0.meta");
    assert_eq!(p.best_loss, "/r/models/albert_v3.0.best_loss");
    assert_eq!(p.best_epoch, "/r/models/albert_v3.0.best_epoch");
    assert_eq!(p.evolution, "/r/models/albert_v3.0.evolution");
    assert_eq!(p.spore_state, "/r/models/albert_v3.0.spore_state");
    assert_eq!(p.serving, "/r/models/albert_v3.0_serving.safetensors");
    assert_eq!(p.serving_tmp, "/r/models/albert_v3.0_serving.safetensors.tmp");
    assert_eq!(p.hot_reload, "/r/models/.hot_reload");
    assert_eq!(p.corpus, "/r/data/corpus");
    assert_eq!(p.cache, "/r/data/corpus_cache.bin");
    assert_eq!(watched("/r")[4], "/r/data/chaos");
    assert_eq!(watched("/r").len(), 5);
    assert_eq!(extra_corpora(), vec!["multilingual", "academic", "fulltext", "chaos"]);
    assert_eq!(archive_path("/r", 9), "/r/models/albert_v3.0.best.9L.safetensors");
    assert_eq!(cord_source(&p, true), p.best);
    assert_eq!(cord_source(&p, false), p.checkpoint);
    assert_eq!(cord_archive_path("/r", 25), "/r/models/albert_v3.0.best.25L.pre_cord.safetensors");
}

#[test]
fn the_log_lies_under_the_home() {
    let home = Some("/home/a".to_string());
    assert_eq!(log_path(&home, "/r"), "/home/a/.albert/training.log");
    assert_eq!(log_path(&None, "/r"), "/r/dashboard/training.log");
    assert_eq!(history_path("/home/a/.albert/training.log"), "/home/a/.albert/epoch_history.log");
}

#[test]
fn spores_are_looked_for_at_home() {
    let home = Some("/home/a".to_string());
    assert_eq!(spores_dir("none", &home), "");
    assert_eq!(spores_dir("", &home), "/home/a/projects/albert-spores/spores");
    assert_eq!(spores_dir("", &None), "");
    assert_eq!(spores_dir("/s", &home), "/s");
}
