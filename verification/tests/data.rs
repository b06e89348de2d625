use albert_train::checkpoint::TensorInfo;
use albert_train::corpus::{
    cache_valid, decode_cache, encode_cache, is_text_file, open_cache, select_stages, stage_of,
    CacheUse, Corpus,
};
use albert_train::names::{
    block_index, expert_index, expert_mass_slot, expert_prefix_text, expert_weight_slot, grad_slot,
    layer_slot,
};
use albert_train::numerals::{decimal_text, parse_u32, parse_u64, parse_usize};
use albert_train::sampling::{draw_batch, sample_at};
use albert_train::seeding::{
    draw_pairs, expert_matrices, expert_tensors, plan_seeding, routers, varies_too_little, SeedOnce, Turn,
    MIN_VARIANCE,
};
use albert_train::text::{join_texts, replace_text, split_chars};

fn chars(s: &str) -> Vec<char> {
    s.chars().collect()
}

#[test]
fn numbers_are_parsed_as_the_language_does() {
    for s in ["0", "+5", "007", "4294967295", "4294967296", "18446744073709551615", "", "+", "-1",
        "1 ", "18446744073709551616", "99999999999999999999999", "1_0", "٣"]
    {
        assert_eq!(parse_u64(&chars(s)), s.parse::<u64>().ok(), "{s}");
        assert_eq!(parse_u32(&chars(s)), s.parse::<u32>().ok(), "{s}");
        assert_eq!(parse_usize(&chars(s)), s.parse::<usize>().ok(), "{s}");
    }
    for n in [0, 9, 10, 1234567890, u64::MAX] {
        assert_eq!(decimal_text(n), n.to_string());
    }
}

#[test]
fn texts_are_split_joined_and_replaced() {
    let parts: Vec<String> =
        split_chars(&chars("a,,b,"), ',').iter().map(|p| p.iter().collect()).collect();
    assert_eq!(parts, vec!["a", "", "b", ""]);
    assert_eq!(join_texts(&parts, ","), "a,,b,");
    assert_eq!(replace_text("aXbXX", "X", "yz"), "aXbXX".replace("X", "yz"));
    assert_eq!(replace_text("aaa", "aa", "b"), "aaa".replace("aa", "b"));
}

#[test]
fn names_tell_layers_and_experts() {
    assert_eq!(layer_slot("blocks.7.ln1.weight", 8), Some(7));
    assert_eq!(layer_slot("blocks.8.ln1.weight", 8), None);
    assert_eq!(layer_slot("blocks.x.ln1.weight", 8), None);
    assert_eq!(block_index("blocks.07.ln1", 8), None);
    assert_eq!(block_index("blocks.7.ln1", 8), Some(7));
    assert_eq!(grad_slot("blocks.2.x", 3), Some(2));
    assert_eq!(grad_slot("blocks.3.x", 3), None);
    assert_eq!(grad_slot("embed.weight", 3), Some(3));
    assert_eq!(grad_slot("lm_head.weight", 3), Some(4));
    assert_eq!(grad_slot("ln_f.weight", 3), None);
    assert_eq!(expert_index("blocks.2.moe.experts.11.c_fc.weight"), Some(11));
    assert_eq!(expert_index("blocks.2.moe.gate.weight"), None);
    assert_eq!(expert_mass_slot("blocks.2.experts.4.c_fc.weight", 12), Some(4));
    assert_eq!(expert_mass_slot("blocks.2.experts.4.c_fc.bias", 12), None);
    assert_eq!(expert_prefix_text(3, 10), "blocks.3.moe.experts.10.");
}

#[test]
fn expert_matrices_are_told_apart() {
    let slot = |n: &str| expert_weight_slot(n, 4, 12);
    assert_eq!(slot("blocks.3.moe.experts.5.c_fc.weight"), Some((3, 5)));
    assert_eq!(slot("blocks.3.stream_b.moe.experts.5.c_proj.weight"), Some((3, 5)));
    assert_eq!(slot("blocks.3.moe.experts.5.c_fc.bias"), None);
    assert_eq!(slot("blocks.3.moe.experts.5.ln.weight"), None);
    assert_eq!(slot("blocks.3.stream_c.moe.experts.5.c_fc.weight"), None);
    assert_eq!(slot("blocks.4.moe.experts.5.c_fc.weight"), None);
    assert_eq!(slot("blocks.3.moe.experts.12.c_fc.weight"), None);
}

#[test]
fn stages_are_chosen_by_depth() {
    assert_eq!(stage_of("stage_11"), Some(11));
    assert_eq!(stage_of("stage_"), None);
    assert_eq!(stage_of("chaos"), None);
    let names: Vec<String> =
        ["stage_9", "chaos", "stage_3", "stage_11", "stage_6", "stage_03"].map(String::from).to_vec();
    assert_eq!(select_stages(&names, 9), vec![(3, 2), (3, 5), (6, 4), (9, 0)]);
    assert_eq!(select_stages(&names, 2), vec![]);
    assert!(is_text_file("bible.txt"));
    assert!(!is_text_file(".txt"));
    assert!(!is_text_file("bible.md"));
    let mut corpus = Corpus::new();
    assert!(!corpus.has_stages());
    corpus.add_file(vec![1, 2]);
    corpus.add_file(vec![]);
    corpus.add_file(vec![3]);
    assert!(corpus.has_stages());
    assert_eq!(corpus.into_tokens(), vec![1, 2, 3]);
}

#[test]
fn the_cache_gives_the_corpus_back() {
    let tokens = vec![0, 1, 0x0102_0304, u32::MAX];
    let bytes = encode_cache(9, &tokens);
    assert_eq!(&bytes[..8], &[9, 0, 0, 0, 0, 0, 0, 0]);
    assert_eq!(&bytes[12..16], &[4, 3, 2, 1]);
    assert_eq!(decode_cache(&bytes), Some(tokens.clone()));
    match open_cache(&bytes, 9, 100, &vec![99, 100]) {
        CacheUse::Hit(t) => assert_eq!(t, tokens),
        _ => panic!("no hit"),
    }
}

#[test]
fn a_stale_or_broken_cache_is_not_used() {
    let bytes = encode_cache(9, &vec![1, 2]);
    assert!(matches!(open_cache(&bytes, 10, 100, &vec![]), CacheUse::Stale));
    assert!(matches!(open_cache(&bytes, 9, 100, &vec![50, 101]), CacheUse::Stale));
    assert!(matches!(open_cache(&vec![9, 0, 0], 9, 100, &vec![]), CacheUse::Stale));
    assert!(matches!(open_cache(&bytes[..4].to_vec(), 9, 100, &vec![]), CacheUse::Corrupt));
    assert!(matches!(open_cache(&bytes[..7].to_vec(), 9, 100, &vec![]), CacheUse::Corrupt));
    assert!(cache_valid(&bytes, 9, 100, &vec![]));
    assert_eq!(decode_cache(&vec![]), None);
}

#[test]
fn samples_are_windows_of_the_corpus() {
    let tokens: Vec<u32> = (0..20).collect();
    let s = sample_at(&tokens, 4, 15 + 3);
    assert_eq!(s.input, vec![3, 4, 5, 6]);
    assert_eq!(s.target, vec![4, 5, 6, 7]);
    let last = sample_at(&tokens, 4, 14);
    assert_eq!(last.target, vec![15, 16, 17, 18]);
    let small = sample_at(&tokens, 18, usize::MAX);
    assert_eq!(small.input[0], 0);
}

#[test]
fn batches_are_drawn_at_random() {
    let tokens: Vec<u32> = (0..100_000).collect();
    let batch = draw_batch(&tokens, 8, 64);
    assert_eq!(batch.len(), 64);
    for s in &batch {
        assert_eq!((s.input.len(), s.target.len()), (8, 8));
        for i in 0..8 {
            assert_eq!(s.input[i] + 1, s.target[i]);
        }
    }
    let first = batch[0].input[0];
    assert!(batch.iter().any(|s| s.input[0] != first));
}

#[test]
fn the_generator_is_linear_congruential() {
    let next = |s: u64| s.wrapping_mul(6364136223846793005).wrapping_add(1442695040888963407);
    let pairs = draw_pairs(5, 203);
    assert_eq!(pairs.len(), 3);
    let mut state = next(203);
    for (a, b) in pairs {
        state = next(state);
        assert_eq!(a, state >> 11);
        state = next(state);
        assert_eq!(b, state >> 11);
    }
    assert_eq!(draw_pairs(4, 1).len(), 2);
    assert_eq!(draw_pairs(0, 1).len(), 0);
    assert_eq!(draw_pairs(1, 0)[0].0, next(next(0)) >> 11);
}

fn tensor(name: &str, dims: &[usize]) -> TensorInfo {
    TensorInfo { name: name.to_string(), dims: dims.to_vec() }
}

#[test]
fn experts_are_seeded_by_name_and_shape() {
    let t = vec![
        tensor("blocks.1.moe.experts.0.c_fc.weight", &[8, 2]),
        tensor("blocks.0.moe.experts.1.c_proj.weight", &[2, 8]),
        tensor("blocks.0.moe.gate.weight", &[2, 2]),
        tensor("blocks.0.moe.experts.0.c_fc.bias", &[8]),
        tensor("blocks.0.moe.experts.0.c_fc.weight", &[8]),
        tensor("blocks.0.moe.experts.2.c_fc.weight", &[8, 2]),
        tensor("blocks.0.moe.experts.10.c_fc.weight", &[8, 2]),
    ];
    let plan = plan_seeding(&t, 2, 2);
    let seen: Vec<(usize, usize, usize, usize)> =
        plan.iter().map(|o| (o.layer, o.expert, o.seed, o.tensor)).collect();
    assert_eq!(seen, vec![(0, 0, 0, 3), (0, 0, 0, 4), (0, 1, 1, 1), (1, 0, 100, 0)]);
    let turns: Vec<Turn> = plan.iter().map(|o| o.turn).collect();
    assert_eq!(turns, vec![Turn::Neither, Turn::Neither, Turn::Columns, Turn::Rows]);
    assert_eq!(routers(&t), vec![2]);
    assert_eq!(expert_tensors(&t), vec![0, 1, 3, 4, 5, 6]);
}

#[test]
fn a_layer_is_measured_where_it_is_complete() {
    let t = vec![
        tensor("blocks.0.moe.experts.1.c_proj.weight", &[2, 8]),
        tensor("blocks.0.moe.experts.0.c_fc.weight", &[8, 2]),
        tensor("blocks.0.moe.experts.1.c_fc.weight", &[8, 2]),
        tensor("blocks.0.moe.experts.0.c_proj.weight", &[2, 8]),
    ];
    assert_eq!(expert_matrices(&t, 0, 2), Some(vec![(1, 3), (2, 0)]));
    assert_eq!(expert_matrices(&t, 0, 3), None);
    assert_eq!(expert_matrices(&t, 1, 0), Some(vec![]));
    assert_eq!(f32::from_bits(MIN_VARIANCE), 1e-3);
    assert!(varies_too_little(9e-4f32.to_bits()));
    assert!(!varies_too_little(1e-3f32.to_bits()));
    assert!(!varies_too_little(f32::NAN.to_bits()));
}

#[test]
fn experts_are_seeded_once_in_a_run() {
    let mut once = SeedOnce::new();
    assert!(!once.begin_cycle(false));
    assert!(once.begin_cycle(true));
    assert!(!once.begin_cycle(true));
}
