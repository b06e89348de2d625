use albert_train::checkpoint::{find_tensor, load_plan, Origin, Planned, TensorInfo};
use albert_train::config::{ConfigDoc, ConfigError};
use albert_train::cord::{cord_texts, perform_cord_surgery, Cord};
use albert_train::growth::{nudge_rows, perform_surgery, Growth, SurgeryError};
use albert_train::resurrection::{plan_resurrection, ResurrectionJob};
use albert_train::shape::{
    depth_after_surgery, next_move, read_architecture, starting_shape, Move,
};

fn tensor(name: &str, dims: &[usize]) -> TensorInfo {
    TensorInfo { name: name.to_string(), dims: dims.to_vec() }
}

fn tensors(names: &[&str]) -> Vec<TensorInfo> {
    names.iter().map(|n| tensor(n, &[4, 2])).collect()
}

fn planned<'a>(plan: &'a [Planned], name: &str) -> &'a Planned {
    plan.iter().find(|p| p.name == name).unwrap()
}

fn names(plan: &[Planned]) -> Vec<String> {
    let mut out: Vec<String> = plan.iter().map(|p| p.name.clone()).collect();
    out.sort();
    out
}

#[test]
fn a_single_stream_model_grows_by_a_copy_of_its_last_layer() {
    let t = tensors(&["embed.weight", "blocks.0.moe.gate.weight", "blocks.1.moe.gate.weight"]);
    let config = r#"{"num_layers": 2, "note": "kept"}"#;
    let Ok(Growth::Grown { plan, depth, dual, config: text }) =
        perform_surgery(config, &t, Some(4))
    else {
        panic!("no growth");
    };
    assert_eq!((depth, dual), (2, false));
    assert_eq!(
        names(&plan),
        vec![
            "blocks.0.moe.gate.weight",
            "blocks.1.moe.gate.weight",
            "blocks.2.moe.gate.weight",
            "embed.weight"
        ]
    );
    let new = planned(&plan, "blocks.2.moe.gate.weight");
    assert_eq!(new.origin, Origin::Copied(2));
    assert_eq!(new.latitude, Some(2));
    assert!(new.nudged);
    let old = planned(&plan, "blocks.1.moe.gate.weight");
    assert_eq!((old.origin, old.latitude, old.nudged), (Origin::Copied(2), None, false));
    let value: serde_json::Value = serde_json::from_str(&text).unwrap();
    assert_eq!(value["num_layers"].as_u64(), Some(3));
    assert_eq!(value["note"].as_str(), Some("kept"));
    assert!(value["fusion_layers"].is_null());
}

#[test]
fn surgeries_leave_the_other_members_as_they_are() {
    let config = r#"{"num_layers": 3, "hidden_size": 8, "name": "v3.0 \"x\"", "rate": 0.25,
        "tied": true, "none": null, "nested": {"b": [1, -2, "e"], "a": {}}}"#;
    let t = tensors(&["blocks.2.ln1.weight"]);
    let before: serde_json::Value = serde_json::from_str(config).unwrap();
    let Ok(Growth::Grown { config: grown, .. }) = perform_surgery(config, &t, None) else {
        panic!("no growth");
    };
    let Ok(Cord::Corded { config: corded, .. }) = perform_cord_surgery(config, &t) else {
        panic!("no surgery");
    };
    for (text, set) in [(grown, vec!["num_layers"]), (corded, vec!["num_streams", "fusion_layers"])] {
        let after: serde_json::Value = serde_json::from_str(&text).unwrap();
        assert_eq!(text, serde_json::to_string_pretty(&after).unwrap());
        for (k, v) in before.as_object().unwrap() {
            if !set.contains(&k.as_str()) {
                assert_eq!(&after[k], v);
            }
        }
        for k in after.as_object().unwrap().keys() {
            assert!(before.get(k).is_some() || set.contains(&k.as_str()));
        }
    }
}

#[test]
fn a_router_of_another_size_is_not_tilted() {
    let t = tensors(&["blocks.0.moe.gate.weight"]);
    for nudge in [None, Some(5)] {
        let Ok(Growth::Grown { plan, .. }) = perform_surgery(r#"{"num_layers": 1}"#, &t, nudge) else {
            panic!("no growth");
        };
        assert!(!planned(&plan, "blocks.1.moe.gate.weight").nudged);
    }
}

#[test]
fn a_dual_stream_model_grows_in_both_streams_and_gets_a_gate() {
    let t = tensors(&[
        "blocks.1.stream_a.moe.gate.weight",
        "blocks.1.stream_b.moe.gate.weight",
        "blocks.1.experts.0.c_fc.weight",
    ]);
    let config = r#"{"num_layers": 2, "num_streams": 2, "hidden_size": 8}"#;
    let Ok(Growth::Grown { plan, config: text, .. }) = perform_surgery(config, &t, None) else {
        panic!("no growth");
    };
    assert_eq!(planned(&plan, "blocks.2.stream_a.moe.gate.weight").latitude, Some(2));
    assert_eq!(planned(&plan, "blocks.2.stream_b.moe.gate.weight").latitude, Some(1002));
    assert_eq!(planned(&plan, "blocks.2.experts.0.c_fc.weight").latitude, None);
    assert_eq!(planned(&plan, "anastomosis.0.gate.weight").origin, Origin::GateWeight(16));
    assert_eq!(planned(&plan, "anastomosis.0.gate.bias").origin, Origin::GateBias);
    assert_eq!(plan.len(), 8);
    let value: serde_json::Value = serde_json::from_str(&text).unwrap();
    assert_eq!(value["num_layers"].as_u64(), Some(3));
    assert_eq!(value["fusion_layers"][0].as_u64(), Some(2));
}

#[test]
fn a_dual_stream_surgery_without_streams_aborts() {
    let t = tensors(&["blocks.1.moe.gate.weight"]);
    let config = r#"{"num_layers": 2, "num_streams": 2, "hidden_size": 8}"#;
    assert!(matches!(perform_surgery(config, &t, None), Ok(Growth::Aborted { depth: 2 })));
}

#[test]
fn surgeries_fail_on_bad_configurations() {
    let t = tensors(&["blocks.1.stream_a.ln1.weight"]);
    let fails = |config: &str| match perform_surgery(config, &t, None) {
        Err(e) => e,
        Ok(_) => panic!("no failure"),
    };
    assert_eq!(fails("{"), SurgeryError::NotJson);
    assert_eq!(fails("{}"), SurgeryError::MissingNumber);
    assert_eq!(fails(r#"{"num_layers": -2}"#), SurgeryError::MissingNumber);
    assert_eq!(fails(r#"{"num_layers": 0}"#), SurgeryError::OutOfRange);
    assert_eq!(fails(r#"{"num_layers": 2, "num_streams": 2}"#), SurgeryError::MissingNumber);
    let cord = |config: &str| match perform_cord_surgery(config, &t) {
        Err(e) => e,
        Ok(_) => panic!("no failure"),
    };
    assert_eq!(cord("x"), SurgeryError::NotJson);
    assert_eq!(cord(r#"{"num_layers": 3}"#), SurgeryError::MissingNumber);
}

#[test]
fn a_cord_surgery_splits_the_streams_once() {
    let t = tensors(&[
        "embed.weight",
        "blocks.0.attn.q.weight",
        "blocks.0.moe.gate.weight",
        "blocks.0.moe.experts.1.c_fc.weight",
        "blocks.9.ln1.weight",
    ]);
    let config = r#"{"num_layers": 3, "hidden_size": 256}"#;
    let Ok(Cord::Corded { plan, depth, config: text }) = perform_cord_surgery(config, &t) else {
        panic!("no surgery");
    };
    assert_eq!(depth, 3);
    assert_eq!(
        names(&plan),
        vec![
            "anastomosis.0.gate.bias",
            "anastomosis.0.gate.weight",
            "blocks.0.experts.1.c_fc.weight",
            "blocks.0.stream_a.attn.q.weight",
            "blocks.0.stream_a.moe.gate.weight",
            "blocks.0.stream_b.attn.q.weight",
            "blocks.0.stream_b.moe.gate.weight",
            "blocks.9.ln1.weight",
            "embed.weight"
        ]
    );
    assert_eq!(planned(&plan, "blocks.0.stream_b.attn.q.weight").latitude, Some(53));
    assert_eq!(planned(&plan, "blocks.0.stream_a.attn.q.weight").latitude, None);
    assert_eq!(planned(&plan, "anastomosis.0.gate.weight").origin, Origin::GateWeight(512));
    let value: serde_json::Value = serde_json::from_str(&text).unwrap();
    assert_eq!(value["num_streams"].as_u64(), Some(2));
    assert_eq!(value["fusion_layers"].as_array().unwrap().len(), 1);
    assert!(matches!(perform_cord_surgery(&text, &t), Ok(Cord::AlreadyApplied)));
    assert_eq!(cord_texts(&"lm_head.weight".to_string(), 3), vec!["lm_head.weight"]);
}

#[test]
fn a_checkpoint_is_loaded_by_name_and_shape() {
    let vars = vec![tensor("a", &[2, 3]), tensor("b", &[2]), tensor("c", &[1])];
    let saved = vec![tensor("c", &[1]), tensor("a", &[3, 2]), tensor("b", &[2])];
    let (plan, loaded) = load_plan(&vars, &saved);
    assert_eq!(plan, vec![None, Some(2), Some(0)]);
    assert_eq!(loaded, 2);
    assert_eq!(find_tensor(&saved, &"a".to_string()), Some(1));
    assert_eq!(find_tensor(&saved, &"d".to_string()), None);
}

#[test]
fn a_dead_expert_is_written_from_its_seed() {
    let names: Vec<String> = vec![
        "blocks.1.moe.experts.0.c_fc.weight".to_string(),
        "blocks.1.moe.experts.2.c_fc.weight".to_string(),
        "blocks.10.moe.experts.0.c_fc.weight".to_string(),
    ];
    let jobs = vec![
        ResurrectionJob { layer: 1, dead_expert: 3, seed_expert: 0 },
        ResurrectionJob { layer: 1, dead_expert: 2, seed_expert: 3 },
    ];
    let copies = plan_resurrection(&names, &jobs);
    assert_eq!(
        copies[0],
        vec![(
            "blocks.1.moe.experts.0.c_fc.weight".to_string(),
            "blocks.1.moe.experts.3.c_fc.weight".to_string()
        )]
    );
    assert_eq!(
        copies[1],
        vec![(
            "blocks.1.moe.experts.3.c_fc.weight".to_string(),
            "blocks.1.moe.experts.2.c_fc.weight".to_string()
        )]
    );
}

#[test]
fn configurations_are_read_and_written() {
    assert_eq!(ConfigDoc::parse("[1, 2").err(), Some(ConfigError::NotJson));
    let mut doc =
        ConfigDoc::parse(r#"{"a": 1, "b": -1, "c": "x", "d": [3, "y", 5], "e": 1.5}"#).ok().unwrap();
    assert_eq!(doc.number("a"), Some(1));
    assert_eq!(doc.number("b"), None);
    assert_eq!(doc.number("c"), None);
    assert_eq!(doc.number("e"), None);
    assert_eq!(doc.number_or("z", 7), 7);
    assert_eq!(doc.numbers("d"), vec![3, 5]);
    assert_eq!(doc.numbers("a"), Vec::<usize>::new());
    doc.set_number("b", 8);
    doc.set_list("a", &vec![2, 3]);
    let again = ConfigDoc::parse(&doc.render()).ok().unwrap();
    assert_eq!(again.number("b"), Some(8));
    assert_eq!(again.number("a"), None);
    assert_eq!(again.numbers("a"), vec![2, 3]);
    assert_eq!(again.numbers("d"), vec![3, 5]);
    let scalar = ConfigDoc::parse("5").ok().unwrap();
    assert_eq!(scalar.number("a"), None);
}

#[test]
fn architectures_are_read() {
    let text = r#"{"hidden_size": 256, "num_layers": 5, "num_heads": 8, "max_seq_len": 512,
        "num_experts": 12, "fusion_layers": [2, 3]}"#;
    let a = read_architecture(text).ok().unwrap();
    assert_eq!((a.hidden_size, a.num_layers, a.num_heads), (256, 5, 8));
    assert_eq!((a.max_seq_len, a.num_experts, a.num_streams), (512, 12, 1));
    assert_eq!(a.fusion_layers, vec![2, 3]);
    assert_eq!(read_architecture("{}").err(), Some(ConfigError::MissingNumber));
    assert_eq!(read_architecture("").err(), Some(ConfigError::NotJson));
}

#[test]
fn missing_configurations_have_defaults() {
    assert_eq!(starting_shape(&None), (3, 256));
    assert_eq!(starting_shape(&Some("{".to_string())), (3, 256));
    assert_eq!(starting_shape(&Some(r#"{"num_layers": 9}"#.to_string())), (9, 256));
    assert_eq!(depth_after_surgery(&None), 0);
    assert_eq!(depth_after_surgery(&Some(r#"{"num_layers": 9}"#.to_string())), 9);
}

#[test]
fn a_deep_single_stream_model_is_split_then_trained() {
    assert_eq!(next_move(&None), Move::Train { num_layers: 3, num_experts: 12 });
    let text = r#"{"num_layers": 25, "hidden_size": 256, "num_experts": 6}"#.to_string();
    assert_eq!(next_move(&Some(text.clone())), Move::Cord(25));
    let Ok(Cord::Corded { config, .. }) = perform_cord_surgery(&text, &Vec::new()) else {
        panic!("no surgery");
    };
    assert_eq!(next_move(&Some(config)), Move::Train { num_layers: 25, num_experts: 6 });
    let shallow = r#"{"num_layers": 24}"#.to_string();
    assert_eq!(next_move(&Some(shallow)), Move::Train { num_layers: 24, num_experts: 12 });
}

#[test]
fn a_router_is_tilted_only_by_credit() {
    let bits = |v: &[f32]| v.iter().map(|x| x.to_bits()).collect::<Vec<u32>>();
    assert_eq!(nudge_rows(&bits(&[0.0, 0.5, -1.0]), 0.2f32.to_bits()), Some(3));
    assert_eq!(nudge_rows(&bits(&[0.0, -0.0]), 0.2f32.to_bits()), None);
    assert_eq!(nudge_rows(&bits(&[]), 0.2f32.to_bits()), None);
    assert_eq!(nudge_rows(&bits(&[1.0]), 0.0f32.to_bits()), None);
    assert_eq!(nudge_rows(&bits(&[1.0]), (-0.5f32).to_bits()), None);
}
