use ggca::correlation::CorResult;
use ggca::double::Double;
use ggca::error::AnalysisError;
use ggca::state::ResultState;
use std::cmp::Ordering;

fn d(x: f64) -> Double {
    Double::from_bits(x.to_bits())
}

fn sample() -> CorResult {
    CorResult::new(
        String::from("BRCA1"),
        String::from("hsa-miR-21"),
        Some(String::from("cg00000029")),
        Some(d(-0.75)),
        Some(d(0.002)),
        None,
    )
}

#[test]
fn state_holds_each_field_as_bincode_writes_it() {
    let state = sample().get_state();
    assert_eq!(state.gene, bincode::serialize(&String::from("BRCA1")).unwrap());
    assert_eq!(state.gem, bincode::serialize(&String::from("hsa-miR-21")).unwrap());
    assert_eq!(state.cpg_site_id, bincode::serialize(&Some(String::from("cg00000029"))).unwrap());
    assert_eq!(state.correlation, bincode::serialize(&Some(-0.75f64)).unwrap());
    assert_eq!(state.p_value, bincode::serialize(&Some(0.002f64)).unwrap());
    assert_eq!(state.adjusted_p_value, bincode::serialize(&None::<f64>).unwrap());
}

#[test]
fn state_of_the_placeholder() {
    let state = CorResult::empty().get_state();
    assert_eq!(state.gene, vec![0u8; 8]);
    assert_eq!(state.gem, vec![0u8; 8]);
    assert_eq!(state.cpg_site_id, vec![0u8]);
    assert_eq!(state.correlation, vec![0u8]);
    assert_eq!(state.p_value, vec![0u8]);
    assert_eq!(state.adjusted_p_value, vec![0u8]);
}

#[test]
fn set_state_restores_what_get_state_gave() {
    for result in [sample(), CorResult::empty()] {
        let state = result.get_state();
        let mut restored = CorResult::new(
            String::from("other"),
            String::from("other"),
            Some(String::from("other")),
            Some(d(0.1)),
            Some(d(0.2)),
            Some(d(0.3)),
        );
        assert_eq!(restored.set_state(&state), Ok(()));
        assert_eq!(restored, result);
    }
}

#[test]
fn set_state_ignores_bytes_behind_a_field() {
    let mut state = sample().get_state();
    state.gene.extend_from_slice(&[1, 2, 3]);
    state.adjusted_p_value.push(9);
    let mut restored = CorResult::empty();
    assert_eq!(restored.set_state(&state), Ok(()));
    assert_eq!(restored, sample());
}

#[test]
fn set_state_leaves_the_result_on_malformed_bytes() {
    let broken: Vec<Box<dyn Fn(&mut ResultState)>> = vec![
        Box::new(|state| state.gene.truncate(3)),
        Box::new(|state| state.gem.clear()),
        Box::new(|state| state.cpg_site_id[0] = 2),
        Box::new(|state| state.correlation.truncate(5)),
        Box::new(|state| state.p_value[0] = 3),
        Box::new(|state| state.adjusted_p_value.clear()),
        Box::new(|state| state.gene[8] = 0xFF),
    ];
    for damage in broken {
        let mut state = sample().get_state();
        damage(&mut state);
        let mut result = CorResult::empty();
        assert_eq!(result.set_state(&state), Err(AnalysisError::MalformedEncoding));
        assert_eq!(result, CorResult::empty());
    }
}

#[test]
fn results_are_ordered_by_their_p_values() {
    let lower = CorResult::new(String::from("a"), String::from("m"), None, None, Some(d(0.01)), None);
    let upper = CorResult::new(String::from("b"), String::from("m"), None, None, Some(d(0.03)), None);
    let same = CorResult::new(String::from("c"), String::from("m"), None, None, Some(d(0.03)), None);
    assert_eq!(lower.compare_by_p_value(&upper), Ordering::Less);
    assert_eq!(upper.compare_by_p_value(&lower), Ordering::Greater);
    assert_eq!(upper.compare_by_p_value(&same), Ordering::Equal);
    assert_eq!(lower.compare_by_p_value(&lower), Ordering::Equal);
    let mut results = vec![upper.clone(), lower.clone(), same.clone()];
    results.sort_by(|a, b| a.compare_by_p_value(b));
    assert_eq!(results, vec![lower, upper, same]);
}
