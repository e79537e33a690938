use ggca::correlation::{
    get_correlation_method, CorResult, Correlation, CorrelationMethod, Kendall, Pearson, Spearman,
};
use ggca::double::Double;
use ggca::error::{AnalysisError, ErrorKind};

fn d(x: f64) -> Double {
    Double::from_bits(x.to_bits())
}

fn sample_result() -> CorResult {
    CorResult::new(
        String::from("BRCA1"),
        String::from("hsa-miR-21"),
        Some(String::from("cg00000029")),
        Some(d(-0.75)),
        Some(d(0.002)),
        Some(d(0.01)),
    )
}

#[test]
fn new_keeps_the_six_fields() {
    let result = sample_result();
    assert_eq!(result.gene, "BRCA1");
    assert_eq!(result.gem, "hsa-miR-21");
    assert_eq!(result.cpg_site_id, Some(String::from("cg00000029")));
    assert_eq!(result.correlation, Some(d(-0.75)));
    assert_eq!(result.p_value, Some(d(0.002)));
    assert_eq!(result.adjusted_p_value, Some(d(0.01)));
}

#[test]
fn empty_is_the_placeholder() {
    let result = CorResult::empty();
    assert_eq!(result.gene, "");
    assert_eq!(result.gem, "");
    assert_eq!(result.cpg_site_id, None);
    assert_eq!(result.correlation, None);
    assert_eq!(result.p_value, None);
    assert_eq!(result.adjusted_p_value, None);
    assert!(!result.is_evaluated());
}

#[test]
fn clone_is_equal() {
    let result = sample_result();
    assert_eq!(result.clone(), result);
    assert_eq!(CorResult::empty().clone(), CorResult::empty());
}

#[test]
fn evaluated_populates_every_number() {
    let result = CorResult::evaluated(
        String::from("G"),
        String::from("M"),
        None,
        d(0.5),
        d(0.25),
    )
    .unwrap();
    assert_eq!(result.correlation, Some(d(0.5)));
    assert_eq!(result.p_value, Some(d(0.25)));
    assert_eq!(result.adjusted_p_value, Some(d(0.25)));
    assert!(result.is_evaluated());
}

#[test]
fn evaluated_takes_the_ends_of_both_ranges() {
    for (statistic, p_value) in [(-1.0, 0.0), (1.0, 1.0), (0.0, 0.5), (-0.0, -0.0)] {
        let made = CorResult::evaluated(
            String::from("G"),
            String::from("M"),
            None,
            d(statistic),
            d(p_value),
        );
        assert!(made.is_ok(), "{statistic} {p_value}");
    }
}

#[test]
fn evaluated_refuses_an_undefined_statistic() {
    for (statistic, p_value) in [
        (f64::NAN, 0.5),
        (0.5, f64::NAN),
        (1.0000000000000002, 0.5),
        (-1.5, 0.5),
        (0.5, -0.1),
        (0.5, 1.5),
        (f64::INFINITY, 0.5),
    ] {
        let made = CorResult::evaluated(
            String::from("G"),
            String::from("M"),
            None,
            d(statistic),
            d(p_value),
        );
        assert_eq!(made, Err(AnalysisError::UndefinedStatistic), "{statistic} {p_value}");
    }
}

#[test]
fn perfectly_correlated_vectors_give_an_evaluated_result() {
    // Pearson on [1,2,3,4,5] against itself: r is 1 and the p-value 0.
    let x = [1.0f64, 2.0, 3.0, 4.0, 5.0];
    let y = [1.0f64, 2.0, 3.0, 4.0, 5.0];
    let strategy = get_correlation_method(&CorrelationMethod::Pearson, x.len()).unwrap();
    assert_eq!(strategy.check_lengths(x.len(), y.len()), Ok(()));
    let mean_x = x.iter().sum::<f64>() / 5.0;
    let mean_y = y.iter().sum::<f64>() / 5.0;
    let covariance: f64 = x.iter().zip(y.iter()).map(|(a, b)| (a - mean_x) * (b - mean_y)).sum();
    let spread_x: f64 = x.iter().map(|a| (a - mean_x) * (a - mean_x)).sum();
    let spread_y: f64 = y.iter().map(|b| (b - mean_y) * (b - mean_y)).sum();
    let r = covariance / (spread_x.sqrt() * spread_y.sqrt());
    assert!((r - 1.0).abs() < 1e-12);
    let result =
        CorResult::evaluated(String::from("G"), String::from("M"), None, d(r.min(1.0)), d(0.0))
            .unwrap();
    assert!(result.is_evaluated());
    assert!((f64::from_bits(result.correlation.unwrap().to_bits()) - 1.0).abs() < 1e-12);
    assert_eq!(f64::from_bits(result.p_value.unwrap().to_bits()), 0.0);
    assert!((f64::from_bits(result.abs_correlation().to_bits()) - 1.0).abs() < 1e-12);
}

#[test]
fn is_evaluated_wants_all_three_numbers_in_range() {
    assert!(sample_result().is_evaluated());
    let mut missing = sample_result();
    missing.adjusted_p_value = None;
    assert!(!missing.is_evaluated());
    let mut missing = sample_result();
    missing.correlation = None;
    assert!(!missing.is_evaluated());
    let mut missing = sample_result();
    missing.p_value = None;
    assert!(!missing.is_evaluated());
    let mut out_of_range = sample_result();
    out_of_range.adjusted_p_value = Some(d(1.5));
    assert!(!out_of_range.is_evaluated());
    let mut undefined = sample_result();
    undefined.correlation = Some(d(f64::NAN));
    assert!(!undefined.is_evaluated());
}

#[test]
fn cpg_site_id_description_is_empty_without_a_site() {
    assert_eq!(sample_result().cpg_site_id_description(), "cg00000029");
    assert_eq!(CorResult::empty().cpg_site_id_description(), "");
}

#[test]
fn abs_correlation_drops_the_sign() {
    assert_eq!(sample_result().abs_correlation(), d(0.75));
    let mut positive = sample_result();
    positive.correlation = Some(d(0.25));
    assert_eq!(positive.abs_correlation(), d(0.25));
}

#[test]
fn method_codes() {
    assert_eq!(CorrelationMethod::Spearman.code(), 1);
    assert_eq!(CorrelationMethod::Kendall.code(), 2);
    assert_eq!(CorrelationMethod::Pearson.code(), 3);
    assert_eq!(CorrelationMethod::from_code(1), Some(CorrelationMethod::Spearman));
    assert_eq!(CorrelationMethod::from_code(2), Some(CorrelationMethod::Kendall));
    assert_eq!(CorrelationMethod::from_code(3), Some(CorrelationMethod::Pearson));
    assert_eq!(CorrelationMethod::from_code(0), None);
    assert_eq!(CorrelationMethod::from_code(4), None);
    assert_eq!(CorrelationMethod::from_code(255), None);
}

#[test]
fn method_names() {
    assert_eq!(CorrelationMethod::Spearman.to_string(), "Spearman");
    assert_eq!(CorrelationMethod::Kendall.to_string(), "Kendall");
    assert_eq!(CorrelationMethod::Pearson.to_string(), "Pearson");
}

#[test]
fn pearson_has_two_degrees_of_freedom_less_than_samples() {
    let pearson = Pearson::new(5).unwrap();
    assert_eq!(pearson.n(), 5);
    assert_eq!(pearson.degrees_of_freedom(), 3);
    let least = Pearson::new(3).unwrap();
    assert_eq!(least.degrees_of_freedom(), 1);
    let spearman = Spearman::new(10).unwrap();
    assert_eq!(spearman.n(), 10);
    assert_eq!(spearman.degrees_of_freedom(), 8);
}

#[test]
fn fewer_than_three_samples_are_refused() {
    for n in 0..3 {
        assert_eq!(Pearson::new(n), Err(AnalysisError::InsufficientSamples));
        assert_eq!(Spearman::new(n), Err(AnalysisError::InsufficientSamples));
        assert_eq!(
            get_correlation_method(&CorrelationMethod::Pearson, n),
            Err(AnalysisError::InsufficientSamples)
        );
        assert_eq!(
            get_correlation_method(&CorrelationMethod::Spearman, n),
            Err(AnalysisError::InsufficientSamples)
        );
        assert_eq!(
            get_correlation_method(&CorrelationMethod::Kendall, n),
            Ok(Correlation::Kendall(Kendall::new(n)))
        );
    }
}

#[test]
fn get_correlation_method_gives_the_strategy_of_the_method() {
    let pearson = get_correlation_method(&CorrelationMethod::Pearson, 5).unwrap();
    assert_eq!(pearson, Correlation::Pearson(Pearson::new(5).unwrap()));
    assert_eq!(pearson.method(), CorrelationMethod::Pearson);
    let spearman = get_correlation_method(&CorrelationMethod::Spearman, 7).unwrap();
    assert_eq!(spearman, Correlation::Spearman(Spearman::new(7).unwrap()));
    assert_eq!(spearman.method(), CorrelationMethod::Spearman);
    let kendall = get_correlation_method(&CorrelationMethod::Kendall, 7).unwrap();
    assert_eq!(kendall.method(), CorrelationMethod::Kendall);
}

#[test]
fn check_lengths_holds_vectors_to_the_sample_count() {
    let pearson = get_correlation_method(&CorrelationMethod::Pearson, 5).unwrap();
    assert_eq!(pearson.check_lengths(5, 5), Ok(()));
    assert_eq!(pearson.check_lengths(5, 4), Err(AnalysisError::SampleCountMismatch));
    assert_eq!(pearson.check_lengths(4, 5), Err(AnalysisError::SampleCountMismatch));
    assert_eq!(pearson.check_lengths(6, 6), Err(AnalysisError::SampleCountMismatch));
    let spearman = get_correlation_method(&CorrelationMethod::Spearman, 3).unwrap();
    assert_eq!(spearman.check_lengths(3, 3), Ok(()));
    assert_eq!(spearman.check_lengths(3, 2), Err(AnalysisError::SampleCountMismatch));
    let kendall = get_correlation_method(&CorrelationMethod::Kendall, 5).unwrap();
    assert_eq!(kendall.check_lengths(5, 5), Ok(()));
    assert_eq!(kendall.check_lengths(2, 2), Ok(()));
    assert_eq!(kendall.check_lengths(2, 3), Err(AnalysisError::SampleCountMismatch));
    assert_eq!(kendall.check_lengths(0, 0), Err(AnalysisError::InsufficientSamples));
}

#[test]
fn every_error_has_its_kind() {
    assert_eq!(AnalysisError::SampleCountMismatch.kind(), ErrorKind::Configuration);
    assert_eq!(AnalysisError::InsufficientSamples.kind(), ErrorKind::Configuration);
    assert_eq!(AnalysisError::CandidateCountMismatch.kind(), ErrorKind::Configuration);
    assert_eq!(AnalysisError::UndefinedStatistic.kind(), ErrorKind::Computation);
    assert_eq!(AnalysisError::UnsortedResults.kind(), ErrorKind::Resource);
    assert_eq!(AnalysisError::MalformedEncoding.kind(), ErrorKind::Resource);
}
