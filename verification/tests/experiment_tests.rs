use polyvc::arguments::{GenerationMode, RunParameters};
use polyvc::experiment::{export_file_name, Experiment, Successor};
use polyvc::profile::VisibilityProfile;

fn parameters(count: usize, export_all: bool, minimize: bool) -> RunParameters {
    RunParameters { n: 20, count, mode: GenerationMode::QuickStarLike, export_all, minimize }
}

fn flags(text: &str) -> Vec<bool> {
    text.chars().map(|c| c == '1').collect()
}

fn profile(vc_dimension: usize, small: bool) -> VisibilityProfile {
    let rows = ["1100", "1110", "0110", "0001"];
    let visible = rows.iter().map(|row| flags(row)).collect();
    VisibilityProfile::new(visible, flags("1111"), vc_dimension, small).unwrap()
}

fn novel(vc_dimension: usize, small: bool) -> VisibilityProfile {
    let rows = ["1111", "1111", "1111", "1111"];
    let visible = rows.iter().map(|row| flags(row)).collect();
    VisibilityProfile::new(visible, flags("1111"), vc_dimension, small).unwrap()
}

#[test]
fn single_trial_with_export_all_names_one_file() {
    for vc_dimension in 0..8 {
        for small in [false, true] {
            let mut experiment = Experiment::new(parameters(1, true, false));
            assert!(!experiment.is_finished());
            assert!(!experiment.wants_minimization());
            let report = experiment.conclude_trial(vc_dimension, &profile(vc_dimension, small));
            assert_eq!(report.export_to, Some(format!("out/vc{}-n20_000.ipe", vc_dimension)));
            assert_eq!(report.progress, vc_dimension.to_string());
            assert_eq!(report.successor, Successor::Finished);
            assert!(experiment.is_finished());
            assert_eq!(experiment.trial(), 1);
        }
    }
}

#[test]
fn minimum_polygons_are_counted_only_after_minimization_at_dimension_four() {
    let trials = 12;
    let mut experiment = Experiment::new(parameters(trials, false, true));
    assert!(experiment.wants_minimization());
    let mut expected = 0;
    for trial in 0..trials {
        let vc_dimension = trial % 7;
        let small = trial % 2 == 0;
        let before = experiment.minimum_polygons();
        experiment.conclude_trial(vc_dimension, &profile(vc_dimension, small));
        if vc_dimension == 4 && small {
            expected += 1;
            assert_eq!(experiment.minimum_polygons(), before + 1);
        } else {
            assert_eq!(experiment.minimum_polygons(), before);
        }
        assert!(experiment.minimum_polygons() <= experiment.trial());
        assert!(experiment.minimum_polygons() <= trials);
    }
    assert!(experiment.is_finished());
    assert_eq!(experiment.minimum_polygons(), expected);
    assert_eq!(expected, 1);
}

#[test]
fn every_trial_can_count_as_a_minimum_polygon() {
    let trials = 5;
    let mut experiment = Experiment::new(parameters(trials, false, true));
    for _ in 0..trials {
        experiment.conclude_trial(6, &profile(4, true));
    }
    assert_eq!(experiment.minimum_polygons(), trials);
    assert_eq!(experiment.summary(), "\nFound 5 minimum polygons with d = 4.");
}

#[test]
fn nothing_is_counted_without_minimization() {
    let mut experiment = Experiment::new(parameters(4, false, false));
    for _ in 0..4 {
        experiment.conclude_trial(4, &profile(4, true));
    }
    assert_eq!(experiment.minimum_polygons(), 0);
    assert_eq!(experiment.summary(), "\nFound 0 minimum polygons with d = 4.");
}

#[test]
fn polygon_is_exported_only_where_it_is_interesting() {
    let mut experiment = Experiment::new(parameters(6, false, false));
    assert_eq!(experiment.conclude_trial(3, &profile(3, true)).export_to, None);
    assert_eq!(experiment.conclude_trial(4, &profile(4, true)).export_to, None);
    assert_eq!(experiment.conclude_trial(4, &novel(4, false)).export_to, None);
    assert_eq!(
        experiment.conclude_trial(4, &novel(4, true)).export_to,
        Some("out/vc4-n20_003.ipe".to_string())
    );
    assert_eq!(
        experiment.conclude_trial(5, &profile(5, false)).export_to,
        Some("out/vc5-n20_004.ipe".to_string())
    );
    assert_eq!(experiment.conclude_trial(2, &novel(2, true)).export_to, None);
}

#[test]
fn file_is_named_after_the_dimension_before_minimization() {
    let mut experiment = Experiment::new(parameters(3, false, true));
    let report = experiment.conclude_trial(6, &novel(4, true));
    assert_eq!(report.export_to, Some("out/vc6-n20_000.ipe".to_string()));
    assert_eq!(report.progress, "6");
    let report = experiment.conclude_trial(3, &novel(5, true));
    assert_eq!(report.export_to, Some("out/vc3-n20_001.ipe".to_string()));
    assert_eq!(report.progress, "3");
}

#[test]
fn next_polygon_is_fresh_after_minimization_and_perturbed_without() {
    let mut minimizing = Experiment::new(parameters(3, false, true));
    assert_eq!(minimizing.conclude_trial(2, &profile(2, true)).successor, Successor::Fresh);
    assert_eq!(minimizing.conclude_trial(2, &profile(2, true)).successor, Successor::Fresh);
    assert_eq!(minimizing.conclude_trial(2, &profile(2, true)).successor, Successor::Finished);
    let mut plain = Experiment::new(parameters(3, false, false));
    assert_eq!(plain.conclude_trial(2, &profile(2, true)).successor, Successor::Perturbed);
    assert_eq!(plain.conclude_trial(2, &profile(2, true)).successor, Successor::Perturbed);
    assert_eq!(plain.conclude_trial(2, &profile(2, true)).successor, Successor::Finished);
    assert!(plain.is_finished());
}

#[test]
fn run_of_no_trials_is_finished_at_once() {
    let experiment = Experiment::new(parameters(0, true, true));
    assert!(experiment.is_finished());
    assert_eq!(experiment.trial(), 0);
    assert_eq!(experiment.minimum_polygons(), 0);
    assert_eq!(experiment.summary(), "\nFound 0 minimum polygons with d = 4.");
}

#[test]
fn experiment_keeps_its_parameters() {
    let given = RunParameters {
        n: 9,
        count: 2,
        mode: GenerationMode::XmonotoneGap,
        export_all: true,
        minimize: true,
    };
    let mut experiment = Experiment::new(given);
    assert_eq!(experiment.parameters(), given);
    let report = experiment.conclude_trial(1, &profile(1, false));
    assert_eq!(report.export_to, Some("out/vc1-n9_000.ipe".to_string()));
    assert_eq!(experiment.parameters(), given);
}

#[test]
fn file_name_has_the_trial_in_three_digits_or_more() {
    assert_eq!(export_file_name(4, 20, 7), "out/vc4-n20_007.ipe");
    assert_eq!(export_file_name(4, 20, 42), "out/vc4-n20_042.ipe");
    assert_eq!(export_file_name(5, 6, 999), "out/vc5-n6_999.ipe");
    assert_eq!(export_file_name(3, 6, 1000), "out/vc3-n6_1000.ipe");
    assert_eq!(export_file_name(0, 0, 0), "out/vc0-n0_000.ipe");
    assert_eq!(export_file_name(12, 150, 31), "out/vc12-n150_031.ipe");
}

#[test]
fn progress_is_the_dimension_in_digits() {
    let mut experiment = Experiment::new(parameters(3, false, false));
    assert_eq!(experiment.conclude_trial(0, &profile(0, false)).progress, "0");
    assert_eq!(experiment.conclude_trial(4, &profile(4, false)).progress, "4");
    assert_eq!(experiment.conclude_trial(11, &profile(11, false)).progress, "11");
}
