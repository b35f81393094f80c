use materia_forge::gamelib_helper::steam_proton::{
    classify, compare, find_highest_version, highest_index, rank_at_most, version_rank,
    version_token,
};
use std::cmp::Ordering;
use materia_forge::gamelib_helper::Runner;

fn magnitude(label: &str) -> Option<i64> {
    version_token(label)
        .and_then(|token| token.parse::<f64>().ok())
        .map(|n| (n * 1000.0) as i64)
}

fn runner(label: &str) -> Runner {
    Runner {
        name: label.to_lowercase().replace(' ', "_"),
        pretty_name: label.to_string(),
        path: format!("/tools/{label}/proton"),
        runtime: None,
    }
}

fn highest(labels: &[&str]) -> Option<String> {
    let runners: Vec<Runner> = labels.iter().map(|l| runner(l)).collect();
    let magnitudes: Vec<Option<i64>> = labels.iter().map(|l| magnitude(l)).collect();
    find_highest_version(&runners, &magnitudes).map(|r| r.pretty_name.clone())
}

#[test]
fn token_is_second_word_up_to_dash() {
    assert_eq!(version_token("Proton 8.0-5"), Some("8.0".to_string()));
    assert_eq!(version_token("Proton 7.0-6"), Some("7.0".to_string()));
    assert_eq!(version_token("Proton Experimental"), Some("Experimental".to_string()));
    assert_eq!(version_token("  Proton \t 9.0  (Beta)"), Some("9.0".to_string()));
    assert_eq!(version_token("Proton -5"), Some("".to_string()));
}

#[test]
fn token_needs_vendor_and_second_word() {
    assert_eq!(version_token("Proton"), None);
    assert_eq!(version_token(""), None);
    assert_eq!(version_token("proton 8.0"), None);
    assert_eq!(version_token("Steam Linux Runtime"), None);
    assert_eq!(version_token("GE-Proton 8.0"), None);
}

#[test]
fn rank_of_numeric_label_is_thousandths() {
    assert_eq!(version_rank("Proton 8.0-5", magnitude("Proton 8.0-5")), (8000, 0));
    assert_eq!(version_rank("Proton 7.0-6", magnitude("Proton 7.0-6")), (7000, 0));
    assert_eq!(version_rank("Proton 5.13-6", Some(5130)), (5130, 0));
}

#[test]
fn rank_of_named_labels() {
    assert_eq!(version_rank("Proton Experimental", None), (0, 2));
    assert_eq!(version_rank("Proton EXPERIMENTAL", None), (0, 2));
    assert_eq!(version_rank("Proton Hotfix", None), (0, 1));
    assert_eq!(version_rank("Proton hotfix-2", None), (0, 1));
    assert_eq!(version_rank("Proton EasyAntiCheat Runtime", None), (0, 0));
    assert_eq!(version_rank("Steam Linux Runtime", None), (0, 0));
}

#[test]
fn magnitude_is_ignored_without_a_token() {
    assert_eq!(version_rank("Steam Linux Runtime", Some(9000)), (0, 0));
    assert_eq!(version_rank("Proton", Some(9000)), (0, 0));
}

#[test]
fn classify_reads_lower_case() {
    assert_eq!(classify("experimental"), 2);
    assert_eq!(classify("bleeding-experimental-edge"), 2);
    assert_eq!(classify("hotfix"), 1);
    assert_eq!(classify("Experimental"), 0);
    assert_eq!(classify(""), 0);
}

#[test]
fn newer_numeric_label_orders_higher() {
    let a = version_rank("Proton 8.0-5", magnitude("Proton 8.0-5"));
    let b = version_rank("Proton 7.0-6", magnitude("Proton 7.0-6"));
    assert!(rank_at_most(b, a));
    assert!(!rank_at_most(a, b));
    assert_eq!(highest(&["Proton 8.0-5", "Proton 7.0-6"]), Some("Proton 8.0-5".to_string()));
    assert_eq!(highest(&["Proton 7.0-6", "Proton 8.0-5"]), Some("Proton 8.0-5".to_string()));
}

#[test]
fn experimental_is_not_above_nine() {
    assert_eq!(
        highest(&["Proton Experimental", "Proton 9.0"]),
        Some("Proton 9.0".to_string())
    );
    assert_eq!(
        highest(&["Proton 9.0", "Proton Experimental"]),
        Some("Proton 9.0".to_string())
    );
}

#[test]
fn experimental_is_below_three() {
    assert_eq!(
        highest(&["Proton Experimental", "Proton 3.0"]),
        Some("Proton 3.0".to_string())
    );
}

#[test]
fn experimental_is_above_hotfix_and_unknown() {
    assert_eq!(
        highest(&["Proton Hotfix", "Proton Experimental", "Proton Next"]),
        Some("Proton Experimental".to_string())
    );
    assert_eq!(
        highest(&["Proton Next", "Proton Hotfix"]),
        Some("Proton Hotfix".to_string())
    );
}

#[test]
fn any_positive_number_is_above_experimental() {
    assert_eq!(
        highest(&["Proton Experimental", "Proton 1.5"]),
        Some("Proton 1.5".to_string())
    );
}

#[test]
fn negative_number_is_below_unknown() {
    let runners = vec![runner("Proton x"), runner("Proton y")];
    assert_eq!(highest_index(&runners, &[Some(-1000), None]), Some(1));
    assert_eq!(highest_index(&runners, &[None, Some(-1000)]), Some(0));
}

#[test]
fn last_of_equal_ranks_wins() {
    let runners = vec![runner("Proton 8.0-1"), runner("Proton 8.0-2"), runner("Proton 7.0")];
    let magnitudes = vec![Some(8000), Some(8000), Some(7000)];
    assert_eq!(highest_index(&runners, &magnitudes), Some(1));
    let plain = vec![runner("alpha"), runner("beta"), runner("gamma")];
    assert_eq!(highest_index(&plain, &[]), Some(2));
}

#[test]
fn missing_magnitudes_count_as_none() {
    let runners = vec![runner("Proton 8.0"), runner("Proton Experimental")];
    assert_eq!(highest_index(&runners, &[Some(8000)]), Some(0));
    assert_eq!(highest_index(&runners, &[]), Some(1));
}

#[test]
fn empty_catalog_has_no_highest() {
    assert_eq!(highest_index(&[], &[]), None);
    assert!(find_highest_version(&[], &[Some(1)]).is_none());
}

#[test]
fn compare_orders_by_magnitude_then_class() {
    assert_eq!(compare((8000, 0), (7000, 0)), Ordering::Greater);
    assert_eq!(compare((7000, 0), (8000, 0)), Ordering::Less);
    assert_eq!(compare((0, 2), (0, 1)), Ordering::Greater);
    assert_eq!(compare((0, 0), (0, 2)), Ordering::Less);
    assert_eq!(compare((0, 2), (0, 2)), Ordering::Equal);
    assert_eq!(compare((1, 0), (0, 2)), Ordering::Greater);
    assert_eq!(compare((-1, 0), (0, 0)), Ordering::Less);
    for a in [(-5i64, 0i64), (0, 0), (0, 1), (0, 2), (3, 0), (i64::MAX, 0), (i64::MIN, 2)] {
        for b in [(-5i64, 0i64), (0, 0), (0, 1), (0, 2), (3, 0), (i64::MAX, 0), (i64::MIN, 2)] {
            assert_eq!(compare(a, b), a.cmp(&b));
            assert_eq!(rank_at_most(a, b), a <= b);
        }
    }
}
