use gar::{edit_distance_of, group_names, names_alike};

fn chars(s: &str) -> Vec<char> {
    s.chars().collect()
}

fn names(v: &[&str]) -> Vec<String> {
    v.iter().map(|s| s.to_string()).collect()
}

#[test]
fn edit_distance_values() {
    assert_eq!(edit_distance_of(&chars("kitten"), &chars("sitting")), 3);
    assert_eq!(edit_distance_of(&chars(""), &chars("abc")), 3);
    assert_eq!(edit_distance_of(&chars("abc"), &chars("")), 3);
    assert_eq!(edit_distance_of(&chars("same"), &chars("same")), 0);
    assert_eq!(edit_distance_of(&chars("Deploy"), &chars("deploy")), 1);
}

#[test]
fn similarity_threshold() {
    // distance 1 over length 6: similarity 0.833, above the threshold
    assert!(names_alike(&chars("deploy"), &chars("deplox")));
    // distance 1 over length 5: similarity 0.80 exactly, not above it
    assert!(!names_alike(&chars("build"), &chars("built")));
    assert!(names_alike(&chars(""), &chars("")));
    assert!(!names_alike(&chars("a"), &chars("")));
}

#[test]
fn alike_names_share_a_group() {
    let g = group_names(&names(&["Deploy staging", "Deploy stagin", "Run tests", "Deploy stagng"]));
    assert_eq!(g, vec![vec![0, 1, 3], vec![2]]);
}

#[test]
fn unalike_names_start_groups() {
    let g = group_names(&names(&["build", "lint", "release"]));
    assert_eq!(g, vec![vec![0], vec![1], vec![2]]);
}

#[test]
fn only_the_first_member_is_compared() {
    // "abcdefgh" is alike "abcdefgx" (distance 1 of 8); "abcdefxx" is alike
    // "abcdefgx" but not the group's first member "abcdefgh" (distance 2 of 8).
    let g = group_names(&names(&["abcdefgh", "abcdefgx", "abcdefxx"]));
    assert_eq!(g, vec![vec![0, 1], vec![2]]);
}

#[test]
fn grouping_depends_on_order() {
    let a = group_names(&names(&["abcdefgh", "abcdefgx", "abcdefxx"]));
    let b = group_names(&names(&["abcdefgx", "abcdefgh", "abcdefxx"]));
    assert_eq!(a, vec![vec![0, 1], vec![2]]);
    assert_eq!(b, vec![vec![0, 1, 2]]);
}

#[test]
fn case_matters() {
    assert!(!names_alike(&chars("TEST"), &chars("test")));
}

#[test]
fn empty_listing_has_no_groups() {
    assert!(group_names(&Vec::new()).is_empty());
}
