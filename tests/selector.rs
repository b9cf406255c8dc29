use gar::{
    chosen_index, find_workflow_by_name, group_labels, group_names, resolve_group, run_label,
    run_labels, status_bucket, GarError, GroupChoice, StatusBucket, Workflow, WorkflowRun,
};

fn wf(id: u64, name: &str) -> Workflow {
    Workflow { id, name: name.to_string(), html_url: format!("https://example.test/{}", id) }
}

fn run(id: u64, name: &str, status: &str, created: &str) -> WorkflowRun {
    WorkflowRun {
        id,
        name: name.to_string(),
        display_title: String::new(),
        html_url: String::new(),
        status: status.to_string(),
        conclusion: None,
        head_branch: "main".to_string(),
        logs_url: String::new(),
        created_at: created.to_string(),
        updated_at: created.to_string(),
    }
}

#[test]
fn singleton_group_resolves_without_prompt() {
    let names: Vec<String> = vec!["Deploy prod".into(), "Deploy prd".into(), "Lint".into()];
    let groups = group_names(&names);
    assert_eq!(groups, vec![vec![0, 1], vec![2]]);
    match resolve_group(&groups, 1) {
        Ok(GroupChoice::Resolved { index }) => assert_eq!(index, 2),
        _ => panic!("a group of one must resolve at once"),
    }
    match resolve_group(&groups, 0) {
        Ok(GroupChoice::Ask { members }) => assert_eq!(members, vec![0, 1]),
        _ => panic!("a larger group asks again"),
    }
    assert!(matches!(resolve_group(&groups, 2), Err(GarError::SelectionFailed)));
}

#[test]
fn lookup_by_exact_name() {
    let ws = vec![wf(7, "Build"), wf(8, "Deploy"), wf(9, "Deploy")];
    assert_eq!(find_workflow_by_name(&ws, &"Deploy".to_string()).unwrap(), 1);
    assert!(matches!(
        find_workflow_by_name(&ws, &"deploy".to_string()),
        Err(GarError::SelectionFailed)
    ));
}

#[test]
fn labels_of_groups_are_first_members() {
    let names: Vec<String> = vec!["Deploy prod".into(), "Deploy prd".into(), "Lint".into()];
    let groups = group_names(&names);
    assert_eq!(group_labels(&names, &groups), vec!["Deploy prod".to_string(), "Lint".to_string()]);
}

#[test]
fn run_label_and_bucket() {
    let (label, bucket) = run_label(&run(7090586915, "CI", "completed", "2023-12-05T10:00:00Z"));
    assert_eq!(label, "CI - 2023-12-05T10:00:00Z - 7090586915");
    assert_eq!(bucket, StatusBucket::Success);
    let all = run_labels(&vec![run(1, "a", "queued", "t1"), run(20, "b", "in_progress", "t2")]);
    assert_eq!(all[0], ("a - t1 - 1".to_string(), StatusBucket::Queued));
    assert_eq!(all[1], ("b - t2 - 20".to_string(), StatusBucket::Pending));
}

#[test]
fn status_buckets() {
    assert_eq!(status_bucket(&"completed".to_string()), StatusBucket::Success);
    assert_eq!(status_bucket(&"in_progress".to_string()), StatusBucket::Pending);
    assert_eq!(status_bucket(&"queued".to_string()), StatusBucket::Queued);
    assert_eq!(status_bucket(&"failure".to_string()), StatusBucket::Neutral);
    assert_eq!(status_bucket(&"Completed".to_string()), StatusBucket::Neutral);
}

#[test]
fn chosen_index_bounds() {
    assert_eq!(chosen_index(3, 2).unwrap(), 2);
    assert!(matches!(chosen_index(3, 3), Err(GarError::SelectionFailed)));
}

#[test]
fn name_style_ignores_case() {
    let s = gar::name_style("Deploy PROD");
    assert!(s.production);
    assert!(!s.test);
    let t = gar::name_style("Run Tests");
    assert!(!t.production);
    assert!(t.test);
    let both = gar::name_style("Prod smoke TEST");
    assert!(both.production && both.test);
    let plain = gar::name_style("Lint");
    assert!(!plain.production && !plain.test);
}

#[test]
fn style_of_lowered_is_exact() {
    assert!(gar::style_of_lowered("preprod").production);
    assert!(!gar::style_of_lowered("PROD").production);
    assert!(!gar::style_of_lowered("pro").production);
    assert!(gar::style_of_lowered("test").test);
    let chars = |s: &str| s.chars().collect::<Vec<char>>();
    assert!(gar::contains_infix(&chars("abc"), &chars("")));
    assert!(!gar::contains_infix(&chars(""), &chars("a")));
    assert!(gar::contains_infix(&chars("aab"), &chars("ab")));
}

#[test]
fn styled_labels() {
    let both = gar::NameStyle { production: true, test: true };
    assert_eq!(gar::styled_label("X", both), "  !!! X  ");
    let prod = gar::NameStyle { production: true, test: false };
    assert_eq!(gar::styled_label("X", prod), " !!! X ");
    let plain = gar::NameStyle { production: false, test: false };
    assert_eq!(gar::styled_label("X", plain), "X");
}
