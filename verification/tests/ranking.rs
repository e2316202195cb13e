use git_select_branch::branch::{BranchInfo, BranchType, CommitTime};
use git_select_branch::config::Config;
use git_select_branch::options::{get_branch_options, Choice};
use git_select_branch::rank::{get_sorted_choices, rank};

fn branch(name: &str, seconds: i64) -> BranchInfo {
    BranchInfo {
        shorthand: name.to_string(),
        branch_type: BranchType::Local,
        commit_time: CommitTime::new(seconds, 0),
        commit_message: Some(format!("commit at {}", seconds)),
        commit_author_name: Some("name".to_string()),
    }
}

fn remote_branch(remote: &str, name: &str, seconds: i64) -> BranchInfo {
    BranchInfo {
        shorthand: format!("{}/{}", remote, name),
        branch_type: BranchType::Remote,
        commit_time: CommitTime::new(seconds, 0),
        commit_message: Some(format!("commit at {}", seconds)),
        commit_author_name: Some("name".to_string()),
    }
}

fn names(branches: &[BranchInfo]) -> Vec<String> {
    branches.iter().map(|b| b.shorthand.clone()).collect()
}

fn labels(options: &[Choice]) -> Vec<String> {
    options.iter().map(|c| c.label()).collect()
}

#[test]
fn test_get_sorted_branches_default_config() {
    let catalog = vec![branch("main", 10), branch("second", 20), branch("third", 30)];
    let sorted_branches = get_sorted_choices(&Default::default(), catalog);
    assert_eq!(names(&sorted_branches), vec!["third", "second", "main"]);
}

#[test]
fn test_get_sorted_branches_including_remote() {
    let catalog = vec![
        branch("a", 10),
        branch("b", 20),
        branch("c", 5),
        remote_branch("origin", "d", 30),
    ];
    let config = Config { show_remote_branches: true, ..Default::default() };
    let sorted_branches = get_sorted_choices(&config, catalog);
    assert_eq!(names(&sorted_branches), vec!["origin/d", "b", "a", "c"])
}

#[test]
fn test_get_sorted_branches_limit() {
    let catalog = vec![branch("a", 1), branch("b", 2), branch("c", 3)];
    let config = Config { limit: Some(2), ..Default::default() };
    let sorted_branches = get_sorted_choices(&config, catalog);
    assert_eq!(names(&sorted_branches), vec!["c", "b"])
}

#[test]
fn test_get_sorted_branches_unlimited() {
    let mut catalog = vec![];
    let mut expected_sorted_branches = vec![];
    for i in (0..100).rev() {
        let branch_name = format!("a-{}", i);
        expected_sorted_branches.push(branch_name.clone());
        catalog.push(branch(branch_name.as_str(), i));
    }
    let config = Config { limit: None, ..Default::default() };
    let sorted_branches = get_sorted_choices(&config, catalog);
    assert_eq!(sorted_branches.len(), 100);
    assert_eq!(names(&sorted_branches), expected_sorted_branches)
}

#[test]
fn test_get_branch_options() {
    let options = get_branch_options(vec![branch("a", 3), branch("b", 2), branch("c", 1)], Some("c"));
    assert_eq!(labels(&options), vec!["c", "a", "b"])
}

#[test]
fn ranking_with_no_current_branch() {
    let catalog = vec![branch("main", 10), branch("second", 20), branch("third", 30)];
    let ranked = get_sorted_choices(&Config::default(), catalog);
    assert_eq!(names(&ranked), vec!["third", "second", "main"]);
    let options = get_branch_options(ranked, None);
    assert_eq!(labels(&options), vec!["<no branch>", "third", "second", "main"]);
    assert_eq!(options[0], Choice::Default("<no branch>".to_string()));
    assert_eq!(options[1], Choice::Branch(branch("third", 30)));
}

#[test]
fn equal_times_keep_catalog_order() {
    let catalog = vec![
        remote_branch("origin", "d", 30),
        branch("main", 10),
        branch("second", 20),
        branch("third", 30),
    ];
    let config = Config { show_remote_branches: true, ..Default::default() };
    assert_eq!(
        names(&get_sorted_choices(&config, catalog)),
        vec!["origin/d", "third", "second", "main"]
    );
    let catalog = vec![
        branch("main", 10),
        branch("second", 20),
        branch("third", 30),
        remote_branch("origin", "d", 30),
    ];
    assert_eq!(
        names(&get_sorted_choices(&config, catalog)),
        vec!["third", "origin/d", "second", "main"]
    );
}

#[test]
fn equal_seconds_are_ordered_by_offset() {
    let mut east = branch("east", 100);
    east.commit_time = CommitTime::new(100, 120);
    let mut west = branch("west", 100);
    west.commit_time = CommitTime::new(100, -300);
    let utc = branch("utc", 100);
    let ranked = get_sorted_choices(&Config::default(), vec![west, utc, east]);
    assert_eq!(names(&ranked), vec!["east", "utc", "west"]);
    assert!(CommitTime::new(100, 120).is_after(&CommitTime::new(100, 0)));
    assert!(CommitTime::new(101, -300).is_after(&CommitTime::new(100, 120)));
    assert!(!CommitTime::new(100, 0).is_after(&CommitTime::new(100, 0)));
}

#[test]
fn window_keeps_the_most_recent() {
    let catalog = vec![branch("a", 5), branch("b", 9), branch("c", 1), branch("d", 7)];
    let config = Config { limit: Some(2), ..Default::default() };
    assert_eq!(names(&get_sorted_choices(&config, catalog)), vec!["b", "d"]);
}

#[test]
fn window_wider_than_the_catalog_keeps_all() {
    let config = Config { limit: Some(3), ..Default::default() };
    let ranked = get_sorted_choices(&config, vec![branch("a", 1), branch("b", 2), branch("c", 3)]);
    assert_eq!(names(&ranked), vec!["c", "b", "a"]);
    let config = Config { limit: Some(10), ..Default::default() };
    let ranked = get_sorted_choices(&config, vec![branch("a", 1), branch("b", 2)]);
    assert_eq!(names(&ranked), vec!["b", "a"]);
    assert_eq!(get_sorted_choices(&config, vec![]), vec![]);
}

#[test]
fn default_limit_is_twenty() {
    let catalog: Vec<BranchInfo> = (0..25).map(|i| branch(&format!("b{}", i), i)).collect();
    let ranked = get_sorted_choices(&Config::default(), catalog);
    assert_eq!(ranked.len(), 20);
    assert_eq!(ranked[0].shorthand, "b24");
    assert_eq!(ranked[19].shorthand, "b5");
}

#[test]
fn ranking_keeps_every_field() {
    let ranked = get_sorted_choices(
        &Config::default(),
        vec![branch("a", 1), remote_branch("origin", "b", 2)],
    );
    assert_eq!(ranked, vec![remote_branch("origin", "b", 2), branch("a", 1)]);
}

#[test]
fn current_branch_is_pinned_and_not_repeated() {
    let ranked = vec![branch("a", 3), branch("b", 2), branch("c", 1)];
    let options = get_branch_options(ranked, Some("a"));
    assert_eq!(labels(&options), vec!["a", "b", "c"]);
    assert_eq!(options[0], Choice::Default("a".to_string()));
    let ranked = vec![branch("a", 3), branch("b", 2)];
    let options = get_branch_options(ranked, Some("elsewhere"));
    assert_eq!(labels(&options), vec!["elsewhere", "a", "b"]);
    let options = get_branch_options(vec![], None);
    assert_eq!(labels(&options), vec!["<no branch>"]);
}

#[test]
fn rank_with_and_without_a_limit() {
    let catalog = vec![branch("a", 2), branch("b", 3), branch("c", 1)];
    assert_eq!(names(&rank(catalog, None)), vec!["b", "a", "c"]);
    let catalog = vec![branch("a", 2), branch("b", 3), branch("c", 1)];
    assert_eq!(names(&rank(catalog, Some(1))), vec!["b"]);
    let catalog = vec![branch("a", 2), branch("b", 3), branch("c", 1)];
    assert_eq!(names(&rank(catalog, Some(0))), Vec::<String>::new());
}

#[test]
fn distinct_times_rank_strictly_descending() {
    let seconds = [17i64, 3, 99, 42, -8, 0, 64, 5];
    let catalog: Vec<BranchInfo> =
        seconds.iter().map(|s| branch(&format!("at{}", s), *s)).collect();
    let ranked = rank(catalog, None);
    assert_eq!(ranked.len(), seconds.len());
    for pair in ranked.windows(2) {
        assert!(pair[0].commit_time.is_after(&pair[1].commit_time));
    }
    assert_eq!(
        names(&ranked),
        vec!["at99", "at64", "at42", "at17", "at5", "at3", "at0", "at-8"]
    );
}
