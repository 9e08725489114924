use repo_hoarder::repo::Repo;
use repo_hoarder::task::CloneTask;
use repo_hoarder::task::Outcome;

fn task(name: &str, url: &str, recursive: bool) -> CloneTask {
    CloneTask::new(Repo::new(name.to_string(), url.to_string()), recursive)
}

#[test]
fn descriptor_keeps_name_and_url() {
    let repo = Repo::new("a".to_string(), "u1".to_string());
    assert_eq!(repo.name, "a");
    assert_eq!(repo.clone_url, "u1");
    assert_eq!(repo.duplicate(), repo);
}

#[test]
fn task_keeps_descriptor_and_flag() {
    let t = task("a", "u1", true);
    assert_eq!(t.repo, Repo::new("a".to_string(), "u1".to_string()));
    assert!(t.recursive);
}

#[test]
fn program_is_git() {
    assert_eq!(task("a", "u1", false).program(), "git");
}

#[test]
fn arguments_of_a_plain_clone() {
    let args = task("a", "https://example.org/a.git", false).arguments();
    assert_eq!(args, vec!["clone".to_string(), "https://example.org/a.git".to_string(), "a".to_string()]);
}

#[test]
fn arguments_of_a_recursive_clone_end_with_the_flag() {
    let args = task("a", "u1", true).arguments();
    assert_eq!(
        args,
        vec!["clone".to_string(), "u1".to_string(), "a".to_string(), "--recursive".to_string()]
    );
}

#[test]
fn arguments_take_the_name_as_it_comes() {
    let args = task("../x y", "u", false).arguments();
    assert_eq!(args[2], "../x y");
    assert_eq!(args.len(), 3);
}

#[test]
fn exit_zero_is_a_success() {
    assert_eq!(task("a", "u1", false).outcome(Some(0)), Outcome::Success);
}

#[test]
fn exit_one_is_a_failure_naming_the_repository() {
    assert_eq!(
        task("b", "u2", false).outcome(Some(1)),
        Outcome::Failure { repo_name: "b".to_string() }
    );
}

#[test]
fn any_other_exit_code_is_a_failure() {
    let t = task("b", "u2", true);
    for code in [2, 128, 255, -1, i32::MAX, i32::MIN] {
        assert_eq!(t.outcome(Some(code)), Outcome::Failure { repo_name: "b".to_string() });
    }
}

#[test]
fn ending_without_a_code_is_a_failure() {
    assert_eq!(
        task("b", "u2", false).outcome(None),
        Outcome::Failure { repo_name: "b".to_string() }
    );
}

#[test]
fn success_has_no_diagnostic() {
    assert!(Outcome::Success.is_success());
    assert_eq!(Outcome::Success.diagnostic(), None);
}

#[test]
fn failure_has_one_line_naming_the_repository() {
    let failure = Outcome::Failure { repo_name: "b".to_string() };
    assert!(!failure.is_success());
    assert_eq!(failure.diagnostic(), Some("Failed to clone b".to_string()));
}
