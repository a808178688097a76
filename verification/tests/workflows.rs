use grgry::cmd::{
    create_git_cmd, get_current_branch_args, get_remote_url_args, ls_remote_heads_args,
    status_porcelain_args, symbolic_ref_args,
};
use grgry::engine::worker_slice;
use grgry::locator::{find_git_repos, DirTree};
use grgry::sync::{
    create_pull_request_args, destination_path, get_clone_url, get_current_pull_branch, pull,
    sync_outcome, SyncOutcome,
};
use grgry::repo::RemoteRepository;
use grgry::workflow::{
    create_push_request_args, execute_quick_actions, mass_command_args, needs_upstream,
    parse_mass_answer, parse_quick_answer, process_step, quick_gate, select_profile, LoopControl,
    QuickAnswer, QuickGate,
};

fn leaf(path: &str, has_git: bool) -> DirTree {
    DirTree { path: path.to_string(), has_git, children: Vec::new() }
}

#[test]
fn locator_prunes_nested_repositories() {
    // A repository at /a that itself contains a repository at /a/vendor:
    // only /a is reported.
    let root = DirTree {
        path: "/".to_string(),
        has_git: false,
        children: vec![DirTree {
            path: "/a".to_string(),
            has_git: true,
            children: vec![leaf("/a/vendor", true)],
        }],
    };
    let found = find_git_repos(&root, ".*", false).unwrap();
    assert_eq!(found, vec!["/a".to_string()]);
}

#[test]
fn locator_filters_by_pattern_and_reverse() {
    let root = DirTree {
        path: "/".to_string(),
        has_git: false,
        children: vec![leaf("/work/alpha", true), leaf("/work/beta", true), leaf("/misc", false)],
    };
    assert_eq!(find_git_repos(&root, "alpha", false).unwrap(), vec!["/work/alpha".to_string()]);
    assert_eq!(find_git_repos(&root, "alpha", true).unwrap(), vec!["/work/beta".to_string()]);
    assert_eq!(
        find_git_repos(&root, ".*", false).unwrap(),
        vec!["/work/alpha".to_string(), "/work/beta".to_string()]
    );
    assert!(find_git_repos(&root, "foo(bar", false).is_none());
}

#[test]
fn locator_reports_a_root_that_is_itself_a_repository() {
    let root = DirTree {
        path: "/repo".to_string(),
        has_git: true,
        children: vec![leaf("/repo/sub", true)],
    };
    assert_eq!(find_git_repos(&root, ".*", false).unwrap(), vec!["/repo".to_string()]);
    assert_eq!(find_git_repos(&root, ".*", true).unwrap(), Vec::<String>::new());
}

#[test]
fn locator_sentinel_returns_the_root_without_walking() {
    let root = DirTree {
        path: "/work".to_string(),
        has_git: false,
        children: vec![leaf("/work/alpha", true)],
    };
    assert_eq!(find_git_repos(&root, ".", false).unwrap(), vec!["/work".to_string()]);
}

#[test]
fn round_robin_slices_partition_the_items() {
    assert_eq!(worker_slice(1, 3, 10), vec![1, 4, 7]);
    assert_eq!(worker_slice(0, 3, 10), vec![0, 3, 6, 9]);
    assert_eq!(worker_slice(2, 3, 10), vec![2, 5, 8]);
    let mut all: Vec<usize> = Vec::new();
    for tid in 0..3 {
        all.extend(worker_slice(tid, 3, 10));
    }
    all.sort();
    assert_eq!(all, (0..10).collect::<Vec<usize>>());
    assert_eq!(worker_slice(4, 7, 3), Vec::<usize>::new());
}

#[test]
fn clone_decision_when_target_is_absent() {
    assert_eq!(sync_outcome(false, "", None, false), SyncOutcome::Cloned);
    assert_eq!(sync_outcome(false, "main", Some("origin/main"), true), SyncOutcome::Cloned);
}

#[test]
fn sync_decision_on_existing_target() {
    assert_eq!(sync_outcome(true, "main", None, false), SyncOutcome::SkippedNoRemoteBranch);
    assert_eq!(sync_outcome(true, "main", None, true), SyncOutcome::Pulled);
    assert_eq!(sync_outcome(true, "", Some("origin/main"), true), SyncOutcome::Pulled);
    assert_eq!(sync_outcome(true, "", Some("origin/main"), false), SyncOutcome::SkippedNoRemoteBranch);
    assert_eq!(sync_outcome(true, "", None, true), SyncOutcome::SkippedNoHead);
}

#[test]
fn clone_args_round_trip_on_the_branch_flag() {
    assert_eq!(
        create_pull_request_args("", "https://h/o/r.git", "/base", "o/r"),
        vec!["clone".to_string(), "https://h/o/r.git".to_string(), "/base/o/r".to_string()]
    );
    assert_eq!(
        create_pull_request_args("main", "https://h/o/r.git", "/base", "o/r"),
        vec![
            "clone".to_string(),
            "-b".to_string(),
            "main".to_string(),
            "https://h/o/r.git".to_string(),
            "/base/o/r".to_string(),
        ]
    );
}

#[test]
fn clone_url_follows_the_pull_option() {
    let r = RemoteRepository {
        ssh_url: "git@h:o/r.git".to_string(),
        http_url: "https://h/o/r.git".to_string(),
        full_path: "o/r".to_string(),
    };
    assert_eq!(get_clone_url("ssh", &r), "git@h:o/r.git");
    assert_eq!(get_clone_url("https", &r), "https://h/o/r.git");
    assert_eq!(destination_path("/base", "o/r"), "/base/o/r");
}

#[test]
fn pull_branch_resolution() {
    assert_eq!(get_current_pull_branch("dev", None), Some("dev".to_string()));
    assert_eq!(get_current_pull_branch("", Some("origin/main")), Some("main".to_string()));
    assert_eq!(get_current_pull_branch("", None), None);
    assert_eq!(get_current_pull_branch("", Some("main")), None);
}

#[test]
fn pull_commands_only_when_the_remote_has_the_branch() {
    assert!(pull("main", "").is_none());
    let (checkout, plain) = pull("main", "abc123\trefs/heads/main").unwrap();
    assert_eq!(checkout, vec!["checkout".to_string(), "main".to_string()]);
    assert_eq!(plain, vec!["pull".to_string()]);
}

#[test]
fn quick_gate_skips_clean_repositories_silently() {
    // A repository with no working-tree changes sees no prompt and no git
    // mutation, whatever the interactivity setting.
    assert_eq!(quick_gate(false, false), QuickGate::SkipSilently);
    assert_eq!(quick_gate(false, true), QuickGate::SkipSilently);
    assert_eq!(quick_gate(true, true), QuickGate::Proceed);
    assert_eq!(quick_gate(true, false), QuickGate::Prompt);
}

#[test]
fn prompt_answers_parse_in_either_case_only() {
    assert_eq!(parse_mass_answer("y"), Some(true));
    assert_eq!(parse_mass_answer("Y"), Some(true));
    assert_eq!(parse_mass_answer("n"), Some(false));
    assert_eq!(parse_mass_answer("N"), Some(false));
    assert_eq!(parse_mass_answer("yes"), None);
    assert_eq!(parse_mass_answer(""), None);
    assert_eq!(parse_quick_answer("y"), Some(QuickAnswer::Proceed));
    assert_eq!(parse_quick_answer("n"), Some(QuickAnswer::Skip));
    assert_eq!(parse_quick_answer("m"), Some(QuickAnswer::More));
    assert_eq!(parse_quick_answer("M"), Some(QuickAnswer::More));
    assert_eq!(parse_quick_answer("q"), None);
}

#[test]
fn loop_control_follows_the_confirmation() {
    assert_eq!(process_step(Some(true)), LoopControl::Execute);
    assert_eq!(process_step(Some(false)), LoopControl::SkipItem);
    assert_eq!(process_step(None), LoopControl::Stop);
}

#[test]
fn mass_command_words_split_on_whitespace() {
    assert_eq!(
        mass_command_args("pull --rebase"),
        vec!["pull".to_string(), "--rebase".to_string()]
    );
    assert_eq!(
        mass_command_args("  log \t--oneline\n-n 3 "),
        vec!["log".to_string(), "--oneline".to_string(), "-n".to_string(), "3".to_string()]
    );
    assert_eq!(mass_command_args(""), Vec::<String>::new());
    assert_eq!(mass_command_args("   "), Vec::<String>::new());
}

#[test]
fn push_args_set_upstream_only_when_the_remote_lacks_the_branch() {
    assert_eq!(
        create_push_request_args("main", false),
        vec!["push".to_string(), "origin".to_string(), "main".to_string()]
    );
    assert_eq!(
        create_push_request_args("main", true),
        vec![
            "push".to_string(),
            "origin".to_string(),
            "main".to_string(),
            "--set-upstream".to_string(),
        ]
    );
    assert!(needs_upstream(""));
    assert!(!needs_upstream("abc\trefs/heads/main"));
}

#[test]
fn quick_actions_run_in_the_documented_order() {
    let cmds = execute_quick_actions("jo", "jo@example.com", "fix build");
    assert_eq!(cmds.len(), 5);
    assert_eq!(cmds[0], vec!["pull".to_string(), "--rebase".to_string()]);
    assert_eq!(cmds[1], vec!["config".to_string(), "user.name".to_string(), "jo".to_string()]);
    assert_eq!(
        cmds[2],
        vec!["config".to_string(), "user.email".to_string(), "jo@example.com".to_string()]
    );
    assert_eq!(cmds[3], vec!["add".to_string(), ".".to_string()]);
    assert_eq!(cmds[4], vec!["commit".to_string(), "-m".to_string(), "fix build".to_string()]);
}

#[test]
fn profile_selection_is_silent_only_for_a_unique_match() {
    assert_eq!(select_profile(&vec!["one".to_string()]), Some(0));
    assert_eq!(select_profile(&Vec::new()), None);
    assert_eq!(select_profile(&vec!["a".to_string(), "b".to_string()]), None);
}

#[test]
fn git_invocations_are_scoped_to_the_repository() {
    assert_eq!(
        create_git_cmd("/work/r"),
        vec!["git".to_string(), "-C".to_string(), "/work/r".to_string()]
    );
    assert_eq!(status_porcelain_args(), vec!["status".to_string(), "--porcelain".to_string()]);
    assert_eq!(
        get_remote_url_args(),
        vec!["config".to_string(), "--get".to_string(), "remote.origin.url".to_string()]
    );
    assert_eq!(
        get_current_branch_args(),
        vec!["branch".to_string(), "--show-current".to_string()]
    );
    assert_eq!(
        symbolic_ref_args(),
        vec![
            "symbolic-ref".to_string(),
            "refs/remotes/origin/HEAD".to_string(),
            "--short".to_string(),
        ]
    );
    assert_eq!(
        ls_remote_heads_args("main"),
        vec![
            "ls-remote".to_string(),
            "--heads".to_string(),
            "origin".to_string(),
            "main".to_string(),
        ]
    );
}
