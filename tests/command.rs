use gud::repo_url::repository_name;
use gud::stash::{find_stash, has_label, parse_stash_list, stash_name_for_branch};
use gud::text::parse_count;
use gud::workflow::{
    command_line, commits_ahead, commits_behind, get_branch_name, git, pop_stashed_branch_changes, stage,
    stash_branch_changes, switch, sync, unstage, Command, GudError, Report, Session, Task,
};

fn feed(session: &mut Session, replies: &[Result<&str, &str>]) -> Vec<Vec<String>> {
    let mut issued = Vec::new();
    for reply in replies {
        let args = session.next_command().expect("a command to run");
        issued.push(args);
        session.advance(reply.map(|s| s.to_owned()).map_err(|e| e.to_owned()));
    }
    issued
}

fn words(args: &[&str]) -> Vec<String> {
    args.iter().map(|a| a.to_string()).collect()
}

#[test]
fn bar() {
    let str = "stash@{0}: On test_branch: gud_local_changes:test_branch
    stash@{1}: On master: gud_local_changes:master
    ";
    let entries = parse_stash_list(str);
    for c in &entries {
        println!("{} {}", c.reference, c.message);
    }
    assert_eq!(entries.len(), 2);
    assert_eq!(entries[1].reference, "stash@{1}");
    assert_eq!(entries[1].message, "On master: gud_local_changes:master");
}

#[test]
fn repository_name_test() {
    let urls = [
        "git@github.com:brundonsmith/rust_lisp.git",
        "https://github.com/brundonsmith/rust_lisp.git",
        "https://github.com/brundonsmith/rust_lisp",
    ];

    for url in urls {
        assert_eq!(repository_name(url), Ok("rust_lisp".to_owned()));
    }
}

#[test]
fn repository_name_of_short_hosts() {
    for url in ["git@host:org/repo.git", "https://host/org/repo.git", "https://host/org/repo"] {
        assert_eq!(repository_name(url), Ok("repo".to_owned()));
    }
    assert_eq!(repository_name("https://host/org/"), Err(()));
    assert_eq!(repository_name(""), Err(()));
    assert_eq!(repository_name("plain"), Ok("plain".to_owned()));
}

#[test]
fn stash_listing_two_records() {
    let text = "stash@{0}: On test_branch: tag:test_branch\nstash@{1}: On master: tag:master\n";
    let entries = parse_stash_list(text);
    assert_eq!(entries.len(), 2);
    assert_eq!(entries[0].reference, "stash@{0}");
    assert_eq!(entries[0].message, "On test_branch: tag:test_branch");
    assert_eq!(entries[1].reference, "stash@{1}");
    assert_eq!(entries[1].message, "On master: tag:master");
}

#[test]
fn stash_listing_skips_other_shapes() {
    let text = "stash@{0}: WIP on main: abc\nstash@{}: On x\nstash@{12}: On dev: y\n";
    let entries = parse_stash_list(text);
    assert_eq!(entries.len(), 1);
    assert_eq!(entries[0].reference, "stash@{12}");
    assert_eq!(entries[0].message, "On dev: y");
    assert_eq!(parse_stash_list("").len(), 0);
}

#[test]
fn stash_tags_differ_for_prefix_names() {
    let names = ["feat", "feature", "feature/x", "main", "mai"];
    for a in names {
        for b in names {
            assert_eq!(stash_name_for_branch(a) == stash_name_for_branch(b), a == b);
        }
    }
    assert_eq!(stash_name_for_branch("main"), "gud_local_changes:main");
}

#[test]
fn find_stash_takes_first_labelled() {
    let entries = parse_stash_list(
        "stash@{0}: On a: gud_local_changes:a\nstash@{1}: On b: gud_local_changes:b\nstash@{2}: On b: gud_local_changes:b\n",
    );
    assert_eq!(find_stash(&entries, "gud_local_changes:b"), Some(1));
    assert_eq!(find_stash(&entries, "gud_local_changes:c"), None);
}

#[test]
fn counts_parse_as_usize_does() {
    assert_eq!(parse_count("2"), Some(2));
    assert_eq!(parse_count("+17"), Some(17));
    assert_eq!(parse_count("0"), Some(0));
    assert_eq!(parse_count(""), None);
    assert_eq!(parse_count("+"), None);
    assert_eq!(parse_count("-1"), None);
    assert_eq!(parse_count("1a"), None);
    assert_eq!(parse_count("99999999999999999999999"), None);
    assert_eq!(parse_count("18446744073709551615"), Some(usize::MAX));
}

#[test]
fn label_must_end_the_description() {
    assert!(has_label("On feat: gud_local_changes:feat", "gud_local_changes:feat"));
    assert!(!has_label("On feat-x: gud_local_changes:feat-x", "gud_local_changes:feat"));
    assert!(!has_label("On feat: gud_local_changes:feat", "gud_local_changes:feat-x"));
    assert!(!has_label("gud_local_changes:feat", "gud_local_changes:feat"));
    assert!(!has_label("", "x"));
}

#[test]
fn restore_skips_stash_of_prefix_named_branch() {
    let mut s = Session::start(Command::Switch { branch_name: "feat".to_owned() });
    let issued = feed(
        &mut s,
        &[
            Ok("feat-x\n"),
            Ok(""),
            Ok(""),
            Ok(""),
            Ok("feat\n"),
            Ok("stash@{0}: On feat-x: gud_local_changes:feat-x\nstash@{1}: On feat: gud_local_changes:feat\n"),
            Ok(""),
            Ok(""),
        ],
    );
    assert_eq!(issued[2], words(&["stash", "push", "-m", "gud_local_changes:feat-x"]));
    assert_eq!(issued[6], words(&["stash", "pop", "stash@{1}"]));
    assert!(s.next_command().is_none());
}

#[test]
fn restore_leaves_prefix_named_branch_stash_alone() {
    let mut s = Session::start(Command::Switch { branch_name: "feat".to_owned() });
    feed(
        &mut s,
        &[Ok("feat-x\n"), Ok(""), Ok(""), Ok(""), Ok("feat\n"), Ok("stash@{0}: On feat-x: gud_local_changes:feat-x\n")],
    );
    assert!(s.next_command().is_none());
    assert!(matches!(s.into_outcome(), Ok(Report::Done)));
}

#[test]
fn rebase_stops_when_sync_fails() {
    let mut s = Session::start(Command::Rebase { other_branch: "main".to_owned() });
    let replies: Vec<Result<&str, &str>> =
        vec![Ok("topic\n"), Ok("topic\n"), Ok(""), Ok(""), Ok(""), Ok("main\n"), Ok(""), Err("fetch failed")];
    let issued = feed(&mut s, &replies);
    assert_eq!(issued[7], words(&["fetch"]));
    assert!(s.next_command().is_none());
    match s.into_outcome() {
        Err(GudError::Execution(m)) => assert_eq!(m, "fetch failed"),
        _ => panic!("expected an execution error"),
    }
}

#[test]
fn branch_name_is_trimmed_of_unicode_white_space() {
    let mut s = Session::start(Command::Status);
    feed(&mut s, &[Ok("\u{a0}\tmain\u{2009}\u{3000}\n"), Ok("")]);
    match s.into_outcome() {
        Ok(Report::Status { branch, .. }) => assert_eq!(branch, "main"),
        _ => panic!("expected a status"),
    }
}

#[test]
fn sync_reports_divergence() {
    let mut s = Session::start(Command::Sync);
    let issued = feed(&mut s, &[Ok(""), Ok("main\n"), Ok("2\n"), Ok("main\n"), Ok("3\n"), Ok(""), Ok("")]);
    assert_eq!(issued[0], words(&["fetch"]));
    assert_eq!(issued[2], words(&["rev-list", "origin/main..main", "--count"]));
    assert_eq!(issued[4], words(&["rev-list", "main..origin/main", "--count"]));
    assert_eq!(issued[5], words(&["pull", "--rebase"]));
    assert_eq!(issued[6], words(&["push"]));
    assert!(s.next_command().is_none());
    assert!(matches!(s.into_outcome(), Ok(Report::Synced { ahead: 2, behind: 3 })));
}

#[test]
fn unreadable_count_is_a_parse_error() {
    let mut s = Session::start(Command::Sync);
    feed(&mut s, &[Ok(""), Ok("main\n"), Ok("fatal: bad revision\n")]);
    assert!(s.next_command().is_none());
    match s.into_outcome() {
        Err(GudError::Parse(text)) => assert_eq!(text, "fatal: bad revision"),
        _ => panic!("expected a parse error"),
    }
}

#[test]
fn failed_step_stops_the_verb() {
    let mut s = Session::start(Command::Switch { branch_name: "dev".to_owned() });
    feed(&mut s, &[Ok("main\n"), Err("cannot run git")]);
    assert!(s.next_command().is_none());
    match s.into_outcome() {
        Err(GudError::Execution(m)) => assert_eq!(m, "cannot run git"),
        _ => panic!("expected an execution error"),
    }
}

#[test]
fn switch_round_trips_through_own_stash() {
    let mut s = Session::start(Command::Switch { branch_name: "dev".to_owned() });
    let issued = feed(
        &mut s,
        &[
            Ok("main\n"),
            Ok(""),
            Ok(""),
            Ok(""),
            Ok("dev\n"),
            Ok("stash@{0}: On main: gud_local_changes:main\nstash@{1}: On dev: gud_local_changes:dev\n"),
            Ok(""),
            Ok(""),
        ],
    );
    assert_eq!(issued[1], words(&["add", "."]));
    assert_eq!(issued[2], words(&["stash", "push", "-m", "gud_local_changes:main"]));
    assert_eq!(issued[3], words(&["checkout", "dev"]));
    assert_eq!(issued[5], words(&["stash", "list"]));
    assert_eq!(issued[6], words(&["stash", "pop", "stash@{1}"]));
    assert_eq!(issued[7], words(&["reset", "."]));
    assert!(s.next_command().is_none());
    assert!(matches!(s.into_outcome(), Ok(Report::Done)));
}

#[test]
fn preserve_then_restore_same_branch() {
    let mut s = Session::start(Command::Switch { branch_name: "main".to_owned() });
    let issued = feed(
        &mut s,
        &[Ok("main\n"), Ok(""), Ok(""), Ok(""), Ok("main\n"), Ok("stash@{0}: On main: gud_local_changes:main\n"), Ok(""), Ok("")],
    );
    assert_eq!(issued[6], words(&["stash", "pop", "stash@{0}"]));
    assert_eq!(issued[7], words(&["reset", "."]));
    assert!(s.next_command().is_none());
}

#[test]
fn restore_without_stash_does_nothing() {
    let mut s = Session::start(Command::Switch { branch_name: "dev".to_owned() });
    feed(
        &mut s,
        &[Ok("main\n"), Ok(""), Ok(""), Ok(""), Ok("dev\n"), Ok("stash@{0}: On main: gud_local_changes:main\n")],
    );
    assert!(s.next_command().is_none());
    assert!(matches!(s.into_outcome(), Ok(Report::Done)));
}

#[test]
fn branch_create_keeps_staged_changes() {
    let mut s = Session::start(Command::Branch { branch_name: "topic".to_owned() });
    let issued = feed(&mut s, &[Ok("main\n"), Ok(""), Ok(""), Ok(""), Ok("")]);
    assert_eq!(issued[0], words(&["rev-parse", "--abbrev-ref", "HEAD"]));
    assert_eq!(issued[2], words(&["stash", "push", "-k", "-m", "gud_local_changes:main"]));
    assert_eq!(issued[3], words(&["reset", "."]));
    assert_eq!(issued[4], words(&["checkout", "-b", "topic"]));
    assert!(issued.iter().all(|a| a[0] != "stash" || a[1] != "pop" && a[1] != "list"));
    assert!(s.next_command().is_none());
}

#[test]
fn status_reports_branch_and_changes() {
    let mut s = Session::start(Command::Status);
    feed(&mut s, &[Ok("  main \n"), Ok(" M src/lib.rs\n")]);
    match s.into_outcome() {
        Ok(Report::Status { branch, changes }) => {
            assert_eq!(branch, "main");
            assert_eq!(changes, " M src/lib.rs\n");
        }
        _ => panic!("expected a status"),
    }
}

#[test]
fn rebase_returns_to_saved_branch() {
    let mut s = Session::start(Command::Rebase { other_branch: "main".to_owned() });
    let mut replies: Vec<Result<&str, &str>> = vec![Ok("topic\n")];
    replies.extend([Ok("topic\n"), Ok(""), Ok(""), Ok(""), Ok("main\n"), Ok("")]);
    replies.extend([Ok(""), Ok("main\n"), Ok("0"), Ok("main\n"), Ok("0"), Ok(""), Ok("")]);
    replies.extend([Ok("main\n"), Ok(""), Ok(""), Ok(""), Ok("topic\n"), Ok(""), Ok("")]);
    let issued = feed(&mut s, &replies);
    assert_eq!(issued[4], words(&["checkout", "main"]));
    assert_eq!(issued[17], words(&["checkout", "topic"]));
    assert_eq!(issued[20], words(&["rebase", "main"]));
    assert!(s.next_command().is_none());
    assert!(matches!(s.into_outcome(), Ok(Report::Done)));
}

#[test]
fn simple_verbs_are_one_step() {
    let cases = [
        (Command::Clone { url: "https://host/org/repo".to_owned() }, words(&["clone", "https://host/org/repo"])),
        (Command::Stage { pattern: "src".to_owned() }, words(&["add", "src"])),
        (Command::Unstage { pattern: "src".to_owned() }, words(&["reset", "src"])),
        (Command::Clear, words(&["reset", "--hard"])),
    ];
    for (command, expected) in cases {
        let mut s = Session::start(command);
        let issued = feed(&mut s, &[Ok("")]);
        assert_eq!(issued[0], expected);
        assert!(s.next_command().is_none());
    }
}

#[test]
fn commit_then_syncs() {
    let mut s = Session::start(Command::Commit { message: "msg".to_owned() });
    let issued = feed(&mut s, &[Ok(""), Ok(""), Ok("m"), Ok("1"), Ok("m"), Ok("0"), Ok(""), Ok("")]);
    assert_eq!(issued[0], words(&["commit", "-m", "msg"]));
    assert!(matches!(s.into_outcome(), Ok(Report::Synced { ahead: 1, behind: 0 })));
}

#[test]
fn unavailable_verbs() {
    assert!(!Command::History.is_available());
    assert!(!Command::Undo.is_available());
    assert!(Command::Sync.is_available());
}

fn lines_of(tasks: &[Task], branch: &str, saved: &str) -> Vec<Vec<String>> {
    let (b, s) = (branch.to_owned(), saved.to_owned());
    tasks.iter().map(|t| command_line(t, &b, &s)).collect()
}

#[test]
fn step_lists_of_the_building_blocks() {
    assert_eq!(lines_of(&get_branch_name(), "x", ""), vec![words(&["rev-parse", "--abbrev-ref", "HEAD"])]);
    assert_eq!(lines_of(&commits_ahead(), "dev", "")[1], words(&["rev-list", "origin/dev..dev", "--count"]));
    assert_eq!(lines_of(&commits_behind(), "dev", "")[1], words(&["rev-list", "dev..origin/dev", "--count"]));
    assert_eq!(sync().len(), 7);
    assert_eq!(lines_of(&stage("a.rs"), "", ""), vec![words(&["add", "a.rs"])]);
    assert_eq!(lines_of(&unstage("a.rs"), "", ""), vec![words(&["reset", "a.rs"])]);
    assert_eq!(lines_of(&git(words(&["status"])), "", ""), vec![words(&["status"])]);
    let kept = lines_of(&stash_branch_changes(true), "dev", "");
    assert_eq!(kept.len(), 4);
    assert_eq!(kept[2], words(&["stash", "push", "-k", "-m", "gud_local_changes:dev"]));
    assert_eq!(kept[3], words(&["reset", "."]));
    assert_eq!(stash_branch_changes(false).len(), 3);
    let restore = lines_of(&pop_stashed_branch_changes(), "dev", "");
    assert_eq!(restore[1], words(&["stash", "list"]));
    let switching = lines_of(&switch("main"), "dev", "");
    assert_eq!(switching.len(), 6);
    assert_eq!(switching[3], words(&["checkout", "main"]));
}
