use af::fault::Fault;
use af::shortcuts::{
    diff_command_words, fast_forward_command, find_first_remote, get_remote_and_default_branch,
    push_command, push_command_words, Abbreviation, Checkout, GitPushRemote, Head, Remote,
    Shortcut,
};

fn remote(name: &str, head: Option<&str>, branches: &[&str]) -> Remote {
    Remote {
        name: name.to_string(),
        head: head.map(|h| h.to_string()),
        branches: branches.iter().map(|b| b.to_string()).collect(),
    }
}

fn on_branch(name: &str) -> Option<Head> {
    Some(Head { shorthand: Some(name.to_string()), is_branch: true })
}

#[test]
fn test_finds_existing_remote_head() {
    let local_repo = Checkout {
        remotes: vec![remote("origin", Some("origin/master"), &["master"])],
        head: None,
    };
    let (remote_name, branch) = get_remote_and_default_branch(&local_repo, &["origin"]).unwrap();
    assert_eq!(remote_name, "origin");
    assert_eq!(branch, "master");
}

#[test]
fn test_fallback_to_main_if_head_missing() {
    let local_repo = Checkout { remotes: vec![remote("upstream", None, &["main"])], head: None };
    let (remote_name, branch) = get_remote_and_default_branch(&local_repo, &["upstream"]).unwrap();
    assert_eq!(remote_name, "upstream");
    assert_eq!(branch, "main");
}

#[test]
fn test_fallback_to_master_if_head_missing() {
    let local_repo = Checkout { remotes: vec![remote("upstream", None, &["master"])], head: None };
    let (remote_name, branch) = get_remote_and_default_branch(&local_repo, &["upstream"]).unwrap();
    assert_eq!(remote_name, "upstream");
    assert_eq!(branch, "master");
}

#[test]
fn test_fails_if_no_matching_branch() {
    let local_repo = Checkout { remotes: vec![remote("origin", None, &[])], head: None };
    let result = get_remote_and_default_branch(&local_repo, &["origin"]);
    assert!(result.is_err());
}

#[test]
fn the_first_remote_with_a_default_branch_is_taken() {
    let checkout = Checkout {
        remotes: vec![
            remote("origin", Some("origin/develop"), &[]),
            remote("upstream", None, &["master", "main"]),
            remote("fork", None, &[]),
        ],
        head: None,
    };
    let found = get_remote_and_default_branch(&checkout, &["upstream", "origin"]).unwrap();
    assert_eq!(found, ("upstream".to_string(), "main".to_string()));
    let found = get_remote_and_default_branch(&checkout, &["origin", "upstream"]).unwrap();
    assert_eq!(found, ("origin".to_string(), "develop".to_string()));
    let found = get_remote_and_default_branch(&checkout, &["fork", "missing", "origin"]).unwrap();
    assert_eq!(found.0, "origin");
    match get_remote_and_default_branch(&checkout, &["fork", "missing"]) {
        Err(fault) => {
            assert!(matches!(fault, Fault::NoDefaultBranch));
            assert_eq!(fault.message(), "Could not find remote and default branch");
        }
        Ok(found) => panic!("{:?}", found),
    }
    assert!(get_remote_and_default_branch(&checkout, &[]).is_err());
}

#[test]
fn the_name_of_the_remote_is_taken_off_the_head() {
    assert_eq!(
        remote("origin", Some("origin/feature/origin/x"), &[]).default_branch(),
        Some("feature/x".to_string())
    );
    assert_eq!(remote("origin", Some("upstream/main"), &[]).default_branch(), Some("upstream/main".to_string()));
    assert_eq!(remote("o", None, &["master", "main"]).default_branch(), Some("main".to_string()));
    assert_eq!(remote("o", None, &["trunk"]).default_branch(), None);
}

#[test]
fn remotes_are_tried_in_the_order_of_the_priority() {
    assert_eq!(GitPushRemote::default(), GitPushRemote::Origin);
    assert_eq!(GitPushRemote::Origin.remotes(), vec!["origin"]);
    assert_eq!(GitPushRemote::OriginFirst.remotes(), vec!["origin", "upstream"]);
    assert_eq!(GitPushRemote::Upstream.remotes(), vec!["upstream"]);
    assert_eq!(GitPushRemote::UpstreamFirst.remotes(), vec!["upstream", "origin"]);
    let checkout = Checkout { remotes: vec![remote("origin", None, &[])], head: None };
    assert_eq!(find_first_remote(&checkout, &GitPushRemote::UpstreamFirst.remotes()), Some("origin"));
    assert_eq!(find_first_remote(&checkout, &GitPushRemote::Upstream.remotes()), None);
}

#[test]
fn fast_forward_checks_out_the_default_branch_first() {
    let mut checkout = Checkout {
        remotes: vec![remote("origin", Some("origin/main"), &[])],
        head: on_branch("feature"),
    };
    assert_eq!(
        fast_forward_command(&checkout).unwrap(),
        "git checkout main && git fetch origin && git merge --ff-only origin/main"
    );
    checkout.head = on_branch("main");
    assert_eq!(
        fast_forward_command(&checkout).unwrap(),
        "git fetch origin && git merge --ff-only origin/main"
    );
    checkout.head = None;
    assert_eq!(
        fast_forward_command(&checkout).unwrap(),
        "git checkout main && git fetch origin && git merge --ff-only origin/main"
    );
    checkout.remotes.push(remote("upstream", None, &["master"]));
    assert_eq!(
        fast_forward_command(&checkout).unwrap(),
        "git checkout master && git fetch upstream && git merge --ff-only upstream/master"
    );
    checkout.remotes = vec![];
    assert_eq!(fast_forward_command(&checkout), None);
}

#[test]
fn push_names_remote_and_branch_and_flags() {
    let checkout = Checkout {
        remotes: vec![remote("origin", None, &[]), remote("upstream", None, &[])],
        head: on_branch("feature"),
    };
    assert_eq!(
        push_command(&checkout, GitPushRemote::Origin, false, false, false).unwrap(),
        "git push origin feature"
    );
    assert_eq!(
        push_command(&checkout, GitPushRemote::UpstreamFirst, true, false, false).unwrap(),
        "git push upstream feature --no-verify"
    );
    assert_eq!(
        push_command(&checkout, GitPushRemote::Origin, true, true, true).unwrap(),
        "git push origin feature --no-verify --force-with-lease"
    );
    assert_eq!(
        push_command(&checkout, GitPushRemote::Origin, false, false, true).unwrap(),
        "git push origin feature --force"
    );
    assert_eq!(
        push_command_words("o", "b", true, false, true),
        vec!["git", "push", "o", "b", "--no-verify", "--force"]
    );
    let detached = Checkout {
        remotes: checkout.remotes.clone(),
        head: Some(Head { shorthand: Some("HEAD".to_string()), is_branch: false }),
    };
    assert_eq!(push_command(&detached, GitPushRemote::Origin, false, false, false), None);
    let nameless = Checkout {
        remotes: checkout.remotes.clone(),
        head: Some(Head { shorthand: None, is_branch: true }),
    };
    assert_eq!(push_command(&nameless, GitPushRemote::Origin, false, false, false), None);
    let unborn = Checkout { remotes: checkout.remotes.clone(), head: None };
    assert_eq!(push_command(&unborn, GitPushRemote::Origin, false, false, false), None);
    let alone = Checkout { remotes: vec![], head: on_branch("feature") };
    assert_eq!(push_command(&alone, GitPushRemote::OriginFirst, false, false, false), None);
}

#[test]
fn diff_names_reference_and_files() {
    assert_eq!(diff_command_words(&None, &None, false), vec!["git", "diff"]);
    assert_eq!(
        diff_command_words(
            &Some(vec!["a.rs".to_string(), "b.rs".to_string()]),
            &Some("HEAD~1".to_string()),
            true
        ),
        vec!["git", "diff", "HEAD~1", "--", "a.rs", "b.rs", "|", "pbcopy"]
    );
    assert_eq!(diff_command_words(&Some(vec![]), &None, false), vec!["git", "diff", "--"]);
}

#[test]
fn a_short_name_is_written_out_for_a_checkout() {
    let checkout = Checkout {
        remotes: vec![remote("origin", Some("origin/main"), &[])],
        head: on_branch("main"),
    };
    let diff = Abbreviation::GitDiff {
        files: Some(vec!["src/lib.rs".to_string()]),
        reference: Some("HEAD".to_string()),
        pbcopy: true,
    };
    assert_eq!(diff.run(Some(&checkout)).unwrap(), "git diff HEAD -- src/lib.rs | pbcopy");
    assert_eq!(diff.run(None), None);
    let push = Abbreviation::GitPush {
        remote_priority: GitPushRemote::default(),
        skip_hooks: false,
        force_with_lease: true,
        force: false,
    };
    assert_eq!(push.run(Some(&checkout)).unwrap(), "git push origin main --force-with-lease");
    assert_eq!(push.run(None), None);
    let forward = Abbreviation::GitCheckoutMasterFetchFastForward;
    assert_eq!(
        forward.run(Some(&checkout)).unwrap(),
        "git fetch origin && git merge --ff-only origin/main"
    );
    assert_eq!(forward.run(None), None);
    let shortcut = Shortcut::Abbreviations(forward.clone());
    assert_eq!(shortcut.run(Some(&checkout)), forward.run(Some(&checkout)));
    assert_eq!(shortcut.run(None), None);
}
