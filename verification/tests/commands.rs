use af::browser::command::{arguments, search_dirs, Action, Browser};
use af::browser::error::Failure;
use af::browser::kind::Kind;
use af::browser::probe::{Candidate, Glob};
use af::browser::resolve::Outcome;
use af::browser::search::{
    paths_to_check, patterns_for_cask, patterns_to_search, prefix_query, version_query, Launch,
    Survey,
};
use af::dot::{environment, position, running_ide, select, Dot, DotCommands, Ide};
use af::fault::Fault;
use af::git::{Clearing, CloneProject, Followup, Git, Question, Site};
use af::repo::Repo;

fn firefox_survey() -> Survey {
    let path = Kind::Firefox.applications_path();
    let mut survey = Survey::new();
    survey.existing = vec![path.clone()];
    survey.launches = vec![Launch {
        path,
        outcome: Outcome::Exited { code: Some(0), stdout: b"Mozilla Firefox 128.0\n".to_vec() },
    }];
    survey
}

#[test]
fn a_new_survey_has_seen_nothing() {
    let survey = Survey::new();
    assert!(survey.existing.is_empty());
    assert!(survey.bin.is_empty());
    assert!(survey.casks.is_empty());
    assert!(survey.globs.is_empty());
    assert!(survey.bundles.is_empty());
    assert!(survey.launches.is_empty());
    assert!(matches!(survey.prefix, Outcome::NotStarted { .. }));
}

#[test]
fn the_queries_name_program_and_flag() {
    let q = prefix_query();
    assert_eq!(q.program, "brew");
    assert_eq!(q.args, vec!["--prefix"]);
    let q = version_query(&Candidate { kind: Kind::Firefox, path: "/f/firefox".to_string() });
    assert_eq!(q.program, "/f/firefox");
    assert_eq!(q.args, vec!["--version"]);
}

#[test]
fn the_paths_to_check_are_those_that_the_search_reads() {
    let bundles = vec!["/A/One.app".to_string(), "/A/notes.txt".to_string(), "/A/Two.app".to_string()];
    let kinds = [Kind::Firefox, Kind::Opera];
    assert_eq!(
        paths_to_check(&bundles, &kinds),
        vec![
            "/Applications/Firefox.app/Contents/MacOS/firefox",
            "/Applications/Opera.app/Contents/MacOS/Opera",
            "/A/One.app/Contents/MacOS/firefox",
            "/A/One.app/Contents/MacOS/Opera",
            "/A/Two.app/Contents/MacOS/firefox",
            "/A/Two.app/Contents/MacOS/Opera",
        ]
    );
    assert!(paths_to_check(&bundles, &[]).is_empty());
}

#[test]
fn the_patterns_to_search_are_those_of_the_matching_casks() {
    let casks = vec![
        "/p/Caskroom/docker".to_string(),
        "/p/Caskroom/Firefox".to_string(),
        "/p/Caskroom/google-chrome".to_string(),
    ];
    assert_eq!(
        patterns_to_search(&casks, &Kind::all()),
        vec!["/p/Caskroom/Firefox/latest/*.app/Contents/MacOS/firefox"]
    );
    assert!(patterns_to_search(&casks, &[Kind::Chrome]).is_empty());
    assert_eq!(
        patterns_for_cask("/c", "firefox and Opera", &[Kind::Opera, Kind::Edge, Kind::Firefox]),
        vec!["/c/latest/*.app/Contents/MacOS/Opera", "/c/latest/*.app/Contents/MacOS/firefox"]
    );
    let glob = Glob { pattern: Kind::Firefox.cask_pattern("/p/Caskroom/Firefox"), first: None };
    assert_eq!(glob.pattern, patterns_to_search(&casks, &[Kind::Firefox])[0]);
}

#[test]
fn the_directories_searched_are_those_of_brew_and_of_the_applications() {
    assert_eq!(search_dirs(None), vec!["/opt/homebrew", "/Applications"]);
    assert_eq!(search_dirs(Some("/usr/local")), vec!["/usr/local", "/Applications"]);
}

#[test]
fn a_browser_opens_an_address() {
    assert_eq!(arguments(true, "https://a.example/"), vec!["--new-tab", "--url", "https://a.example/"]);
    assert_eq!(arguments(false, "https://a.example/"), vec!["--url", "https://a.example/"]);
    let open = Browser::Open { new_tab: true, browser: Kind::Firefox, url: "https://a.example/".to_string() };
    match open.run(&firefox_survey(), true) {
        Ok(Action::Spawn(invocation)) => {
            assert_eq!(invocation.program, Kind::Firefox.applications_path());
            assert_eq!(invocation.args, vec!["--new-tab", "--url", "https://a.example/"]);
        }
        other => panic!("{:?}", other),
    }
    assert!(matches!(open.run(&firefox_survey(), false), Err(Failure::Unsupported)));
    assert_eq!(
        open.run(&firefox_survey(), false).unwrap_err().message(),
        "This subcommand is not supported on non-macOS systems"
    );
    assert!(matches!(
        open.run(&Survey::new(), true),
        Err(Failure::NotFound { kind: Kind::Firefox })
    ));
    assert!(matches!(open.run(&Survey::new(), false), Err(Failure::Unsupported)));
}

#[test]
fn the_browsers_found_are_written_out() {
    let survey = firefox_survey();
    let lines = Browser::Find { kinds: Kind::all(), all: false, path: false };
    match lines.run(&survey, false) {
        Ok(Action::Print(lines)) => assert_eq!(
            lines,
            vec!["Mozilla Firefox 128.0         /Applications/Firefox.app/Contents/MacOS/firefox"]
        ),
        other => panic!("{:?}", other),
    }
    let paths = Browser::Find { kinds: Kind::all(), all: true, path: true };
    match paths.run(&survey, true) {
        Ok(Action::Print(lines)) => {
            assert_eq!(lines, vec!["/Applications/Firefox.app/Contents/MacOS/firefox"])
        }
        other => panic!("{:?}", other),
    }
    let none = Browser::Find { kinds: vec![Kind::Opera], all: true, path: true };
    match none.run(&survey, true) {
        Ok(Action::Print(lines)) => assert!(lines.is_empty()),
        other => panic!("{:?}", other),
    }
}

#[test]
fn kinds_are_written_by_their_short_names() {
    assert_eq!(Kind::Firefox.to_string(), "Firefox");
    assert_eq!(Kind::Chrome.to_string(), "Chrome");
}

#[test]
fn the_terminal_tells_its_environment() {
    assert_eq!(
        running_ide("application.com.jetbrains.goland.1234.5678").unwrap(),
        Some("goland".to_string())
    );
    assert_eq!(
        running_ide("application.com.jetbrains.rustrover-EAP.99").unwrap(),
        Some("rustrover".to_string())
    );
    assert_eq!(running_ide("com.apple.Terminal").unwrap(), None);
    assert_eq!(running_ide("").unwrap(), None);
    assert_eq!(environment(&vec![Some("whole"), Some("clion")]), "clion");
    assert_eq!(environment(&vec![Some("whole"), None]), "");
    assert_eq!(environment(&vec![Some("whole")]), "");
}

#[test]
fn environments_have_their_places() {
    assert_eq!(position("clion").unwrap(), 0);
    assert_eq!(position("goland").unwrap(), 1);
    assert_eq!(position("rubymine").unwrap(), 2);
    assert_eq!(position("rustrover").unwrap(), 3);
    assert_eq!(position("webstorm").unwrap(), 4);
    let all = af::ides::list();
    for name in ["", "aaa", "idea", "pycharm", "rust", "zed"] {
        match position(name) {
            Err(Fault::UnknownIde { place }) => {
                assert_eq!(Err(place), all.binary_search(&name));
            }
            other => panic!("{:?}", other),
        }
    }
    assert_eq!(Fault::UnknownIde { place: 3 }.message(), "3");
    assert_eq!(select(Some("webstorm"), "goland").unwrap(), 4);
    assert_eq!(select(None, "goland").unwrap(), 1);
    assert!(select(Some("idea"), "goland").is_err());
}

#[test]
fn the_directory_of_configuration_files_is_opened() {
    let ide = Ide { path: Some("/home/me/dotfiles".to_string()) };
    let run = ide.run("application.com.jetbrains.webstorm.1").unwrap().unwrap();
    assert_eq!(run.program, "webstorm");
    assert_eq!(run.args, vec!["/home/me/dotfiles"]);
    let run = ide.run("iTerm").unwrap().unwrap();
    assert_eq!(run.program, "goland");
    assert!(matches!(
        ide.run("application.com.jetbrains.pycharm.1"),
        Err(Fault::UnknownIde { place: 2 })
    ));
    let nowhere = Ide { path: None };
    assert!(nowhere.run("iTerm").unwrap().is_none());
    assert!(nowhere.run("application.com.jetbrains.pycharm.1").is_err());
    let dot = Dot { command: None, ide: ide.clone() };
    assert_eq!(dot.run("iTerm").unwrap().unwrap().program, "goland");
    let dot = Dot {
        command: Some(DotCommands::Ide(Ide { path: Some("/other".to_string()) })),
        ide,
    };
    assert_eq!(dot.run("iTerm").unwrap().unwrap().args, vec!["/other"]);
}

fn cloning() -> CloneProject {
    CloneProject {
        repository_url: None,
        open_ide: true,
        force: false,
        root_directory: Some("/home/me/projects".to_string()),
        directory: None,
        rename_origin: true,
        convert_to_ssh: true,
    }
}

#[test]
fn an_address_is_converted_where_that_is_asked_for() {
    let mut clone = cloning();
    assert_eq!(
        clone.parse_repository(" https://github.com/org/repo ").unwrap(),
        "git@github.com:org/repo.git"
    );
    assert_eq!(
        clone.offered("https://github.com/org/repo\n").unwrap(),
        Some("git@github.com:org/repo.git".to_string())
    );
    assert_eq!(clone.offered("some text").unwrap(), None);
    clone.convert_to_ssh = false;
    assert_eq!(
        clone.parse_repository(" https://github.com/org/repo ").unwrap(),
        "https://github.com/org/repo"
    );
    assert_eq!(
        clone.offered("https://github.com/org/repo\n").unwrap(),
        Some("https://github.com/org/repo".to_string())
    );
    assert!(matches!(Git::CloneProject(clone), Git::CloneProject(_)));
}

#[test]
fn the_clone_goes_under_the_root_by_organisation_and_name() {
    let repo = Repo::parse("git@github.com:kumahq/kuma.git").unwrap();
    let mut clone = cloning();
    assert_eq!(clone.target(&repo).unwrap(), "/home/me/projects/kumahq/kuma");
    clone.directory = Some("/tmp/kuma".to_string());
    assert_eq!(clone.target(&repo).unwrap(), "/tmp/kuma");
    clone.directory = None;
    clone.root_directory = None;
    match clone.target(&repo) {
        Err(fault) => {
            assert!(matches!(fault, Fault::NoDirectory));
            assert_eq!(
                fault.message(),
                "At least one of --directory or --root-directory must be provided"
            );
        }
        Ok(path) => panic!("{:?}", path),
    }
}

#[test]
fn a_directory_in_the_way_is_removed_after_a_question() {
    let mut clone = cloning();
    let free = Site { occupied: false, repository: true, dirty: true };
    assert_eq!(clone.clearing(free), Clearing { question: None, remove: false });
    let plain = Site { occupied: true, repository: false, dirty: false };
    assert_eq!(clone.clearing(plain), Clearing { question: None, remove: true });
    let dirty = Site { occupied: true, repository: true, dirty: true };
    assert_eq!(clone.clearing(dirty), Clearing { question: Some(Question::Dirty), remove: true });
    let clean = Site { occupied: true, repository: true, dirty: false };
    assert_eq!(clone.clearing(clean), Clearing { question: Some(Question::Clean), remove: true });
    clone.force = true;
    assert_eq!(clone.clearing(clean), Clearing { question: None, remove: true });
    assert_eq!(clone.clearing(dirty), Clearing { question: Some(Question::Dirty), remove: true });
}

#[test]
fn after_the_cloning_the_remote_is_renamed_and_the_clone_opened() {
    let mut clone = cloning();
    assert_eq!(clone.followup(true, false), Followup { rename_origin: true, open_ide: true });
    assert_eq!(clone.followup(false, true), Followup { rename_origin: false, open_ide: true });
    assert_eq!(clone.followup(false, false), Followup { rename_origin: false, open_ide: false });
    clone.rename_origin = false;
    clone.open_ide = false;
    assert_eq!(clone.followup(true, true), Followup { rename_origin: false, open_ide: false });
    assert_eq!(clone.followup(false, true), Followup { rename_origin: false, open_ide: false });
}

#[test]
fn the_environment_offered_first_is_that_of_the_project() {
    let mut clone = cloning();
    assert_eq!(clone.open_ide_maybe(Some("rustrover"), "iTerm").unwrap(), Some(3));
    assert_eq!(
        clone.open_ide_maybe(None, "application.com.jetbrains.goland.1").unwrap(),
        Some(1)
    );
    assert_eq!(clone.open_ide_maybe(None, "iTerm").unwrap(), Some(0));
    assert!(clone.open_ide_maybe(None, "application.com.jetbrains.idea.1").is_err());
    assert!(clone.open_ide_maybe(Some("vim"), "iTerm").is_err());
    clone.open_ide = false;
    assert_eq!(clone.open_ide_maybe(Some("vim"), "iTerm").unwrap(), None);
}
