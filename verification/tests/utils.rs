use af::fault::Fault;
use af::utils::{
    accept_repository, convert_to_ssh, format_directory, has_form, parse_repository, ssh_form,
    validate_repository, HTTP_FORM, SSH_FORM,
};

#[test]
fn parses_valid_ssh_url() {
    let url = "git@github.com:org/repo.git";
    let parsed = parse_repository(url).unwrap();
    assert_eq!(parsed, url.trim());
}

#[test]
fn parses_valid_https_url() {
    let url = "https://github.com/org/repo";
    let parsed = parse_repository(url).unwrap();
    assert_eq!(parsed, url.trim());
}

#[test]
fn parses_valid_https_url_with_trailing_path() {
    let url = "https://github.com/org/repo/tree/main";
    let parsed = parse_repository(url).unwrap();
    assert_eq!(parsed, url.trim());
}

#[test]
fn trims_whitespace_before_parsing() {
    let url = "  git@github.com:org/repo.git  ";
    let parsed = parse_repository(url).unwrap();
    assert_eq!(parsed, "git@github.com:org/repo.git");
}

#[test]
fn fails_on_invalid_url() {
    let url = "ftp://github.com/org/repo";
    let err = parse_repository(url).unwrap_err().message();
    assert!(
        err.contains("Unsupported repository URL"),
        "unexpected error message: {}",
        err
    );
}

#[test]
fn return_ssh() {
    let url = "git@github.com:org/repo.git";
    let ssh = convert_to_ssh(url).unwrap();
    assert_eq!(ssh, "git@github.com:org/repo.git");
}

#[test]
fn converts_https_to_ssh() {
    let url = "https://github.com/org/repo";
    let ssh = convert_to_ssh(url).unwrap();
    assert_eq!(ssh, "git@github.com:org/repo.git");
}

#[test]
fn converts_http_to_ssh() {
    let url = "http://gitlab.com/group/project";
    let ssh = convert_to_ssh(url).unwrap();
    assert_eq!(ssh, "git@gitlab.com:group/project.git");
}

#[test]
fn strips_trailing_git_suffix() {
    let url = "https://bitbucket.org/team/repo.git";
    let ssh = convert_to_ssh(url).unwrap();
    assert_eq!(ssh, "git@bitbucket.org:team/repo.git");
}

#[test]
fn ignores_extra_path_parts() {
    let url = "https://github.com/org/repo/tree/main";
    let ssh = convert_to_ssh(url).unwrap();
    assert_eq!(ssh, "git@github.com:org/repo.git");
}

#[test]
fn trims_input() {
    let url = "  https://github.com/org/repo  ";
    let ssh = convert_to_ssh(url).unwrap();
    assert_eq!(ssh, "git@github.com:org/repo.git");
}

#[test]
fn conversion_refuses_what_is_no_address() {
    match convert_to_ssh("ftp://github.com/org/repo") {
        Err(Fault::NotConvertible) => {}
        other => panic!("{:?}", other),
    }
    assert_eq!(
        convert_to_ssh("ftp://x").unwrap_err().message(),
        "Only http(s) repository URLs are supported for conversion"
    );
    assert!(convert_to_ssh("https://github.com/org").is_err());
    assert_eq!(
        convert_to_ssh("https://github.com/org/repo.git.git").unwrap(),
        "git@github.com:org/repo.git"
    );
}

#[test]
fn validation_follows_parsing() {
    assert!(validate_repository("git@github.com:org/repo.git").is_ok());
    assert!(validate_repository(" https://github.com/org/repo ").is_ok());
    assert!(matches!(
        validate_repository("github.com/org/repo"),
        Err(Fault::UnsupportedRepository)
    ));
    assert!(validate_repository("").is_err());
    assert!(validate_repository("git@github.com:org/repo").is_err());
}

#[test]
fn accepting_goes_by_the_two_forms() {
    assert_eq!(accept_repository("x", true, false).unwrap(), "x");
    assert_eq!(accept_repository("x", false, true).unwrap(), "x");
    assert_eq!(accept_repository("x", true, true).unwrap(), "x");
    assert!(matches!(accept_repository("x", false, false), Err(Fault::UnsupportedRepository)));
}

#[test]
fn forms_are_regular_expressions() {
    assert_eq!(has_form(SSH_FORM, "git@github.com:org/repo.git").unwrap(), true);
    assert_eq!(has_form(SSH_FORM, "git@github.com/org/repo.git").unwrap(), false);
    assert_eq!(has_form(HTTP_FORM, "http://h/o/r").unwrap(), true);
    assert_eq!(has_form(HTTP_FORM, "http://h/o").unwrap(), false);
    assert_eq!(has_form("^a+$", "aaa").unwrap(), true);
    assert_eq!(has_form("^a+$", "^a+$").unwrap(), false);
    match has_form("(unclosed", "x") {
        Err(Fault::Pattern { reason }) => {
            assert!(!reason.is_empty());
            assert_ne!(reason, "(unclosed");
        }
        other => panic!("{:?}", other),
    }
}

#[test]
fn the_ssh_form_is_made_of_three_parts() {
    let groups = vec![Some("whole"), Some("host"), Some("org"), Some("repo.git")];
    assert_eq!(ssh_form(&groups).unwrap(), "git@host:org/repo.git");
    let groups = vec![Some("whole"), Some("host"), Some("org"), Some("repo")];
    assert_eq!(ssh_form(&groups).unwrap(), "git@host:org/repo.git");
    let groups = vec![Some("whole"), Some("host"), None, Some("repo")];
    assert_eq!(ssh_form(&groups), None);
    let groups = vec![Some("whole"), Some("host"), Some("org")];
    assert_eq!(ssh_form(&groups), None);
}

#[test]
fn directories_are_shown_from_home() {
    assert_eq!(format_directory("/home/me/projects/af", "/home/me"), "~/projects/af");
    assert_eq!(format_directory("/srv/af", "/home/me"), "/srv/af");
    assert_eq!(format_directory("/a/b", ""), "/a/b".replace("", "~"));
    assert_eq!(format_directory("/home/me/x/home/me", "/home/me"), "~/x~");
}
