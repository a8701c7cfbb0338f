use af::fault::Fault;
use af::repo::{rank, Repo, Share};

fn share(language: &str, bytes: i64) -> Share {
    Share { bytes, language: language.to_string() }
}

fn repo() -> Repo<'static> {
    Repo::parse("git@github.com:o/n.git").unwrap()
}

fn plain(shares: &Vec<Share>) -> Vec<(i64, String)> {
    shares.iter().map(|s| (s.bytes, s.language.clone())).collect()
}

#[test]
fn an_address_names_a_repository() {
    let repo = Repo::parse("git@github.com:kumahq/kuma.git").unwrap();
    assert_eq!(repo.username, "git");
    assert_eq!(repo.host, "github.com");
    assert_eq!(repo.org, "kumahq");
    assert_eq!(repo.name, "kuma");
    assert_eq!(repo.short_format(), "github.com/kumahq/kuma");
    let repo = Repo::parse("git@host:org/group/name.git").unwrap();
    assert_eq!(repo.org, "org");
    assert_eq!(repo.name, "group/name");
    assert_eq!(repo.short_format(), "host/org/group/name");
}

#[test]
fn what_is_no_address_names_none() {
    for url in ["https://github.com/org/repo", "git@github.com:org/repo", "", "git@:o/r.git"] {
        match Repo::parse(url) {
            Err(Fault::InvalidRepository { url: named }) => assert_eq!(named, url),
            other => panic!("{:?}", other),
        }
    }
    assert_eq!(
        Repo::parse("nothing").unwrap_err().message(),
        "Invalid repository URL: nothing"
    );
}

#[test]
fn a_repository_is_made_of_three_parts() {
    let groups = vec![Some("w"), Some("h"), Some("o"), Some("n")];
    let repo = Repo::from_groups(&groups).unwrap();
    assert_eq!((repo.username, repo.host, repo.org, repo.name), ("git", "h", "o", "n"));
    assert!(Repo::from_groups(&vec![Some("w"), Some("h"), Some("o")]).is_none());
    assert!(Repo::from_groups(&vec![Some("w"), None, Some("o"), Some("n")]).is_none());
}

#[test]
fn languages_are_ranked_by_their_size() {
    let listed = vec![
        share("Rust", 9000),
        share("Shell", 120),
        share("Go", 4500),
        share("Makefile", 120),
        share("JavaScript", 7),
    ];
    let ranking = repo().get_languages(&listed);
    assert_eq!(
        plain(&ranking),
        vec![
            (7, "javascript".to_string()),
            (120, "makefile".to_string()),
            (4500, "go".to_string()),
            (9000, "rust".to_string()),
        ]
    );
    assert!(repo().get_languages(&vec![]).is_empty());
    assert_eq!(plain(&repo().get_languages(&vec![share("C++", -1)])), vec![(-1, "c++".to_string())]);
}

#[test]
fn of_shares_of_one_size_the_last_stays() {
    let shares = vec![share("b", 2), share("a", 1), share("B", 2), share("c", 3), share("A", 1)];
    assert_eq!(
        plain(&rank(&shares)),
        vec![(1, "A".to_string()), (2, "B".to_string()), (3, "c".to_string())]
    );
    assert!(rank(&vec![]).is_empty());
}

#[test]
fn the_environment_of_the_greatest_language_is_taken() {
    let repo = Repo::parse("git@github.com:o/n.git").unwrap();
    let ranking = repo.get_languages(&vec![
        share("Go", 4500),
        share("Rust", 9000),
        share("Python", 20000),
        share("C", 10),
    ]);
    let everything: Vec<String> =
        ["clion", "goland", "rustrover"].iter().map(|s| s.to_string()).collect();
    assert_eq!(repo.find_ide(&ranking, &everything), Some("rustrover"));
    let some: Vec<String> = ["clion", "goland"].iter().map(|s| s.to_string()).collect();
    assert_eq!(repo.find_ide(&ranking, &some), Some("goland"));
    let one: Vec<String> = vec!["clion".to_string()];
    assert_eq!(repo.find_ide(&ranking, &one), Some("clion"));
    assert_eq!(repo.find_ide(&ranking, &vec![]), None);
    assert_eq!(repo.find_ide(&vec![], &everything), None);
}
