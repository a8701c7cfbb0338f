use af::ides::{get, list, CLION, GOLAND, RUBYMINE, RUSTROVER, WEBSTORM};

#[test]
fn test_values() {
    assert_eq!(list(), vec![CLION, GOLAND, RUBYMINE, RUSTROVER, WEBSTORM]);
}

#[test]
fn ides_test_values() {
    assert_eq!(list(), vec!["clion", "goland", "rubymine", "rustrover", "webstorm"]);
}

#[test]
fn each_language_has_its_environment() {
    assert_eq!(get("c"), Some("clion"));
    assert_eq!(get("c++"), Some("clion"));
    assert_eq!(get("go"), Some("goland"));
    assert_eq!(get("javascript"), Some("webstorm"));
    assert_eq!(get("ruby"), Some("rubymine"));
    assert_eq!(get("rust"), Some("rustrover"));
    assert_eq!(get("python"), None);
    assert_eq!(get("Rust"), None);
    assert_eq!(get(""), None);
}

#[test]
fn the_list_is_sorted_and_holds_what_get_gives() {
    let all = list();
    let mut sorted = all.clone();
    sorted.sort();
    sorted.dedup();
    assert_eq!(all, sorted);
    for language in ["c", "c++", "go", "javascript", "ruby", "rust"] {
        assert!(all.contains(&get(language).unwrap()));
    }
}
