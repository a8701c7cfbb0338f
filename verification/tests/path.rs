use af::path::{extension_of, join, last_component};
use std::path::Path;

const PATHS: [&str; 30] = [
    "",
    "/",
    "//",
    ".",
    "..",
    "./",
    "../",
    "a",
    "a/",
    "a//",
    "a/.",
    "a/./",
    "a/..",
    "a/../",
    "/a/b",
    "/a/b/",
    "/a/b/.",
    "/a/./b/./",
    "./a",
    ".hidden",
    ".app",
    "x.app",
    "/Applications/Firefox.app",
    "/Applications/Firefox.app/",
    "/Applications/Google Chrome.app/Contents/MacOS/Google Chrome",
    "archive.tar.gz",
    "name.",
    "a..app",
    "/opt/homebrew/bin/firefox",
    "...",
];

const PARTS: [&str; 9] = ["", "bin", "Caskroom", "/abs", "a/b", "Contents/MacOS", "*.app", ".", "x/"];

#[test]
fn file_names_are_those_of_the_standard_library() {
    for p in PATHS {
        let expected = Path::new(p).file_name().and_then(|n| n.to_str());
        assert_eq!(last_component(p), expected, "{:?}", p);
    }
    assert_eq!(last_component("/opt/homebrew/bin/firefox"), Some("firefox"));
    assert_eq!(last_component("/"), None);
    assert_eq!(last_component("a/.."), None);
}

#[test]
fn extensions_are_those_of_the_standard_library() {
    for p in PATHS {
        let expected = Path::new(p).extension().and_then(|n| n.to_str());
        assert_eq!(extension_of(p), expected, "{:?}", p);
    }
    assert_eq!(extension_of("/Applications/Firefox.app"), Some("app"));
    assert_eq!(extension_of(".app"), None);
    assert_eq!(extension_of("Firefox"), None);
}

#[test]
fn join_is_that_of_the_standard_library() {
    for base in PATHS {
        for part in PARTS {
            let expected = Path::new(base).join(part);
            assert_eq!(join(base, part), expected.to_str().unwrap(), "{:?} {:?}", base, part);
        }
    }
    assert_eq!(join("/opt/homebrew", "bin"), "/opt/homebrew/bin");
    assert_eq!(join("/opt/homebrew/", "bin"), "/opt/homebrew/bin");
    assert_eq!(join("/opt/homebrew", "/bin"), "/bin");
    assert_eq!(join("", "bin"), "bin");
}
