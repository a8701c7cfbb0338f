//! The development environments that are opened for a project, by the language of the project.

use crate::text::{lex_lt, str_eq};
use vstd::prelude::*;

verus! {

pub const C: &'static str = "c";

pub const CPP: &'static str = "c++";

pub const GO: &'static str = "go";

pub const JS: &'static str = "javascript";

pub const RUBY: &'static str = "ruby";

pub const RUST: &'static str = "rust";

pub const CLION: &'static str = "clion";

pub const GOLAND: &'static str = "goland";

pub const RUBYMINE: &'static str = "rubymine";

pub const RUSTROVER: &'static str = "rustrover";

pub const WEBSTORM: &'static str = "webstorm";

/// The environment that is opened for a project in `language`, for the languages that have
/// one.
pub open spec fn ide_for(language: Seq<char>) -> Option<Seq<char>> {
    if language == "c"@ || language == "c++"@ {
        Some("clion"@)
    } else if language == "go"@ {
        Some("goland"@)
    } else if language == "javascript"@ {
        Some("webstorm"@)
    } else if language == "ruby"@ {
        Some("rubymine"@)
    } else if language == "rust"@ {
        Some("rustrover"@)
    } else {
        None
    }
}

/// The environments, each once, in the order of their names.
pub open spec fn ides() -> Seq<Seq<char>> {
    seq!["clion"@, "goland"@, "rubymine"@, "rustrover"@, "webstorm"@]
}

/// The environment that is opened for a project in `language`.
pub fn get(language: &str) -> (r: Option<&'static str>)
    ensures
        r.deep_view() == ide_for(language@),
{
    if str_eq(language, C) || str_eq(language, CPP) {
        Some(CLION)
    } else if str_eq(language, GO) {
        Some(GOLAND)
    } else if str_eq(language, JS) {
        Some(WEBSTORM)
    } else if str_eq(language, RUBY) {
        Some(RUBYMINE)
    } else if str_eq(language, RUST) {
        Some(RUSTROVER)
    } else {
        None
    }
}

/// The environments, each once, in the order of their names.
pub fn list() -> (r: Vec<&'static str>)
    ensures
        r.deep_view() == ides(),
{
    let r = vec![CLION, GOLAND, RUBYMINE, RUSTROVER, WEBSTORM];
    assert(r.deep_view() =~= ides());
    r
}

/// The names of the environments ascend, so that none is listed twice.
pub proof fn lemma_ides_ascend(i: int, j: int)
    requires
        0 <= i < j < ides().len(),
    ensures
        lex_lt(ides()[i], ides()[j]),
{
    reveal_strlit("clion");
    reveal_strlit("goland");
    reveal_strlit("rubymine");
    reveal_strlit("rustrover");
    reveal_strlit("webstorm");
    let a = "rubymine"@;
    let b = "rustrover"@;
    assert(a[0] == 'r' && b[0] == 'r' && a[1] == 'u' && b[1] == 'u' && a[2] == 'b' && b[2] == 's');
    assert(a.drop_first()[0] == a[1] && b.drop_first()[0] == b[1]);
    assert(a.drop_first().drop_first()[0] == a[2] && b.drop_first().drop_first()[0] == b[2]);
    assert(lex_lt(a.drop_first().drop_first(), b.drop_first().drop_first()));
    assert(lex_lt(a.drop_first(), b.drop_first()));
    assert(lex_lt(a, b));
    assert("clion"@[0] == 'c' && "goland"@[0] == 'g' && "webstorm"@[0] == 'w');
}

/// An environment is listed if and only if it is the environment of some language.
pub proof fn lemma_ides_are_those_of_the_languages(ide: Seq<char>)
    ensures
        ides().contains(ide) <==> exists|language: Seq<char>| ide_for(language) == Some(ide),
{
    reveal_strlit("c");
    reveal_strlit("c++");
    reveal_strlit("go");
    reveal_strlit("javascript");
    reveal_strlit("ruby");
    reveal_strlit("rust");
    assert("c"@.len() == 1 && "c++"@.len() == 3 && "go"@.len() == 2 && "javascript"@.len() == 10
        && "ruby"@.len() == 4 && "rust"@.len() == 4);
    assert("ruby"@[2] == 'b' && "rust"@[2] == 's');
    assert(ide_for("c"@) == Some("clion"@));
    assert(ide_for("go"@) == Some("goland"@));
    assert(ide_for("javascript"@) == Some("webstorm"@));
    assert(ide_for("ruby"@) == Some("rubymine"@));
    assert(ide_for("rust"@) == Some("rustrover"@));
    assert(ides()[0] == "clion"@);
    assert(ides()[1] == "goland"@);
    assert(ides()[2] == "rubymine"@);
    assert(ides()[3] == "rustrover"@);
    assert(ides()[4] == "webstorm"@);
}

} // verus!
