//! What holds of the search whatever was seen on the machine.

use crate::browser::inventory::{
    has_key, is_inventory, kept, key, lemma_inventory_is_unique, stays,
};
use crate::browser::error::FailureView;
use crate::browser::kind::{Kind, VersionRule};
use crate::browser::probe::{
    bundle_candidate, cask_match, cask_pattern, caskroom, custom_dirs, executable_in,
    first_match, is_bundle, known_locations, named_cask_candidate, CandidateView, GlobView,
};
use crate::browser::search::{
    bundle_paths, cask_patterns, named_cask_patterns, paths_read, patterns_read,
};
use crate::path::file_name;
use crate::browser::resolve::{resolved, BrowserView};
use crate::browser::search::{
    browser_of, browsers_of, candidates_of, found_in, outcome_of, prefix_of, LaunchView,
    SurveyView,
};
use crate::text::{
    has_prefix, has_substring, is_bare, is_whitespace, lemma_bare_is_trimmed, lemma_lex_lt_irreflexive,
    lemma_trimmed_is_bare, lex_lt, lowercase, trimmed, trimmed_start,
};
use vstd::prelude::*;

verus! {

/// No display name is empty, and none begins or ends with whitespace.
pub proof fn lemma_names_are_bare(kind: Kind)
    ensures
        kind.spec_name().len() > 0,
        is_bare(kind.spec_name()),
{
    reveal_strlit("Google Chrome");
    reveal_strlit("Microsoft Edge");
    reveal_strlit("Brave Browser");
    reveal_strlit("Opera");
    reveal_strlit("Mozilla Firefox");
    let n = kind.spec_name();
    assert(n[0] == 'G' || n[0] == 'M' || n[0] == 'B' || n[0] == 'O');
    assert(n.last() == 'e' || n.last() == 'r' || n.last() == 'a' || n.last() == 'x');
}

/// Where the report is the display name, a space and a version, a browser whose report
/// begins with its name has that version, whatever the version is, so long as it neither
/// begins nor ends with whitespace.
pub proof fn lemma_version_follows_name(kind: Kind, version: Seq<char>)
    requires
        kind.spec_rule() == VersionRule::AfterName,
        is_bare(version),
    ensures
        kind.spec_version(kind.spec_name() + seq![' '] + version) == Some(version),
{
    lemma_names_are_bare(kind);
    let name = kind.spec_name();
    let raw = name + seq![' '] + version;
    assert(is_whitespace(' '));
    assert(raw[0] == name[0]);
    assert(trimmed_start(raw) == raw);
    lemma_bare_is_trimmed(version);
    if version.len() == 0 {
        assert(raw.last() == ' ');
        assert(raw.drop_last() =~= name);
        lemma_bare_is_trimmed(name);
        assert(trimmed(raw) == name);
        assert(name.subrange(0, name.len() as int) =~= name);
        assert(name.subrange(name.len() as int, name.len() as int) =~= version);
    } else {
        assert(raw.last() == version.last());
        assert(trimmed(raw) == raw);
        assert(raw.subrange(0, name.len() as int) =~= name);
        let rest = raw.subrange(name.len() as int, raw.len() as int);
        assert(rest[0] == ' ');
        assert(rest.drop_first() =~= version);
        assert(trimmed_start(rest) == trimmed_start(version));
    }
}

/// A browser whose report is its version has the report as its version, whatever the report
/// is, so long as it neither begins nor ends with whitespace.
pub proof fn lemma_version_is_report(kind: Kind, version: Seq<char>)
    requires
        kind.spec_rule() == VersionRule::Verbatim,
        is_bare(version),
    ensures
        kind.spec_version(version) == Some(version),
{
    lemma_bare_is_trimmed(version);
}

/// A report that does not begin with the display name gives no version to a browser whose
/// report begins with its name.
pub proof fn lemma_unrelated_report_has_no_version(kind: Kind, raw: Seq<char>)
    requires
        kind.spec_rule() == VersionRule::AfterName,
        !has_prefix(trimmed(raw), kind.spec_name()),
    ensures
        kind.spec_version(raw) is None,
{
}

/// Every version that a rule gives neither begins nor ends with whitespace.
pub proof fn lemma_versions_are_bare(kind: Kind, raw: Seq<char>)
    ensures
        kind.spec_version(raw) is Some ==> is_bare(kind.spec_version(raw).unwrap()),
{
    let report = trimmed(raw);
    lemma_trimmed_is_bare(raw);
    lemma_trimmed_is_bare(report.subrange(kind.spec_name().len() as int, report.len() as int));
}

/// The browsers that two lists of candidates resolve to, one list after the other, are those
/// of the first list followed by those of the second.
pub proof fn lemma_browsers_of_both(
    a: Seq<CandidateView>,
    b: Seq<CandidateView>,
    launches: Seq<LaunchView>,
)
    ensures
        browsers_of(a + b, launches) == browsers_of(a, launches) + browsers_of(b, launches),
    decreases b.len(),
{
    if b.len() == 0 {
        assert(a + b =~= a);
        assert(browsers_of(a, launches) + browsers_of(b, launches) =~= browsers_of(a, launches));
    } else {
        lemma_browsers_of_both(a, b.drop_last(), launches);
        assert((a + b).drop_last() =~= a + b.drop_last());
        assert((a + b).last() == b.last());
        let x = browsers_of(a, launches);
        let y = browsers_of(b.drop_last(), launches);
        match browser_of(b.last(), launches) {
            Some(v) => {
                assert((x + y).push(v) =~= x + y.push(v));
            },
            None => {},
        }
    }
}

/// A candidate whose run did not end with the status zero changes nothing: the browsers
/// found are those that the candidates before it and after it resolve to.
pub proof fn lemma_failed_candidate_is_passed_over(
    before: Seq<CandidateView>,
    failed: CandidateView,
    after: Seq<CandidateView>,
    launches: Seq<LaunchView>,
)
    requires
        outcome_of(launches, failed.path) is Some ==> !outcome_of(
            launches,
            failed.path,
        ).unwrap().succeeded(),
    ensures
        browsers_of(before + seq![failed] + after, launches) == browsers_of(before, launches)
            + browsers_of(after, launches),
{
    lemma_browsers_of_both(before + seq![failed], after, launches);
    lemma_browsers_of_both(before, seq![failed], launches);
    let none = seq![failed].drop_last();
    assert(none =~= Seq::<CandidateView>::empty());
    assert(browsers_of(none, launches) =~= Seq::<BrowserView>::empty());
    assert(seq![failed].last() == failed);
    assert(browser_of(failed, launches) is None);
    assert(browsers_of(seq![failed], launches) =~= Seq::<BrowserView>::empty());
    assert(browsers_of(before, launches) + Seq::<BrowserView>::empty() =~= browsers_of(
        before,
        launches,
    ));
}

/// Every browser found comes from a candidate whose run ended with the status zero.
pub proof fn lemma_found_browsers_ran_well(
    candidates: Seq<CandidateView>,
    launches: Seq<LaunchView>,
    i: int,
)
    requires
        0 <= i < browsers_of(candidates, launches).len(),
    ensures
        exists|j: int|
            0 <= j < candidates.len() && #[trigger] outcome_of(launches, candidates[j].path)
                is Some && outcome_of(launches, candidates[j].path).unwrap().succeeded()
                && resolved(
                candidates[j].kind,
                candidates[j].path,
                outcome_of(launches, candidates[j].path).unwrap(),
            ) == Ok::<BrowserView, FailureView>(
                browsers_of(candidates, launches)[i],
            ),
    decreases candidates.len(),
{
    let rest = candidates.drop_last();
    let last = candidates.last();
    let before = browsers_of(rest, launches);
    if i < before.len() {
        lemma_found_browsers_ran_well(rest, launches, i);
        let j = choose|j: int|
            0 <= j < rest.len() && #[trigger] outcome_of(launches, rest[j].path) is Some
                && outcome_of(launches, rest[j].path).unwrap().succeeded() && resolved(
                rest[j].kind,
                rest[j].path,
                outcome_of(launches, rest[j].path).unwrap(),
            ) == Ok::<BrowserView, FailureView>(before[i]);
        assert(candidates[j] == rest[j]);
        assert(outcome_of(launches, candidates[j].path) is Some);
    } else {
        let j = candidates.len() - 1;
        assert(outcome_of(launches, candidates[j].path) is Some);
    }
}

/// Every browser found has the display name of its kind, and a version that the kind's rule
/// gives for some report.
pub proof fn lemma_found_browsers_are_well_formed(
    candidates: Seq<CandidateView>,
    launches: Seq<LaunchView>,
    i: int,
)
    requires
        0 <= i < browsers_of(candidates, launches).len(),
    ensures
        browsers_of(candidates, launches)[i].wf(),
{
    lemma_found_browsers_ran_well(candidates, launches, i);
}

/// Where the application of one kind lies at its fixed place and its run gives a browser, and
/// nothing else is searched, the search for that kind gives one browser, at that place.
pub proof fn lemma_one_known_location(
    survey: SurveyView,
    kind: Kind,
    all: bool,
    out: Seq<BrowserView>,
)
    requires
        survey.existing.contains(kind.spec_applications_path()),
        prefix_of(survey.prefix) is None,
        survey.bundles.len() == 0,
        browser_of(
            CandidateView { kind, path: kind.spec_applications_path() },
            survey.launches,
        ) is Some,
        is_inventory(found_in(survey, seq![kind]), all, out),
    ensures
        out.len() == 1,
        out[0].kind == kind,
        out[0].path == kind.spec_applications_path(),
{
    let kinds = seq![kind];
    let c = CandidateView { kind, path: kind.spec_applications_path() };
    assert(kinds.drop_last() =~= Seq::<Kind>::empty());
    assert(known_locations(kinds.drop_last(), survey.existing) =~= Seq::<CandidateView>::empty());
    assert(kinds.last() == kind);
    assert(known_locations(kinds, survey.existing) =~= seq![c]);
    assert(custom_dirs(survey.bundles, kinds, survey.existing) =~= Seq::<CandidateView>::empty());
    assert(candidates_of(survey, kinds) =~= seq![c]);
    assert(seq![c].drop_last() =~= Seq::<CandidateView>::empty());
    assert(browsers_of(seq![c].drop_last(), survey.launches) =~= Seq::<BrowserView>::empty());
    assert(seq![c].last() == c);
    let b = browser_of(c, survey.launches).unwrap();
    let found = found_in(survey, kinds);
    assert(browsers_of(seq![c], survey.launches) =~= seq![b]);
    assert(found =~= seq![b]);
    lemma_inventory_of_one(b, all, out);
}

/// The inventory of one browser is that browser.
pub proof fn lemma_inventory_of_one(b: BrowserView, all: bool, out: Seq<BrowserView>)
    requires
        is_inventory(seq![b], all, out),
    ensures
        out == seq![b],
{
    let found = seq![b];
    assert(has_key(out, all, key(found[0], all)));
    assert forall|i: int| 0 <= i < out.len() implies out[i] == b by {
        assert(kept(found, all, out[i]));
    }
    if out.len() > 1 {
        lemma_lex_lt_irreflexive(key(b, all));
        assert(lex_lt(key(out[0], all), key(out[1], all)));
    }
    assert(out =~= seq![b]);
}

/// Of two browsers of one name and version at two places, the first alone is handed out
/// where one browser for each name and version is asked for.
pub proof fn lemma_same_version_is_entered_once(
    first: BrowserView,
    second: BrowserView,
    out: Seq<BrowserView>,
)
    requires
        first.name == second.name,
        first.version == second.version,
        is_inventory(seq![first, second], false, out),
    ensures
        out == seq![first],
{
    let found = seq![first, second];
    assert(key(found[0], false) == key(found[1], false));
    assert(has_key(out, false, key(found[0], false)));
    assert forall|i: int| 0 <= i < out.len() implies out[i] == first by {
        assert(kept(found, false, out[i]));
        let j = choose|j: int| #[trigger] stays(found, false, j) && found[j] == out[i];
        if j == 1 {
            assert(key(found[0], false) != key(found[1], false));
        }
    }
    if out.len() > 1 {
        lemma_lex_lt_irreflexive(key(first, false));
        assert(lex_lt(key(out[0], false), key(out[1], false)));
    }
    assert(out =~= seq![first]);
}

/// Two browsers that are entered under one name with version are of one kind and have one
/// version: no two versions and no two kinds of browser are taken for one.
pub proof fn lemma_version_keys_tell_versions_apart(a: BrowserView, b: BrowserView)
    requires
        a.wf(),
        b.wf(),
        a.version_key() == b.version_key(),
    ensures
        a.kind == b.kind,
        a.name == b.name,
        a.version == b.version,
{
    reveal_strlit("Google Chrome");
    reveal_strlit("Microsoft Edge");
    reveal_strlit("Brave Browser");
    reveal_strlit("Opera");
    reveal_strlit("Mozilla Firefox");
    let x = a.version_key();
    let y = b.version_key();
    assert(x[0] == a.name[0] && x[1] == a.name[1]);
    assert(y[0] == b.name[0] && y[1] == b.name[1]);
    assert(a.kind == b.kind);
    let n = a.name.len() as int;
    assert(x.subrange(n + 1, x.len() as int) =~= a.version);
    assert(y.subrange(n + 1, y.len() as int) =~= b.version);
}

/// Two browsers of one name and version at two places are described by two lines.
pub proof fn lemma_lines_tell_paths_apart(first: BrowserView, second: BrowserView)
    requires
        first.name == second.name,
        first.version == second.version,
        first.path != second.path,
    ensures
        first.line() != second.line(),
{
    let head = first.line().subrange(0, first.line().len() - first.path.len());
    assert(first.line().subrange(first.line().len() - first.path.len(), first.line().len() as int)
        =~= first.path);
    assert(second.line().subrange(
        second.line().len() - second.path.len(),
        second.line().len() as int,
    ) =~= second.path);
}

/// Whether `i` is `x` or `y`.
pub open spec fn is_either(i: int, x: int, y: int) -> bool {
    i == x || i == y
}

/// Of two browsers of one name and version at two places, both are handed out where every
/// browser at every path is asked for.
pub proof fn lemma_same_version_is_entered_for_each_path(
    first: BrowserView,
    second: BrowserView,
    out: Seq<BrowserView>,
)
    requires
        first.name == second.name,
        first.version == second.version,
        first.path != second.path,
        is_inventory(seq![first, second], true, out),
    ensures
        out.len() == 2,
        out == seq![first, second] || out == seq![second, first],
{
    let found = seq![first, second];
    lemma_lines_tell_paths_apart(first, second);
    lemma_lex_lt_irreflexive(key(first, true));
    lemma_lex_lt_irreflexive(key(second, true));
    assert(has_key(out, true, key(found[0], true)));
    assert(has_key(out, true, key(found[1], true)));
    let x = choose|i: int| 0 <= i < out.len() && #[trigger] key(out[i], true) == key(first, true);
    let y = choose|i: int| 0 <= i < out.len() && #[trigger] key(out[i], true) == key(second, true);
    assert(x != y);
    assert forall|i: int| 0 <= i < out.len() implies out[i] == first || out[i] == second by {
        assert(kept(found, true, out[i]));
    }
    assert forall|i: int| 0 <= i < out.len() implies #[trigger] is_either(i, x, y) by {
        if i == x || i == y {
        } else if out[i] == first {
            assert(lex_lt(key(out[i], true), key(out[x], true))
                || lex_lt(key(out[x], true), key(out[i], true)));
        } else {
            assert(lex_lt(key(out[i], true), key(out[y], true))
                || lex_lt(key(out[y], true), key(out[i], true)));
        }
    }
    if out.len() > 2 {
        assert(is_either(0, x, y) && is_either(1, x, y) && is_either(2, x, y));
    }
    assert(out.len() == 2);
    assert(out[x] == first);
    assert(out[y] == second);
    if x == 0 {
        assert(out =~= seq![first, second]);
    } else {
        assert(out =~= seq![second, first]);
    }
}

/// A search of the same survey for the same kinds gives the same list, in the same order,
/// however often it is made.
pub proof fn lemma_the_search_is_deterministic(
    survey: SurveyView,
    kinds: Seq<Kind>,
    all: bool,
    first: Seq<BrowserView>,
    second: Seq<BrowserView>,
)
    requires
        is_inventory(found_in(survey, kinds), all, first),
        is_inventory(found_in(survey, kinds), all, second),
    ensures
        first == second,
{
    lemma_inventory_is_unique(found_in(survey, kinds), all, first, second);
}

/// Whether `a` and `b` say the same of `path`.
pub open spec fn agree_on(a: Seq<Seq<char>>, b: Seq<Seq<char>>, path: Seq<char>) -> bool {
    a.contains(path) == b.contains(path)
}

/// The paths that are read hold the place of the application of each kind, and for each
/// entry that is named as an application bundle is the place of each kind's executable in it.
pub proof fn lemma_paths_read_are_complete(bundles: Seq<Seq<char>>, kinds: Seq<Kind>)
    ensures
        forall|i: int|
            0 <= i < kinds.len() ==> paths_read(bundles, kinds).contains(
                #[trigger] kinds[i].spec_applications_path(),
            ),
        forall|j: int, i: int|
            0 <= j < bundles.len() && is_bundle(bundles[j]) && 0 <= i < kinds.len()
                ==> paths_read(bundles, kinds).contains(
                #[trigger] executable_in(bundles[j], kinds[i]),
            ),
    decreases bundles.len(),
{
    let all = paths_read(bundles, kinds);
    if bundles.len() == 0 {
        assert forall|i: int| 0 <= i < kinds.len() implies all.contains(
            #[trigger] kinds[i].spec_applications_path(),
        ) by {
            assert(all[i] == kinds[i].spec_applications_path());
        }
    } else {
        let rest = bundles.drop_last();
        let before = paths_read(rest, kinds);
        lemma_paths_read_are_complete(rest, kinds);
        assert forall|p: Seq<char>| before.contains(p) implies all.contains(p) by {
            let x = choose|x: int| 0 <= x < before.len() && before[x] == p;
            assert(all[x] == p);
        }
        assert forall|j: int, i: int|
            0 <= j < bundles.len() && is_bundle(bundles[j]) && 0 <= i < kinds.len() implies all.contains(
            #[trigger] executable_in(bundles[j], kinds[i]),
        ) by {
            if j < rest.len() {
                assert(rest[j] == bundles[j]);
                assert(before.contains(executable_in(rest[j], kinds[i])));
            } else {
                let own = bundle_paths(bundles.last(), kinds);
                assert(own[i] == executable_in(bundles[j], kinds[i]));
                assert(all[before.len() + i] == own[i]);
            }
        }
    }
}

/// The candidates at the fixed places depend on what lies at the places of the applications
/// and on nothing else.
pub proof fn lemma_known_locations_read_their_places(
    kinds: Seq<Kind>,
    a: Seq<Seq<char>>,
    b: Seq<Seq<char>>,
)
    requires
        forall|i: int|
            0 <= i < kinds.len() ==> agree_on(a, b, #[trigger] kinds[i].spec_applications_path()),
    ensures
        known_locations(kinds, a) == known_locations(kinds, b),
    decreases kinds.len(),
{
    if kinds.len() > 0 {
        let rest = kinds.drop_last();
        assert forall|i: int| 0 <= i < rest.len() implies agree_on(
            a,
            b,
            #[trigger] rest[i].spec_applications_path(),
        ) by {
            assert(rest[i] == kinds[i]);
        }
        lemma_known_locations_read_their_places(rest, a, b);
        assert(agree_on(a, b, kinds[kinds.len() - 1].spec_applications_path()));
    }
}

/// The candidate in an application bundle depends on what lies at the places of the
/// executables in it and on nothing else.
pub proof fn lemma_bundle_reads_its_places(
    bundle: Seq<char>,
    kinds: Seq<Kind>,
    a: Seq<Seq<char>>,
    b: Seq<Seq<char>>,
)
    requires
        forall|i: int|
            0 <= i < kinds.len() ==> agree_on(a, b, #[trigger] executable_in(bundle, kinds[i])),
    ensures
        bundle_candidate(bundle, kinds, a) == bundle_candidate(bundle, kinds, b),
    decreases kinds.len(),
{
    if kinds.len() > 0 {
        let rest = kinds.drop_first();
        assert forall|i: int| 0 <= i < rest.len() implies agree_on(
            a,
            b,
            #[trigger] executable_in(bundle, rest[i]),
        ) by {
            assert(rest[i] == kinds[i + 1]);
        }
        lemma_bundle_reads_its_places(bundle, rest, a, b);
        assert(agree_on(a, b, executable_in(bundle, kinds[0])));
    }
}

/// The candidates in the directories that the caller named depend on what lies at the places
/// of the executables in the application bundles and on nothing else.
pub proof fn lemma_custom_dirs_read_their_places(
    bundles: Seq<Seq<char>>,
    kinds: Seq<Kind>,
    a: Seq<Seq<char>>,
    b: Seq<Seq<char>>,
)
    requires
        forall|j: int, i: int|
            0 <= j < bundles.len() && is_bundle(bundles[j]) && 0 <= i < kinds.len() ==> agree_on(
                a,
                b,
                #[trigger] executable_in(bundles[j], kinds[i]),
            ),
    ensures
        custom_dirs(bundles, kinds, a) == custom_dirs(bundles, kinds, b),
    decreases bundles.len(),
{
    if bundles.len() > 0 {
        let rest = bundles.drop_last();
        assert forall|j: int, i: int|
            0 <= j < rest.len() && is_bundle(rest[j]) && 0 <= i < kinds.len() implies agree_on(
            a,
            b,
            #[trigger] executable_in(rest[j], kinds[i]),
        ) by {
            assert(rest[j] == bundles[j]);
        }
        lemma_custom_dirs_read_their_places(rest, kinds, a, b);
        if is_bundle(bundles.last()) {
            assert forall|i: int| 0 <= i < kinds.len() implies agree_on(
                a,
                b,
                #[trigger] executable_in(bundles.last(), kinds[i]),
            ) by {
                assert(bundles[bundles.len() - 1] == bundles.last());
            }
            lemma_bundle_reads_its_places(bundles.last(), kinds, a, b);
        }
    }
}

/// Two records of what lies on the disk that say the same of every path that is read give the
/// same candidates, at the fixed places and in the directories that the caller named.
pub proof fn lemma_the_search_reads_the_listed_paths(
    bundles: Seq<Seq<char>>,
    kinds: Seq<Kind>,
    a: Seq<Seq<char>>,
    b: Seq<Seq<char>>,
)
    requires
        forall|p: Seq<char>| #[trigger]
            paths_read(bundles, kinds).contains(p) ==> a.contains(p) == b.contains(p),
    ensures
        known_locations(kinds, a) == known_locations(kinds, b),
        custom_dirs(bundles, kinds, a) == custom_dirs(bundles, kinds, b),
{
    lemma_paths_read_are_complete(bundles, kinds);
    lemma_known_locations_read_their_places(kinds, a, b);
    lemma_custom_dirs_read_their_places(bundles, kinds, a, b);
}

/// The patterns that are read under a directory hold the pattern of each kind whose
/// executable has its name in the lowercase name of the directory.
pub proof fn lemma_cask_patterns_are_complete(
    cask: Seq<char>,
    name: Seq<char>,
    kinds: Seq<Kind>,
    i: int,
)
    requires
        0 <= i < kinds.len(),
        has_substring(name, kinds[i].spec_bin()),
    ensures
        named_cask_patterns(cask, name, kinds).contains(cask_pattern(cask, kinds[i])),
    decreases kinds.len(),
{
    let rest = kinds.drop_last();
    let before = named_cask_patterns(cask, name, rest);
    let all = named_cask_patterns(cask, name, kinds);
    if i == kinds.len() - 1 {
        assert(all[before.len() as int] == cask_pattern(cask, kinds[i]));
    } else {
        assert(rest[i] == kinds[i]);
        lemma_cask_patterns_are_complete(cask, name, rest, i);
        let x = choose|x: int| 0 <= x < before.len() && before[x] == cask_pattern(cask, kinds[i]);
        assert(all[x] == before[x]);
    }
}

/// The candidate under a directory of the package manager depends on the first matches of
/// the patterns that are read under it and on nothing else.
pub proof fn lemma_cask_reads_its_patterns(
    cask: Seq<char>,
    name: Seq<char>,
    kinds: Seq<Kind>,
    a: Seq<GlobView>,
    b: Seq<GlobView>,
)
    requires
        forall|i: int|
            0 <= i < kinds.len() && has_substring(name, kinds[i].spec_bin()) ==> first_match(
                a,
                #[trigger] cask_pattern(cask, kinds[i]),
            ) == first_match(b, cask_pattern(cask, kinds[i])),
    ensures
        named_cask_candidate(cask, name, kinds, a) == named_cask_candidate(cask, name, kinds, b),
    decreases kinds.len(),
{
    if kinds.len() > 0 {
        let rest = kinds.drop_first();
        assert forall|i: int|
            0 <= i < rest.len() && has_substring(name, rest[i].spec_bin()) implies first_match(
            a,
            #[trigger] cask_pattern(cask, rest[i]),
        ) == first_match(b, cask_pattern(cask, rest[i])) by {
            assert(rest[i] == kinds[i + 1]);
        }
        lemma_cask_reads_its_patterns(cask, name, rest, a, b);
        if has_substring(name, kinds[0].spec_bin()) {
            assert(first_match(a, cask_pattern(cask, kinds[0])) == first_match(
                b,
                cask_pattern(cask, kinds[0]),
            ));
        }
        assert(cask_match(cask, name, kinds[0], a) == cask_match(cask, name, kinds[0], b));
    }
}

/// Two records of searches that give the same first match for every pattern that is read
/// give the same candidates under the package manager's directories of applications.
pub proof fn lemma_the_search_reads_the_listed_patterns(
    casks: Seq<Seq<char>>,
    kinds: Seq<Kind>,
    a: Seq<GlobView>,
    b: Seq<GlobView>,
)
    requires
        forall|p: Seq<char>| #[trigger]
            patterns_read(casks, kinds).contains(p) ==> first_match(a, p) == first_match(b, p),
    ensures
        caskroom(casks, kinds, a) == caskroom(casks, kinds, b),
    decreases casks.len(),
{
    if casks.len() > 0 {
        let rest = casks.drop_last();
        let before = patterns_read(rest, kinds);
        let own = cask_patterns(casks.last(), kinds);
        let all = patterns_read(casks, kinds);
        assert forall|p: Seq<char>| #[trigger] before.contains(p) implies first_match(a, p)
            == first_match(b, p) by {
            let x = choose|x: int| 0 <= x < before.len() && before[x] == p;
            assert(all[x] == p);
            assert(all.contains(p));
        }
        lemma_the_search_reads_the_listed_patterns(rest, kinds, a, b);
        match file_name(casks.last()) {
            Some(found) => {
                let name = lowercase(found);
                assert forall|i: int|
                    0 <= i < kinds.len() && has_substring(
                        name,
                        kinds[i].spec_bin(),
                    ) implies first_match(a, #[trigger] cask_pattern(casks.last(), kinds[i]))
                    == first_match(b, cask_pattern(casks.last(), kinds[i])) by {
                    lemma_cask_patterns_are_complete(casks.last(), name, kinds, i);
                    let p = cask_pattern(casks.last(), kinds[i]);
                    let x = choose|x: int| 0 <= x < own.len() && own[x] == p;
                    assert(all[before.len() + x] == p);
                    assert(all.contains(p));
                }
                lemma_cask_reads_its_patterns(casks.last(), name, kinds, a, b);
            },
            None => {},
        }
    }
}

} // verus!
