//! The search as a whole: from what was seen on a machine to the browsers installed on it.

use crate::browser::error::{Failure, FailureView};
use crate::browser::inventory::{has_key, inventory, is_inventory, kept, key};
use crate::browser::kind::Kind;
use crate::browser::probe::{
    cask_pattern, custom_dirs, executable_in, find_in_custom_dirs, find_in_homebrew,
    find_in_known_locations, homebrew, is_app, is_bundle, known_locations, Candidate,
    CandidateView, Entry, EntryView, Glob, GlobView,
};
use crate::path::{file_name, last_component};
use crate::text::{contains, has_substring, lowercase, to_lowercase};
use crate::browser::resolve::{get_browser, resolved, Browser, BrowserView, Outcome, OutcomeView};
use crate::path::{join, joined};
use crate::text::{from_utf8, str_eq, trim, trimmed};
use crate::utils::{Invocation, InvocationView};
use vstd::prelude::*;
use vstd::string::StringExecFns;
use vstd::utf8::{decode_utf8, valid_utf8};

verus! {

/// How the run of the executable at `path` with the flag for its version ended.
#[derive(Debug, Clone)]
pub struct Launch {
    pub path: String,
    pub outcome: Outcome,
}

/// A [`Launch`] with its texts as sequences.
pub struct LaunchView {
    pub path: Seq<char>,
    pub outcome: OutcomeView,
}

impl View for Launch {
    type V = LaunchView;

    open spec fn view(&self) -> LaunchView {
        LaunchView { path: self.path@, outcome: self.outcome@ }
    }
}

impl DeepView for Launch {
    type V = LaunchView;

    open spec fn deep_view(&self) -> LaunchView {
        self@
    }
}

/// What was seen on a machine, as far as the search reads it.
#[derive(Debug, Clone)]
pub struct Survey {
    /// Of the paths that were looked at, those at which something lies.
    pub existing: Vec<String>,
    /// How the package manager's run with the flag for its prefix ended.
    pub prefix: Outcome,
    /// The entries of the package manager's directory of executables.
    pub bin: Vec<Entry>,
    /// The paths of the entries of the package manager's directory of applications.
    pub casks: Vec<String>,
    /// The patterns that were searched for, each with its first match.
    pub globs: Vec<Glob>,
    /// The paths of the entries of the directories that the caller named.
    pub bundles: Vec<String>,
    /// The executables that were run with the flag for their version.
    pub launches: Vec<Launch>,
}

/// A [`Survey`] with its parts as sequences.
pub struct SurveyView {
    pub existing: Seq<Seq<char>>,
    pub prefix: OutcomeView,
    pub bin: Seq<EntryView>,
    pub casks: Seq<Seq<char>>,
    pub globs: Seq<GlobView>,
    pub bundles: Seq<Seq<char>>,
    pub launches: Seq<LaunchView>,
}

impl View for Survey {
    type V = SurveyView;

    open spec fn view(&self) -> SurveyView {
        SurveyView {
            existing: self.existing.deep_view(),
            prefix: self.prefix@,
            bin: self.bin.deep_view(),
            casks: self.casks.deep_view(),
            globs: self.globs.deep_view(),
            bundles: self.bundles.deep_view(),
            launches: self.launches.deep_view(),
        }
    }
}

/// The package manager's prefix that the run `outcome` reports: what the run wrote, without
/// the whitespace around it, where the run ended with the status zero and wrote valid UTF-8.
pub open spec fn prefix_of(outcome: OutcomeView) -> Option<Seq<char>> {
    match outcome {
        OutcomeView::Exited { code, stdout } if code == Some(0i32) && valid_utf8(stdout) => Some(
            trimmed(decode_utf8(stdout)),
        ),
        _ => None,
    }
}

/// How the run of the executable at `path` ended, going by the first record of that path.
pub open spec fn outcome_of(launches: Seq<LaunchView>, path: Seq<char>) -> Option<OutcomeView>
    decreases launches.len(),
{
    if launches.len() == 0 {
        None
    } else if launches[0].path == path {
        Some(launches[0].outcome)
    } else {
        outcome_of(launches.drop_first(), path)
    }
}

/// The candidates that follow from `survey` for `kinds`: those at the fixed places, then
/// those under the package manager's directories where its prefix is known, then those in
/// the directories that the caller named.
pub open spec fn candidates_of(survey: SurveyView, kinds: Seq<Kind>) -> Seq<CandidateView> {
    known_locations(kinds, survey.existing) + (if prefix_of(survey.prefix) is Some {
        homebrew(survey.bin, survey.casks, kinds, survey.globs)
    } else {
        seq![]
    }) + custom_dirs(survey.bundles, kinds, survey.existing)
}

/// What `candidate` resolves to: the browser that the recorded run of its executable makes of
/// it, or none where no run is recorded or the run makes none.
pub open spec fn browser_of(candidate: CandidateView, launches: Seq<LaunchView>) -> Option<
    BrowserView,
> {
    match outcome_of(launches, candidate.path) {
        Some(outcome) => match resolved(candidate.kind, candidate.path, outcome) {
            Ok(b) => Some(b),
            Err(_) => None,
        },
        None => None,
    }
}

/// The browsers that `candidates` resolve to, in the order of the candidates.
pub open spec fn browsers_of(candidates: Seq<CandidateView>, launches: Seq<LaunchView>) -> Seq<
    BrowserView,
>
    decreases candidates.len(),
{
    if candidates.len() == 0 {
        seq![]
    } else {
        let before = browsers_of(candidates.drop_last(), launches);
        match browser_of(candidates.last(), launches) {
            Some(b) => before.push(b),
            None => before,
        }
    }
}

/// The browsers that were found on the machine of `survey` for `kinds`, before any is left
/// out for sharing its key with another.
pub open spec fn found_in(survey: SurveyView, kinds: Seq<Kind>) -> Seq<BrowserView> {
    browsers_of(candidates_of(survey, kinds), survey.launches)
}

/// The places of the applications of `kinds`, in their order.
pub open spec fn known_paths(kinds: Seq<Kind>) -> Seq<Seq<char>> {
    Seq::new(kinds.len(), |i: int| kinds[i].spec_applications_path())
}

/// The places of the executables of `kinds` in the application bundle at `bundle`, in the
/// order of the kinds.
pub open spec fn bundle_paths(bundle: Seq<char>, kinds: Seq<Kind>) -> Seq<Seq<char>> {
    Seq::new(kinds.len(), |i: int| executable_in(bundle, kinds[i]))
}

/// The paths of which the search for `kinds` asks whether something lies there: the places of
/// their applications, then for each of `bundles` that is named as an application bundle is
/// the places of their executables in it.
pub open spec fn paths_read(bundles: Seq<Seq<char>>, kinds: Seq<Kind>) -> Seq<Seq<char>>
    decreases bundles.len(),
{
    if bundles.len() == 0 {
        known_paths(kinds)
    } else {
        paths_read(bundles.drop_last(), kinds) + (if is_bundle(bundles.last()) {
            bundle_paths(bundles.last(), kinds)
        } else {
            seq![]
        })
    }
}

/// The patterns for which the search for `kinds` asks under the package manager's directory
/// `cask`, where `name` is the lowercase name of the directory: that of each kind whose
/// executable has its name in `name`.
pub open spec fn named_cask_patterns(cask: Seq<char>, name: Seq<char>, kinds: Seq<Kind>) -> Seq<
    Seq<char>,
>
    decreases kinds.len(),
{
    if kinds.len() == 0 {
        seq![]
    } else {
        let before = named_cask_patterns(cask, name, kinds.drop_last());
        if has_substring(name, kinds.last().spec_bin()) {
            before.push(cask_pattern(cask, kinds.last()))
        } else {
            before
        }
    }
}

/// The patterns for which the search for `kinds` asks under the package manager's directory
/// `cask`: none where the directory has no name.
pub open spec fn cask_patterns(cask: Seq<char>, kinds: Seq<Kind>) -> Seq<Seq<char>> {
    match file_name(cask) {
        Some(name) => named_cask_patterns(cask, lowercase(name), kinds),
        None => seq![],
    }
}

/// The patterns for which the search for `kinds` asks under the package manager's
/// directories `casks`.
pub open spec fn patterns_read(casks: Seq<Seq<char>>, kinds: Seq<Kind>) -> Seq<Seq<char>>
    decreases casks.len(),
{
    if casks.len() == 0 {
        seq![]
    } else {
        patterns_read(casks.drop_last(), kinds) + cask_patterns(casks.last(), kinds)
    }
}

/// The paths of which the search for `kinds` asks whether something lies there.
pub fn paths_to_check(bundles: &Vec<String>, kinds: &[Kind]) -> (r: Vec<String>)
    ensures
        r.deep_view() == paths_read(bundles.deep_view(), kinds@),
{
    let mut out: Vec<String> = Vec::new();
    let mut i: usize = 0;
    while i < kinds.len()
        invariant
            i <= kinds.len(),
            out.deep_view() == known_paths(kinds@.take(i as int)),
        decreases kinds.len() - i,
    {
        let ghost before = out.deep_view();
        let path = kinds[i].applications_path();
        let ghost text = path@;
        out.push(path);
        assert(out.deep_view() =~= before.push(text));
        assert(before.push(text) =~= known_paths(kinds@.take(i + 1)));
        i += 1;
    }
    assert(kinds@.take(kinds@.len() as int) =~= kinds@);
    let mut j: usize = 0;
    assert(bundles.deep_view().take(0) =~= Seq::<Seq<char>>::empty());
    while j < bundles.len()
        invariant
            j <= bundles.len(),
            out.deep_view() == paths_read(bundles.deep_view().take(j as int), kinds@),
        decreases bundles.len() - j,
    {
        let ghost listed = out.deep_view();
        proof {
            let t = bundles.deep_view().take(j + 1);
            assert(t.drop_last() =~= bundles.deep_view().take(j as int));
            assert(t.last() == bundles[j as int]@);
        }
        if is_app(bundles[j].as_str()) {
            let mut k: usize = 0;
            assert(out.deep_view() =~= listed + bundle_paths(bundles[j as int]@, kinds@.take(0)));
            while k < kinds.len()
                invariant
                    k <= kinds.len(),
                    j < bundles.len(),
                    out.deep_view() == listed + bundle_paths(
                        bundles[j as int]@,
                        kinds@.take(k as int),
                    ),
                decreases kinds.len() - k,
            {
                let ghost before = out.deep_view();
                let path = kinds[k].executable_in(bundles[j].as_str());
                let ghost text = path@;
                out.push(path);
                assert(out.deep_view() =~= before.push(text));
                assert(before.push(text) =~= listed + bundle_paths(
                    bundles[j as int]@,
                    kinds@.take(k + 1),
                ));
                k += 1;
            }
            assert(kinds@.take(kinds@.len() as int) =~= kinds@);
        } else {
            assert(out.deep_view() =~= listed + Seq::<Seq<char>>::empty());
        }
        j += 1;
    }
    assert(bundles.deep_view().take(bundles.deep_view().len() as int) =~= bundles.deep_view());
    out
}

/// The patterns for which the search for `kinds` asks under the package manager's directory
/// `cask`, where `name` is the lowercase name of the directory.
pub fn patterns_for_cask(cask: &str, name: &str, kinds: &[Kind]) -> (r: Vec<String>)
    ensures
        r.deep_view() == named_cask_patterns(cask@, name@, kinds@),
{
    let mut out: Vec<String> = Vec::new();
    let mut k: usize = 0;
    assert(kinds@.take(0) =~= Seq::<Kind>::empty());
    while k < kinds.len()
        invariant
            k <= kinds.len(),
            out.deep_view() == named_cask_patterns(cask@, name@, kinds@.take(k as int)),
        decreases kinds.len() - k,
    {
        let ghost before = out.deep_view();
        proof {
            let t = kinds@.take(k + 1);
            assert(t.drop_last() =~= kinds@.take(k as int));
            assert(t.last() == kinds@[k as int]);
        }
        if contains(name, kinds[k].bin()) {
            let pattern = kinds[k].cask_pattern(cask);
            let ghost text = pattern@;
            out.push(pattern);
            assert(out.deep_view() =~= before.push(text));
        }
        k += 1;
    }
    assert(kinds@.take(kinds@.len() as int) =~= kinds@);
    out
}

/// The patterns for which the search for `kinds` asks under the package manager's
/// directories `casks`.
pub fn patterns_to_search(casks: &Vec<String>, kinds: &[Kind]) -> (r: Vec<String>)
    ensures
        r.deep_view() == patterns_read(casks.deep_view(), kinds@),
{
    let mut out: Vec<String> = Vec::new();
    let mut j: usize = 0;
    assert(casks.deep_view().take(0) =~= Seq::<Seq<char>>::empty());
    while j < casks.len()
        invariant
            j <= casks.len(),
            out.deep_view() == patterns_read(casks.deep_view().take(j as int), kinds@),
        decreases casks.len() - j,
    {
        let ghost listed = out.deep_view();
        let cask = casks[j].as_str();
        proof {
            let t = casks.deep_view().take(j + 1);
            assert(t.drop_last() =~= casks.deep_view().take(j as int));
            assert(t.last() == cask@);
        }
        match last_component(cask) {
            Some(name) => {
                let lower = to_lowercase(name);
                let mut more = patterns_for_cask(cask, lower.as_str(), kinds);
                let ghost own = more.deep_view();
                out.append(&mut more);
                assert(out.deep_view() =~= listed + own);
            },
            None => {
                assert(out.deep_view() =~= listed + Seq::<Seq<char>>::empty());
            },
        }
        j += 1;
    }
    assert(casks.deep_view().take(casks.deep_view().len() as int) =~= casks.deep_view());
    out
}

/// The package manager.
pub const BREW: &'static str = "brew";

/// The flag on which the package manager reports its prefix.
pub const FLAG_PREFIX: &'static str = "--prefix";

/// The flag on which a browser reports its version.
pub const FLAG_VERSION: &'static str = "--version";

impl Survey {
    /// The survey of a machine on which nothing was seen.
    pub fn new() -> (r: Survey)
        ensures
            r@.existing.len() == 0,
            r@.prefix == (OutcomeView::NotStarted { reason: Seq::empty() }),
            r@.bin.len() == 0,
            r@.casks.len() == 0,
            r@.globs.len() == 0,
            r@.bundles.len() == 0,
            r@.launches.len() == 0,
    {
        Survey {
            existing: Vec::new(),
            prefix: Outcome::NotStarted { reason: String::new() },
            bin: Vec::new(),
            casks: Vec::new(),
            globs: Vec::new(),
            bundles: Vec::new(),
            launches: Vec::new(),
        }
    }
}

/// What is run to learn the package manager's prefix.
pub fn prefix_query() -> (r: Invocation)
    ensures
        r@ == (InvocationView { program: "brew"@, args: seq!["--prefix"@] }),
{
    let mut args: Vec<String> = Vec::new();
    args.push(String::from_str(FLAG_PREFIX));
    assert(args.deep_view() =~= seq!["--prefix"@]);
    Invocation { program: String::from_str(BREW), args }
}

/// What is run to learn the version of the candidate: its executable, with the flag for the
/// version as its one argument.
pub fn version_query(candidate: &Candidate) -> (r: Invocation)
    ensures
        r@ == (InvocationView { program: candidate@.path, args: seq!["--version"@] }),
{
    let mut args: Vec<String> = Vec::new();
    args.push(String::from_str(FLAG_VERSION));
    assert(args.deep_view() =~= seq!["--version"@]);
    Invocation { program: candidate.path.clone(), args }
}

/// The package manager's prefix that the run `outcome` reports.
pub fn detect_homebrew_prefix(outcome: &Outcome) -> (r: Option<String>)
    ensures
        r.deep_view() == prefix_of(outcome@),
{
    match outcome {
        Outcome::Exited { code, stdout } => {
            if outcome.success() {
                match from_utf8(stdout.as_slice()) {
                    Some(text) => Some(String::from_str(trim(text.as_str()))),
                    None => None,
                }
            } else {
                None
            }
        },
        Outcome::NotStarted { .. } => None,
    }
}

/// The package manager's directory of executables and its directory of applications, under
/// its prefix.
pub fn homebrew_dirs(prefix: &str) -> (r: (String, String))
    ensures
        r.0@ == joined(prefix@, "bin"@),
        r.1@ == joined(prefix@, "Caskroom"@),
{
    (join(prefix, "bin"), join(prefix, "Caskroom"))
}

/// How the run of the executable at `path` ended, going by the first record of that path.
pub fn lookup_outcome<'a>(launches: &'a Vec<Launch>, path: &str) -> (r: Option<&'a Outcome>)
    ensures
        r.deep_view() == outcome_of(launches.deep_view(), path@),
{
    let mut i: usize = 0;
    assert(launches.deep_view().skip(0) =~= launches.deep_view());
    while i < launches.len()
        invariant
            i <= launches.len(),
            outcome_of(launches.deep_view(), path@) == outcome_of(
                launches.deep_view().skip(i as int),
                path@,
            ),
        decreases launches.len() - i,
    {
        let ghost rest = launches.deep_view().skip(i as int);
        assert(rest[0] == launches[i as int]@);
        if str_eq(launches[i].path.as_str(), path) {
            return Some(&launches[i].outcome);
        }
        assert(rest.drop_first() =~= launches.deep_view().skip(i + 1));
        i += 1;
    }
    None
}

/// The candidates that follow from `survey` for `kinds`.
pub fn candidates(survey: &Survey, kinds: &[Kind]) -> (r: Vec<Candidate>)
    ensures
        r.deep_view() == candidates_of(survey@, kinds@),
{
    let mut out = find_in_known_locations(kinds, &survey.existing);
    let ghost known = out.deep_view();
    let ghost brewed = Seq::<CandidateView>::empty();
    if detect_homebrew_prefix(&survey.prefix).is_some() {
        let mut more = find_in_homebrew(&survey.bin, &survey.casks, kinds, &survey.globs);
        proof {
            brewed = more.deep_view();
        }
        out.append(&mut more);
    }
    assert(out.deep_view() =~= known + brewed);
    let mut custom = find_in_custom_dirs(&survey.bundles, kinds, &survey.existing);
    let ghost named = custom.deep_view();
    out.append(&mut custom);
    assert(out.deep_view() =~= known + brewed + named);
    out
}

/// The browsers that `candidates` resolve to, in the order of the candidates. A candidate
/// that resolves to none is passed over.
pub fn resolve_all(candidates: &Vec<Candidate>, launches: &Vec<Launch>) -> (r: Vec<Browser>)
    ensures
        r.deep_view() == browsers_of(candidates.deep_view(), launches.deep_view()),
{
    let mut out: Vec<Browser> = Vec::new();
    let mut i: usize = 0;
    assert(out.deep_view() =~= browsers_of(candidates.deep_view().take(0), launches.deep_view()));
    while i < candidates.len()
        invariant
            i <= candidates.len(),
            out.deep_view() == browsers_of(
                candidates.deep_view().take(i as int),
                launches.deep_view(),
            ),
        decreases candidates.len() - i,
    {
        proof {
            assert(candidates.deep_view().take(i + 1).drop_last() =~= candidates.deep_view().take(
                i as int,
            ));
            assert(candidates.deep_view().take(i + 1).last() == candidates[i as int]@);
        }
        let c = &candidates[i];
        match lookup_outcome(launches, c.path.as_str()) {
            Some(outcome) => match get_browser(&c.kind, c.path.as_str(), outcome) {
                Ok(b) => {
                    let ghost before = out.deep_view();
                    out.push(b);
                    assert(out.deep_view() =~= before.push(b@));
                },
                Err(_) => {},
            },
            None => {},
        }
        i += 1;
    }
    assert(candidates.deep_view().take(candidates.deep_view().len() as int)
        =~= candidates.deep_view());
    out
}

/// The browsers installed on the machine of `survey`, of the kinds `kinds`: one for each name
/// and version, or with `all` one for each line that describes a browser, in the order of
/// those keys.
pub fn find_browsers(survey: &Survey, kinds: &[Kind], all: bool) -> (r: Vec<Browser>)
    ensures
        is_inventory(found_in(survey@, kinds@), all, r.deep_view()),
{
    let candidates = candidates(survey, kinds);
    let found = resolve_all(&candidates, &survey.launches);
    inventory(&found, all)
}

/// The first of the browsers of kind `kind` installed on the machine of `survey`, one for
/// each name and version taken, in the order of those keys.
pub fn find_browser(survey: &Survey, kind: Kind) -> (r: Result<Browser, Failure>)
    ensures
        r is Err <==> found_in(survey@, seq![kind]).len() == 0,
        r is Err ==> r.unwrap_err()@ == (FailureView::NotFound { kind }),
        r is Ok ==> exists|out: Seq<BrowserView>| #[trigger]
            is_inventory(found_in(survey@, seq![kind]), false, out) && out.len() > 0 && out[0]
                == r.unwrap()@,
{
    let kinds = vec![kind];
    assert(kinds@ =~= seq![kind]);
    let browsers = find_browsers(survey, kinds.as_slice(), false);
    let ghost found = found_in(survey@, seq![kind]);
    let ghost out = browsers.deep_view();
    if browsers.len() > 0 {
        proof {
            assert(kept(found, false, out[0]));
        }
        Ok(browsers[0].clone())
    } else {
        proof {
            if found.len() > 0 {
                assert(has_key(
                    out,
                    false,
                    key(found[0], false),
                ));
            }
        }
        Err(Failure::NotFound { kind })
    }
}

} // verus!
