//! The three searches for files that look like the executable of a browser.
//!
//! None of them touches the disk: each works on what was seen there, handed in as plain
//! values, and says which candidates follow from it.

use crate::browser::kind::{spec_from_bin, Kind};
use crate::path::{extension, extension_of, file_name, join, joined, last_component};
use crate::text::{contains, has_substring, holds, lowercase, str_eq, to_lowercase};
use vstd::prelude::*;

verus! {

/// A file that looks like the executable of a browser of kind `kind`. Nothing is known yet of
/// the version that it would report.
#[derive(Debug, Clone)]
pub struct Candidate {
    pub kind: Kind,
    pub path: String,
}

/// A [`Candidate`] with its path as a sequence of characters.
pub struct CandidateView {
    pub kind: Kind,
    pub path: Seq<char>,
}

impl View for Candidate {
    type V = CandidateView;

    open spec fn view(&self) -> CandidateView {
        CandidateView { kind: self.kind, path: self.path@ }
    }
}

impl DeepView for Candidate {
    type V = CandidateView;

    open spec fn deep_view(&self) -> CandidateView {
        self@
    }
}

/// An entry of a directory: its path, and whether the path leads to a regular file.
#[derive(Debug, Clone)]
pub struct Entry {
    pub path: String,
    pub is_file: bool,
}

/// An [`Entry`] with its path as a sequence of characters.
pub struct EntryView {
    pub path: Seq<char>,
    pub is_file: bool,
}

impl View for Entry {
    type V = EntryView;

    open spec fn view(&self) -> EntryView {
        EntryView { path: self.path@, is_file: self.is_file }
    }
}

impl DeepView for Entry {
    type V = EntryView;

    open spec fn deep_view(&self) -> EntryView {
        self@
    }
}

/// What a search of the disk for the paths that match `pattern` gave: the first such path, or
/// none.
#[derive(Debug, Clone)]
pub struct Glob {
    pub pattern: String,
    pub first: Option<String>,
}

/// A [`Glob`] with its texts as sequences of characters.
pub struct GlobView {
    pub pattern: Seq<char>,
    pub first: Option<Seq<char>>,
}

impl View for Glob {
    type V = GlobView;

    open spec fn view(&self) -> GlobView {
        GlobView { pattern: self.pattern@, first: self.first.deep_view() }
    }
}

impl DeepView for Glob {
    type V = GlobView;

    open spec fn deep_view(&self) -> GlobView {
        self@
    }
}

/// The first match recorded in `globs` for `pattern`, going by the first record of that
/// pattern.
pub open spec fn first_match(globs: Seq<GlobView>, pattern: Seq<char>) -> Option<Seq<char>>
    decreases globs.len(),
{
    if globs.len() == 0 {
        None
    } else if globs[0].pattern == pattern {
        globs[0].first
    } else {
        first_match(globs.drop_first(), pattern)
    }
}

/// Where the executable of `kind` lies in the application bundle at `bundle`.
pub open spec fn executable_in(bundle: Seq<char>, kind: Kind) -> Seq<char> {
    joined(joined(bundle, "Contents/MacOS"@), kind.spec_bin())
}

/// The pattern that the executable of `kind` matches when it was installed under the
/// package manager's directory `cask`.
pub open spec fn cask_pattern(cask: Seq<char>, kind: Kind) -> Seq<char> {
    joined(joined(joined(cask, "latest"@), "*.app/Contents/MacOS"@), kind.spec_bin())
}

/// The candidates at the fixed places: for each of `kinds`, in their order, the place of its
/// application where `existing` holds that place.
pub open spec fn known_locations(kinds: Seq<Kind>, existing: Seq<Seq<char>>) -> Seq<
    CandidateView,
>
    decreases kinds.len(),
{
    if kinds.len() == 0 {
        seq![]
    } else {
        let before = known_locations(kinds.drop_last(), existing);
        let kind = kinds.last();
        if existing.contains(kind.spec_applications_path()) {
            before.push(CandidateView { kind, path: kind.spec_applications_path() })
        } else {
            before
        }
    }
}

/// The candidate that the file at `path` is: the browser whose executable has the file's
/// name, if there is one.
pub open spec fn named_candidate(path: Seq<char>) -> Option<CandidateView> {
    match file_name(path) {
        None => None,
        Some(name) => match spec_from_bin(name) {
            None => None,
            Some(kind) => Some(CandidateView { kind, path }),
        },
    }
}

/// The candidates among the entries of a directory of executables: each regular file that has
/// the name of a browser's executable, in the order of `entries`.
pub open spec fn executables_in_dir(entries: Seq<EntryView>) -> Seq<CandidateView>
    decreases entries.len(),
{
    if entries.len() == 0 {
        seq![]
    } else {
        let before = executables_in_dir(entries.drop_last());
        let entry = entries.last();
        match named_candidate(entry.path) {
            Some(c) if entry.is_file => before.push(c),
            _ => before,
        }
    }
}

/// What the package manager's directory `cask` gives for `kind`, where `name` is the
/// lowercase name of the directory: the first match of the kind's pattern, where the name
/// holds the name of the kind's executable.
pub open spec fn cask_match(cask: Seq<char>, name: Seq<char>, kind: Kind, globs: Seq<GlobView>) -> Option<
    CandidateView,
> {
    if has_substring(name, kind.spec_bin()) {
        match first_match(globs, cask_pattern(cask, kind)) {
            Some(path) => Some(CandidateView { kind, path }),
            None => None,
        }
    } else {
        None
    }
}

/// The candidate that the package manager's directory `cask` gives, where `name` is the
/// lowercase name of the directory: that of the first of `kinds` for which it gives one.
pub open spec fn named_cask_candidate(
    cask: Seq<char>,
    name: Seq<char>,
    kinds: Seq<Kind>,
    globs: Seq<GlobView>,
) -> Option<CandidateView>
    decreases kinds.len(),
{
    if kinds.len() == 0 {
        None
    } else {
        match cask_match(cask, name, kinds[0], globs) {
            Some(c) => Some(c),
            None => named_cask_candidate(cask, name, kinds.drop_first(), globs),
        }
    }
}

/// The candidate that the package manager's directory `cask` gives: none where the directory
/// has no name.
pub open spec fn cask_candidate(cask: Seq<char>, kinds: Seq<Kind>, globs: Seq<GlobView>) -> Option<
    CandidateView,
> {
    match file_name(cask) {
        Some(name) => named_cask_candidate(cask, lowercase(name), kinds, globs),
        None => None,
    }
}

/// The candidates among the package manager's directories `casks`, in their order.
pub open spec fn caskroom(casks: Seq<Seq<char>>, kinds: Seq<Kind>, globs: Seq<GlobView>) -> Seq<
    CandidateView,
>
    decreases casks.len(),
{
    if casks.len() == 0 {
        seq![]
    } else {
        let before = caskroom(casks.drop_last(), kinds, globs);
        match cask_candidate(casks.last(), kinds, globs) {
            Some(c) => before.push(c),
            None => before,
        }
    }
}

/// Whether `path` is named as an application bundle is.
pub open spec fn is_bundle(path: Seq<char>) -> bool {
    extension(path) == Some("app"@)
}

/// The candidate in the application bundle at `bundle`: the executable of the first of
/// `kinds` whose executable `existing` holds.
pub open spec fn bundle_candidate(bundle: Seq<char>, kinds: Seq<Kind>, existing: Seq<Seq<char>>) -> Option<
    CandidateView,
>
    decreases kinds.len(),
{
    if kinds.len() == 0 {
        None
    } else if existing.contains(executable_in(bundle, kinds[0])) {
        Some(CandidateView { kind: kinds[0], path: executable_in(bundle, kinds[0]) })
    } else {
        bundle_candidate(bundle, kinds.drop_first(), existing)
    }
}

/// The candidates among the entries `bundles` of the directories that the caller named: one
/// for each entry that is named as an application bundle is and holds the executable of one of
/// `kinds`, in the order of `bundles`.
pub open spec fn custom_dirs(bundles: Seq<Seq<char>>, kinds: Seq<Kind>, existing: Seq<Seq<char>>) -> Seq<
    CandidateView,
>
    decreases bundles.len(),
{
    if bundles.len() == 0 {
        seq![]
    } else {
        let before = custom_dirs(bundles.drop_last(), kinds, existing);
        let bundle = bundles.last();
        match bundle_candidate(bundle, kinds, existing) {
            Some(c) if is_bundle(bundle) => before.push(c),
            _ => before,
        }
    }
}

/// The candidates under the package manager's directories: those of its directory of
/// executables, then those of its directories of applications.
pub open spec fn homebrew(
    bin: Seq<EntryView>,
    casks: Seq<Seq<char>>,
    kinds: Seq<Kind>,
    globs: Seq<GlobView>,
) -> Seq<CandidateView> {
    executables_in_dir(bin) + caskroom(casks, kinds, globs)
}

/// The first match recorded in `globs` for `pattern`.
pub fn lookup_glob(globs: &Vec<Glob>, pattern: &str) -> (r: Option<String>)
    ensures
        r.deep_view() == first_match(globs.deep_view(), pattern@),
{
    let mut i: usize = 0;
    assert(globs.deep_view().skip(0) =~= globs.deep_view());
    while i < globs.len()
        invariant
            i <= globs.len(),
            first_match(globs.deep_view(), pattern@) == first_match(
                globs.deep_view().skip(i as int),
                pattern@,
            ),
        decreases globs.len() - i,
    {
        let ghost rest = globs.deep_view().skip(i as int);
        assert(rest[0] == globs[i as int]@);
        if str_eq(globs[i].pattern.as_str(), pattern) {
            return globs[i].first.clone();
        }
        assert(rest.drop_first() =~= globs.deep_view().skip(i + 1));
        i += 1;
    }
    None
}

impl Kind {
    /// The candidate that the file at `path` is: the browser whose executable has the file's
    /// name, if there is one.
    pub fn with_path(path: String) -> (r: Option<Candidate>)
        ensures
            r.deep_view() == named_candidate(path@),
    {
        match last_component(path.as_str()) {
            None => None,
            Some(name) => match Kind::from_bin(name) {
                None => None,
                Some(kind) => Some(Candidate { kind, path }),
            },
        }
    }

    /// Where the executable of this browser lies in the application bundle at `bundle`.
    pub fn executable_in(&self, bundle: &str) -> (r: String)
        ensures
            r@ == executable_in(bundle@, *self),
    {
        let dir = join(bundle, "Contents/MacOS");
        join(dir.as_str(), self.bin())
    }

    /// The pattern that the executable of this browser matches when it was installed under
    /// the package manager's directory `cask`.
    pub fn cask_pattern(&self, cask: &str) -> (r: String)
        ensures
            r@ == cask_pattern(cask@, *self),
    {
        let latest = join(cask, "latest");
        let dir = join(latest.as_str(), "*.app/Contents/MacOS");
        join(dir.as_str(), self.bin())
    }
}

/// The candidates at the fixed places: for each of `kinds`, in their order, the place of its
/// application where `existing` holds that place.
pub fn find_in_known_locations(kinds: &[Kind], existing: &Vec<String>) -> (r: Vec<Candidate>)
    ensures
        r.deep_view() == known_locations(kinds@, existing.deep_view()),
{
    let mut out: Vec<Candidate> = Vec::new();
    let mut i: usize = 0;
    assert(out.deep_view() =~= known_locations(kinds@.take(0), existing.deep_view()));
    while i < kinds.len()
        invariant
            i <= kinds.len(),
            out.deep_view() == known_locations(kinds@.take(i as int), existing.deep_view()),
        decreases kinds.len() - i,
    {
        let kind = kinds[i];
        let path = kind.applications_path();
        proof {
            assert(kinds@.take(i + 1).drop_last() =~= kinds@.take(i as int));
        }
        if holds(existing, path.as_str()) {
            let ghost before = out.deep_view();
            let c = Candidate { kind, path };
            out.push(c);
            assert(out.deep_view() =~= before.push(c@));
        }
        i += 1;
    }
    assert(kinds@.take(kinds@.len() as int) =~= kinds@);
    out
}

/// The candidates among the entries of a directory of executables: each regular file that has
/// the name of a browser's executable, in the order of `entries`.
pub fn find_executables_in_dir(entries: &Vec<Entry>) -> (r: Vec<Candidate>)
    ensures
        r.deep_view() == executables_in_dir(entries.deep_view()),
{
    let mut out: Vec<Candidate> = Vec::new();
    let mut i: usize = 0;
    assert(out.deep_view() =~= executables_in_dir(entries.deep_view().take(0)));
    while i < entries.len()
        invariant
            i <= entries.len(),
            out.deep_view() == executables_in_dir(entries.deep_view().take(i as int)),
        decreases entries.len() - i,
    {
        proof {
            assert(entries.deep_view().take(i + 1).drop_last() =~= entries.deep_view().take(
                i as int,
            ));
            assert(entries.deep_view().take(i + 1).last() == entries[i as int]@);
        }
        if entries[i].is_file {
            match Kind::with_path(entries[i].path.clone()) {
                Some(c) => {
                    let ghost before = out.deep_view();
                    out.push(c);
                    assert(out.deep_view() =~= before.push(c@));
                },
                None => {},
            }
        }
        i += 1;
    }
    assert(entries.deep_view().take(entries.deep_view().len() as int) =~= entries.deep_view());
    out
}

/// The candidate that the package manager's directory `cask` gives, where `name` is the
/// lowercase name of the directory: that of the first of `kinds` whose executable has its
/// name in `name` and whose pattern has a match in `globs`.
pub fn find_in_named_cask(cask: &str, name: &str, kinds: &[Kind], globs: &Vec<Glob>) -> (r: Option<
    Candidate,
>)
    ensures
        r.deep_view() == named_cask_candidate(cask@, name@, kinds@, globs.deep_view()),
{
    let mut i: usize = 0;
    assert(kinds@.skip(0) =~= kinds@);
    while i < kinds.len()
        invariant
            i <= kinds.len(),
            named_cask_candidate(cask@, name@, kinds@, globs.deep_view()) == named_cask_candidate(
                cask@,
                name@,
                kinds@.skip(i as int),
                globs.deep_view(),
            ),
        decreases kinds.len() - i,
    {
        let kind = kinds[i];
        proof {
            assert(kinds@.skip(i as int)[0] == kind);
            assert(kinds@.skip(i as int).drop_first() =~= kinds@.skip(i + 1));
        }
        if contains(name, kind.bin()) {
            let pattern = kind.cask_pattern(cask);
            match lookup_glob(globs, pattern.as_str()) {
                Some(path) => {
                    return Some(Candidate { kind, path });
                },
                None => {},
            }
        }
        i += 1;
    }
    None
}

/// The candidate that the package manager's directory `cask` gives: that of its lowercase
/// name.
pub fn find_in_cask(cask: &str, kinds: &[Kind], globs: &Vec<Glob>) -> (r: Option<Candidate>)
    ensures
        r.deep_view() == cask_candidate(cask@, kinds@, globs.deep_view()),
{
    match last_component(cask) {
        None => None,
        Some(name) => {
            let lower = to_lowercase(name);
            find_in_named_cask(cask, lower.as_str(), kinds, globs)
        },
    }
}

/// The candidates among the package manager's directories `casks`, in their order.
pub fn scan_caskroom(casks: &Vec<String>, kinds: &[Kind], globs: &Vec<Glob>) -> (r: Vec<
    Candidate,
>)
    ensures
        r.deep_view() == caskroom(casks.deep_view(), kinds@, globs.deep_view()),
{
    let mut out: Vec<Candidate> = Vec::new();
    let mut i: usize = 0;
    assert(out.deep_view() =~= caskroom(casks.deep_view().take(0), kinds@, globs.deep_view()));
    while i < casks.len()
        invariant
            i <= casks.len(),
            out.deep_view() == caskroom(
                casks.deep_view().take(i as int),
                kinds@,
                globs.deep_view(),
            ),
        decreases casks.len() - i,
    {
        proof {
            assert(casks.deep_view().take(i + 1).drop_last() =~= casks.deep_view().take(i as int));
            assert(casks.deep_view().take(i + 1).last() == casks[i as int]@);
        }
        match find_in_cask(casks[i].as_str(), kinds, globs) {
            Some(c) => {
                let ghost before = out.deep_view();
                out.push(c);
                assert(out.deep_view() =~= before.push(c@));
            },
            None => {},
        }
        i += 1;
    }
    assert(casks.deep_view().take(casks.deep_view().len() as int) =~= casks.deep_view());
    out
}

/// The candidates under the package manager's directories: those of its directory of
/// executables, then those of its directories of applications.
pub fn find_in_homebrew(bin: &Vec<Entry>, casks: &Vec<String>, kinds: &[Kind], globs: &Vec<Glob>) -> (r:
    Vec<Candidate>)
    ensures
        r.deep_view() == homebrew(bin.deep_view(), casks.deep_view(), kinds@, globs.deep_view()),
{
    let mut out = find_executables_in_dir(bin);
    let mut more = scan_caskroom(casks, kinds, globs);
    let ghost a = out.deep_view();
    let ghost b = more.deep_view();
    out.append(&mut more);
    assert(out.deep_view() =~= a + b);
    out
}

/// Whether `path` is named as an application bundle is.
pub fn is_app(path: &str) -> (r: bool)
    ensures
        r == is_bundle(path@),
{
    match extension_of(path) {
        Some(e) => str_eq(e, "app"),
        None => false,
    }
}

/// The candidate in the application bundle at `bundle`: the executable of the first of
/// `kinds` whose executable `existing` holds.
pub fn find_in_bundle(bundle: &str, kinds: &[Kind], existing: &Vec<String>) -> (r: Option<
    Candidate,
>)
    ensures
        r.deep_view() == bundle_candidate(bundle@, kinds@, existing.deep_view()),
{
    let mut i: usize = 0;
    assert(kinds@.skip(0) =~= kinds@);
    while i < kinds.len()
        invariant
            i <= kinds.len(),
            bundle_candidate(bundle@, kinds@, existing.deep_view()) == bundle_candidate(
                bundle@,
                kinds@.skip(i as int),
                existing.deep_view(),
            ),
        decreases kinds.len() - i,
    {
        let kind = kinds[i];
        proof {
            assert(kinds@.skip(i as int)[0] == kind);
            assert(kinds@.skip(i as int).drop_first() =~= kinds@.skip(i + 1));
        }
        let path = kind.executable_in(bundle);
        if holds(existing, path.as_str()) {
            return Some(Candidate { kind, path });
        }
        i += 1;
    }
    None
}

/// The candidates among the entries `bundles` of the directories that the caller named.
pub fn find_in_custom_dirs(bundles: &Vec<String>, kinds: &[Kind], existing: &Vec<String>) -> (r:
    Vec<Candidate>)
    ensures
        r.deep_view() == custom_dirs(bundles.deep_view(), kinds@, existing.deep_view()),
{
    let mut out: Vec<Candidate> = Vec::new();
    let mut i: usize = 0;
    assert(out.deep_view() =~= custom_dirs(
        bundles.deep_view().take(0),
        kinds@,
        existing.deep_view(),
    ));
    while i < bundles.len()
        invariant
            i <= bundles.len(),
            out.deep_view() == custom_dirs(
                bundles.deep_view().take(i as int),
                kinds@,
                existing.deep_view(),
            ),
        decreases bundles.len() - i,
    {
        proof {
            assert(bundles.deep_view().take(i + 1).drop_last() =~= bundles.deep_view().take(
                i as int,
            ));
            assert(bundles.deep_view().take(i + 1).last() == bundles[i as int]@);
        }
        if is_app(bundles[i].as_str()) {
            match find_in_bundle(bundles[i].as_str(), kinds, existing) {
                Some(c) => {
                    let ghost before = out.deep_view();
                    out.push(c);
                    assert(out.deep_view() =~= before.push(c@));
                },
                None => {},
            }
        }
        i += 1;
    }
    assert(bundles.deep_view().take(bundles.deep_view().len() as int) =~= bundles.deep_view());
    out
}

} // verus!
