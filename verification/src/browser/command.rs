//! The two commands on browsers: open an address in one, and list those that are installed.

use crate::browser::error::{Failure, FailureView};
use crate::browser::inventory::is_inventory;
use crate::browser::kind::Kind;
use crate::browser::resolve::BrowserView;
use crate::browser::search::{find_browser, find_browsers, found_in, Survey};
use crate::utils::{Invocation, InvocationView};
use vstd::prelude::*;
use vstd::string::StringExecFns;

verus! {

/// Where the package manager lies when nothing says otherwise.
pub const DEFAULT_HOMEBREW_PREFIX: &'static str = "/opt/homebrew";

/// A command on browsers.
#[derive(Debug, Clone)]
pub enum Browser {
    /// Open `url` in a browser of kind `browser`, in a new tab where `new_tab` is set.
    Open { new_tab: bool, browser: Kind, url: String },
    /// List the browsers of `kinds` that are installed: each at each path with `all`, and
    /// their paths alone with `path`.
    Find { kinds: Vec<Kind>, all: bool, path: bool },
}

/// What a command on browsers asks to be done.
#[derive(Debug, Clone)]
pub enum Action {
    /// Start a program in the background.
    Spawn(Invocation),
    /// Write lines out.
    Print(Vec<String>),
}

/// The arguments with which a browser opens `url`.
pub open spec fn open_arguments(new_tab: bool, url: Seq<char>) -> Seq<Seq<char>> {
    (if new_tab {
        seq!["--new-tab"@]
    } else {
        seq![]
    }) + seq!["--url"@, url]
}

/// What is written out for `browsers`: for each its path with `path`, and else the line that
/// describes it.
pub open spec fn report(browsers: Seq<BrowserView>, path: bool) -> Seq<Seq<char>> {
    Seq::new(
        browsers.len(),
        |i: int|
            if path {
                browsers[i].path
            } else {
                browsers[i].line()
            },
    )
}

/// The directories that are searched besides the fixed places: that of the package manager,
/// which is `homebrew_prefix` where that is known, and that of the applications.
pub fn search_dirs(homebrew_prefix: Option<&str>) -> (r: Vec<String>)
    ensures
        r.deep_view() == seq![
            match homebrew_prefix {
                Some(prefix) => prefix@,
                None => "/opt/homebrew"@,
            },
            "/Applications"@,
        ],
{
    let prefix = match homebrew_prefix {
        Some(prefix) => prefix,
        None => DEFAULT_HOMEBREW_PREFIX,
    };
    let mut dirs: Vec<String> = Vec::new();
    dirs.push(String::from_str(prefix));
    dirs.push(String::from_str("/Applications"));
    assert(dirs.deep_view() =~= seq![prefix@, "/Applications"@]);
    dirs
}

/// The arguments with which a browser opens `url`.
pub fn arguments(new_tab: bool, url: &str) -> (r: Vec<String>)
    ensures
        r.deep_view() == open_arguments(new_tab, url@),
{
    let mut args: Vec<String> = Vec::new();
    if new_tab {
        args.push(String::from_str("--new-tab"));
    }
    let ghost first = args.deep_view();
    args.push(String::from_str("--url"));
    args.push(String::from_str(url));
    assert(args.deep_view() =~= first + seq!["--url"@, url@]);
    assert(first =~= if new_tab {
        seq!["--new-tab"@]
    } else {
        seq![]
    });
    args
}

impl Browser {
    /// What the command asks to be done on the machine of `survey`. To open an address is to
    /// start the first browser of the kind with the address; it fails where the machine does
    /// not run macOS, and where no browser of the kind is installed. To list is to write out,
    /// for each browser that the search gives, its path or the line that describes it.
    pub fn run(&self, survey: &Survey, macos: bool) -> (r: Result<Action, Failure>)
        ensures
            match *self {
                Browser::Open { new_tab, browser, url } => if !macos {
                    r is Err && r.unwrap_err()@ == FailureView::Unsupported
                } else if found_in(survey@, seq![browser]).len() == 0 {
                    r is Err && r.unwrap_err()@ == (FailureView::NotFound { kind: browser })
                } else {
                    r is Ok && r.unwrap() is Spawn && exists|out: Seq<BrowserView>| #[trigger]
                        is_inventory(found_in(survey@, seq![browser]), false, out) && out.len()
                            > 0 && r.unwrap()->Spawn_0@ == (InvocationView {
                            program: out[0].path,
                            args: open_arguments(new_tab, url@),
                        })
                },
                Browser::Find { kinds, all, path } => r is Ok && r.unwrap() is Print
                    && exists|out: Seq<BrowserView>| #[trigger]
                    is_inventory(found_in(survey@, kinds@), all, out) && r.unwrap()->Print_0.deep_view()
                        == report(out, path),
            },
    {
        match self {
            Browser::Open { new_tab, browser, url } => {
                if !macos {
                    return Err(Failure::Unsupported);
                }
                let args = arguments(*new_tab, url.as_str());
                match find_browser(survey, *browser) {
                    Ok(found) => Ok(
                        Action::Spawn(Invocation { program: String::from_str(found.path()), args }),
                    ),
                    Err(e) => Err(e),
                }
            },
            Browser::Find { kinds, all, path } => {
                let browsers = find_browsers(survey, kinds.as_slice(), *all);
                let mut lines: Vec<String> = Vec::new();
                let mut i: usize = 0;
                while i < browsers.len()
                    invariant
                        i <= browsers.len(),
                        lines.deep_view() == report(browsers.deep_view().take(i as int), *path),
                    decreases browsers.len() - i,
                {
                    let ghost before = lines.deep_view();
                    let line = if *path {
                        String::from_str(browsers[i].path())
                    } else {
                        browsers[i].to_string()
                    };
                    let ghost text = line@;
                    lines.push(line);
                    assert(lines.deep_view() =~= before.push(text));
                    assert(browsers.deep_view()[i as int] == browsers[i as int]@);
                    assert(before.push(text) =~= report(
                        browsers.deep_view().take(i + 1),
                        *path,
                    ));
                    assert(lines.deep_view() =~= report(
                        browsers.deep_view().take(i + 1),
                        *path,
                    ));
                    i += 1;
                }
                assert(browsers.deep_view().take(browsers.deep_view().len() as int)
                    =~= browsers.deep_view());
                Ok(Action::Print(lines))
            },
        }
    }
}

} // verus!
