//! The registry of supported browsers.

use crate::browser::error::{Failure, FailureView};
use crate::path::{join, joined};
use crate::text::{has_prefix, str_eq, strip_prefix, trim, trimmed};
use vstd::prelude::*;
use vstd::string::StringExecFns;

verus! {

/// A supported browser.
#[derive(Debug, Clone, Copy, PartialEq, Eq, Structural)]
pub enum Kind {
    Brave,
    Chrome,
    Edge,
    Firefox,
    Opera,
}

/// How a browser's version report is turned into a version.
#[derive(Debug, Clone, Copy, PartialEq, Eq, Structural)]
pub enum VersionRule {
    /// The report begins with the display name, and the version follows it.
    AfterName,
    /// The report is the version and nothing else.
    Verbatim,
}

/// Every supported browser, in declaration order.
pub open spec fn all_kinds() -> Seq<Kind> {
    seq![Kind::Brave, Kind::Chrome, Kind::Edge, Kind::Firefox, Kind::Opera]
}

impl Kind {
    /// The name of the browser's executable file.
    pub open spec fn spec_bin(self) -> Seq<char> {
        match self {
            Kind::Chrome => "Google Chrome"@,
            Kind::Edge => "Microsoft Edge"@,
            Kind::Brave => "Brave Browser"@,
            Kind::Opera => "Opera"@,
            Kind::Firefox => "firefox"@,
        }
    }

    /// The name of the browser's application bundle.
    pub open spec fn spec_app(self) -> Seq<char> {
        match self {
            Kind::Chrome => "Google Chrome.app"@,
            Kind::Edge => "Microsoft Edge.app"@,
            Kind::Brave => "Brave Browser.app"@,
            Kind::Opera => "Opera.app"@,
            Kind::Firefox => "Firefox.app"@,
        }
    }

    /// The name under which the browser presents itself.
    pub open spec fn spec_name(self) -> Seq<char> {
        match self {
            Kind::Chrome => "Google Chrome"@,
            Kind::Edge => "Microsoft Edge"@,
            Kind::Brave => "Brave Browser"@,
            Kind::Opera => "Opera"@,
            Kind::Firefox => "Mozilla Firefox"@,
        }
    }

    /// The one-word name of the browser.
    pub open spec fn spec_short_name(self) -> Seq<char> {
        match self {
            Kind::Chrome => "Chrome"@,
            Kind::Edge => "Edge"@,
            Kind::Brave => "Brave"@,
            Kind::Opera => "Opera"@,
            Kind::Firefox => "Firefox"@,
        }
    }

    /// The rule by which the browser's version report is read.
    pub open spec fn spec_rule(self) -> VersionRule {
        match self {
            Kind::Opera => VersionRule::Verbatim,
            _ => VersionRule::AfterName,
        }
    }

    /// Where the browser's executable lies when the browser is installed as an application.
    pub open spec fn spec_applications_path(self) -> Seq<char> {
        joined(
            joined(joined("/Applications"@, self.spec_app()), "Contents/MacOS"@),
            self.spec_bin(),
        )
    }

    /// The version that the report `raw` states: by the rule `AfterName` what follows the
    /// display name in the report, by the rule `Verbatim` the report itself, each time without
    /// the whitespace around it; none where the rule is `AfterName` and the report does not
    /// begin with the display name.
    pub open spec fn spec_version(self, raw: Seq<char>) -> Option<Seq<char>> {
        let report = trimmed(raw);
        match self.spec_rule() {
            VersionRule::Verbatim => Some(report),
            VersionRule::AfterName => if has_prefix(report, self.spec_name()) {
                Some(trimmed(report.subrange(self.spec_name().len() as int, report.len() as int)))
            } else {
                None
            },
        }
    }

    /// Every supported browser, in declaration order.
    pub fn all() -> (r: Vec<Kind>)
        ensures
            r@ == all_kinds(),
    {
        let r = vec![Kind::Brave, Kind::Chrome, Kind::Edge, Kind::Firefox, Kind::Opera];
        assert(r@ =~= all_kinds());
        r
    }

    /// The name of the browser's executable file.
    pub fn bin(&self) -> (r: &'static str)
        ensures
            r@ == self.spec_bin(),
    {
        match self {
            Kind::Chrome => "Google Chrome",
            Kind::Edge => "Microsoft Edge",
            Kind::Brave => "Brave Browser",
            Kind::Opera => "Opera",
            Kind::Firefox => "firefox",
        }
    }

    /// The name of the browser's application bundle.
    pub fn app(&self) -> (r: &'static str)
        ensures
            r@ == self.spec_app(),
    {
        match self {
            Kind::Chrome => "Google Chrome.app",
            Kind::Edge => "Microsoft Edge.app",
            Kind::Brave => "Brave Browser.app",
            Kind::Opera => "Opera.app",
            Kind::Firefox => "Firefox.app",
        }
    }

    /// The name under which the browser presents itself.
    pub fn name(&self) -> (r: &'static str)
        ensures
            r@ == self.spec_name(),
    {
        match self {
            Kind::Chrome => "Google Chrome",
            Kind::Edge => "Microsoft Edge",
            Kind::Brave => "Brave Browser",
            Kind::Opera => "Opera",
            Kind::Firefox => "Mozilla Firefox",
        }
    }

    /// The one-word name of the browser.
    pub fn short_name(&self) -> (r: &'static str)
        ensures
            r@ == self.spec_short_name(),
    {
        match self {
            Kind::Chrome => "Chrome",
            Kind::Edge => "Edge",
            Kind::Brave => "Brave",
            Kind::Opera => "Opera",
            Kind::Firefox => "Firefox",
        }
    }

    /// The one-word name of the browser, as it is written out.
    pub fn to_string(&self) -> (r: String)
        ensures
            r@ == self.spec_short_name(),
    {
        String::from_str(self.short_name())
    }

    /// The rule by which the browser's version report is read.
    pub fn rule(&self) -> (r: VersionRule)
        ensures
            r == self.spec_rule(),
    {
        match self {
            Kind::Opera => VersionRule::Verbatim,
            _ => VersionRule::AfterName,
        }
    }

    /// Where the browser's executable lies when the browser is installed as an application.
    pub fn applications_path(&self) -> (r: String)
        ensures
            r@ == self.spec_applications_path(),
    {
        let bundle = join("/Applications", self.app());
        let dir = join(bundle.as_str(), "Contents/MacOS");
        join(dir.as_str(), self.bin())
    }

    /// Reads the version report `version`, and returns the display name with the version.
    pub fn parse_version(&self, version: &str) -> (r: Result<(String, String), Failure>)
        ensures
            match self.spec_version(version@) {
                Some(v) => r is Ok && r.unwrap().0@ == self.spec_name() && r.unwrap().1@ == v,
                None => r is Err && r.unwrap_err()@ == (FailureView::InvalidVersion {
                    report: trimmed(version@),
                }),
            },
    {
        let version = trim(version);
        let name = self.name();
        match self.rule() {
            VersionRule::Verbatim => Ok((String::from_str(name), String::from_str(version))),
            VersionRule::AfterName => match strip_prefix(version, name) {
                Some(rest) => Ok((String::from_str(name), String::from_str(trim(rest)))),
                None => Err(Failure::InvalidVersion { report: String::from_str(version) }),
            },
        }
    }

    /// The browser whose executable file is named `bin`, if there is one.
    pub fn from_bin(bin: &str) -> (r: Option<Kind>)
        ensures
            r == spec_from_bin(bin@),
            forall|k: Kind| r == Some(k) <==> k.spec_bin() == bin@,
    {
        let kinds = Kind::all();
        let mut i: usize = 0;
        while i < kinds.len()
            invariant
                kinds@ == all_kinds(),
                i <= kinds.len(),
                forall|j: int| 0 <= j < i ==> kinds@[j].spec_bin() != bin@,
            decreases kinds.len() - i,
        {
            let k = kinds[i];
            if str_eq(k.bin(), bin) {
                assert forall|j: Kind| j.spec_bin() == bin@ implies j == k by {
                    lemma_bin_is_injective(j, k);
                }
                return Some(k);
            }
            i += 1;
        }
        assert forall|k: Kind| k.spec_bin() != bin@ by {
            lemma_all_kinds_is_complete(k);
        }
        None
    }
}

/// Every browser occurs in `all_kinds()`.
pub proof fn lemma_all_kinds_is_complete(k: Kind)
    ensures
        exists|i: int| 0 <= i < all_kinds().len() && all_kinds()[i] == k,
{
    match k {
        Kind::Brave => assert(all_kinds()[0] == k),
        Kind::Chrome => assert(all_kinds()[1] == k),
        Kind::Edge => assert(all_kinds()[2] == k),
        Kind::Firefox => assert(all_kinds()[3] == k),
        Kind::Opera => assert(all_kinds()[4] == k),
    }
}

/// No two browsers share the name of their executable file.
pub proof fn lemma_bin_is_injective(a: Kind, b: Kind)
    requires
        a.spec_bin() == b.spec_bin(),
    ensures
        a == b,
{
    reveal_strlit("Google Chrome");
    reveal_strlit("Microsoft Edge");
    reveal_strlit("Brave Browser");
    reveal_strlit("Opera");
    reveal_strlit("firefox");
    assert("Google Chrome"@[0] == 'G');
    assert("Microsoft Edge"@[0] == 'M');
    assert("Brave Browser"@[0] == 'B');
    assert("Opera"@[0] == 'O');
    assert("firefox"@[0] == 'f');
}

/// The browser found under the name `bin`, if there is one.
pub open spec fn spec_from_bin(bin: Seq<char>) -> Option<Kind> {
    if exists|k: Kind| k.spec_bin() == bin {
        Some(choose|k: Kind| k.spec_bin() == bin)
    } else {
        None
    }
}

/// Looking a browser up by the name of its own executable file finds that browser.
pub proof fn lemma_from_bin_inverts_bin(k: Kind)
    ensures
        spec_from_bin(k.spec_bin()) == Some(k),
{
    let found = choose|j: Kind| j.spec_bin() == k.spec_bin();
    lemma_bin_is_injective(found, k);
}

} // verus!
