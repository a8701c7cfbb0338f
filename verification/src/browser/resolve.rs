//! From a candidate and what its executable reported to a browser with its version.

use crate::browser::error::{Failure, FailureView};
use crate::browser::kind::{all_kinds, Kind};
use crate::text::{from_utf8_lossy, lossy_text, pad_right, padded, trimmed};
use vstd::prelude::*;
use vstd::std_specs::cmp::PartialEqSpecImpl;
use vstd::string::StringExecFns;

verus! {

/// How the run of a command ended.
#[derive(Debug, Clone)]
pub enum Outcome {
    /// The command could not be started; `reason` says why.
    NotStarted { reason: String },
    /// The command ran and ended with the status `code`, where the platform reports one, and
    /// had written `stdout` to its standard output.
    Exited { code: Option<i32>, stdout: Vec<u8> },
}

/// An [`Outcome`] with its texts as sequences.
pub enum OutcomeView {
    NotStarted { reason: Seq<char> },
    Exited { code: Option<i32>, stdout: Seq<u8> },
}

impl View for Outcome {
    type V = OutcomeView;

    open spec fn view(&self) -> OutcomeView {
        match self {
            Outcome::NotStarted { reason } => OutcomeView::NotStarted { reason: reason@ },
            Outcome::Exited { code, stdout } => OutcomeView::Exited {
                code: *code,
                stdout: stdout@,
            },
        }
    }
}

impl DeepView for Outcome {
    type V = OutcomeView;

    open spec fn deep_view(&self) -> OutcomeView {
        self@
    }
}

impl OutcomeView {
    /// Whether the command ran and ended with the status zero.
    pub open spec fn succeeded(self) -> bool {
        self matches OutcomeView::Exited { code, .. } && code == Some(0i32)
    }
}

impl Outcome {
    /// Whether the command ran and ended with the status zero.
    pub fn success(&self) -> (r: bool)
        ensures
            r == self@.succeeded(),
    {
        match self {
            Outcome::Exited { code: Some(code), .. } => *code == 0,
            _ => false,
        }
    }
}

/// The width to which the version is filled up in the line that describes a browser.
pub const VERSION_WIDTH: usize = 13;

/// The length of the longest display name among `kinds`.
pub open spec fn widest_name(kinds: Seq<Kind>) -> nat
    decreases kinds.len(),
{
    if kinds.len() == 0 {
        0
    } else {
        let before = widest_name(kinds.drop_last());
        let len = kinds.last().spec_name().len();
        if len > before {
            len
        } else {
            before
        }
    }
}

/// The width to which the display name is filled up in the line that describes a browser: the
/// length of the longest display name of the whole registry.
pub open spec fn name_width() -> nat {
    widest_name(all_kinds())
}

/// The longest display name of the registry has 15 characters.
pub proof fn lemma_name_width()
    ensures
        name_width() == 15,
{
    reveal_strlit("Google Chrome");
    reveal_strlit("Microsoft Edge");
    reveal_strlit("Brave Browser");
    reveal_strlit("Opera");
    reveal_strlit("Mozilla Firefox");
    let k = all_kinds();
    assert(k.drop_last() =~= seq![Kind::Brave, Kind::Chrome, Kind::Edge, Kind::Firefox]);
    assert(k.drop_last().drop_last() =~= seq![Kind::Brave, Kind::Chrome, Kind::Edge]);
    assert(k.drop_last().drop_last().drop_last() =~= seq![Kind::Brave, Kind::Chrome]);
    assert(k.drop_last().drop_last().drop_last().drop_last() =~= seq![Kind::Brave]);
    assert(k.drop_last().drop_last().drop_last().drop_last().drop_last() =~= Seq::<Kind>::empty());
    reveal_with_fuel(widest_name, 6);
}

/// A browser that was found, with the version that its executable reported.
#[derive(Debug)]
pub struct Browser {
    name: String,
    kind: Kind,
    path: String,
    version: String,
}

/// A [`Browser`] with its texts as sequences of characters.
pub struct BrowserView {
    pub name: Seq<char>,
    pub kind: Kind,
    pub path: Seq<char>,
    pub version: Seq<char>,
}

impl BrowserView {
    /// The name is the display name of the kind, and the version is one that the kind's rule
    /// gives for some report.
    pub open spec fn wf(self) -> bool {
        &&& self.name == self.kind.spec_name()
        &&& exists|raw: Seq<char>| self.kind.spec_version(raw) == Some(self.version)
    }

    /// The key under which browsers of the same name and version are one: the name, a space
    /// and the version.
    pub open spec fn version_key(self) -> Seq<char> {
        self.name + seq![' '] + self.version
    }

    /// The line that describes the browser: the name filled up to the width of the longest
    /// display name, the version filled up to [`VERSION_WIDTH`], and the path, with one space
    /// between them.
    pub open spec fn line(self) -> Seq<char> {
        padded(self.name, name_width()) + seq![' '] + padded(self.version, VERSION_WIDTH as nat)
            + seq![' '] + self.path
    }
}

impl View for Browser {
    type V = BrowserView;

    closed spec fn view(&self) -> BrowserView {
        BrowserView { name: self.name@, kind: self.kind, path: self.path@, version: self.version@ }
    }
}

impl DeepView for Browser {
    type V = BrowserView;

    open spec fn deep_view(&self) -> BrowserView {
        self@
    }
}

/// What the run of the candidate's executable with the flag for its version makes of the
/// candidate: a browser where the run ended with the status zero and the kind's rule reads a
/// version from what the run wrote, and else the error that says why not.
pub open spec fn resolved(kind: Kind, path: Seq<char>, outcome: OutcomeView) -> Result<
    BrowserView,
    FailureView,
> {
    match outcome {
        OutcomeView::NotStarted { reason } => Err(FailureView::NotStarted { reason }),
        OutcomeView::Exited { code, stdout } => if code == Some(0i32) {
            match kind.spec_version(lossy_text(stdout)) {
                Some(version) => Ok(
                    BrowserView { name: kind.spec_name(), kind, path, version },
                ),
                None => Err(FailureView::InvalidVersion { report: trimmed(lossy_text(stdout)) }),
            }
        } else {
            Err(FailureView::Failed { code })
        },
    }
}

/// The width to which the display name is filled up in the line that describes a browser.
pub fn widest_display_name() -> (r: usize)
    ensures
        r == name_width(),
{
    let kinds = Kind::all();
    let mut width: usize = 0;
    let mut i: usize = 0;
    assert(kinds@.take(0) =~= Seq::<Kind>::empty());
    while i < kinds.len()
        invariant
            i <= kinds.len(),
            kinds@ == all_kinds(),
            width == widest_name(kinds@.take(i as int)),
        decreases kinds.len() - i,
    {
        proof {
            assert(kinds@.take(i + 1).drop_last() =~= kinds@.take(i as int));
        }
        let len = kinds[i].name().unicode_len();
        if len > width {
            width = len;
        }
        i += 1;
    }
    assert(kinds@.take(kinds@.len() as int) =~= kinds@);
    width
}

impl Browser {
    #[verifier::type_invariant]
    spec fn well_formed(self) -> bool {
        self@.wf()
    }

    /// The name under which the browser presents itself.
    pub fn name(&self) -> (r: &str)
        ensures
            r@ == self@.name,
    {
        self.name.as_str()
    }

    /// The kind of the browser.
    pub fn kind(&self) -> (r: Kind)
        ensures
            r == self@.kind,
            self@.wf(),
    {
        proof {
            use_type_invariant(self);
        }
        self.kind
    }

    /// Where the browser's executable lies.
    pub fn path(&self) -> (r: &str)
        ensures
            r@ == self@.path,
    {
        self.path.as_str()
    }

    /// The version that the browser's executable reported.
    pub fn version_number(&self) -> (r: &str)
        ensures
            r@ == self@.version,
    {
        self.version.as_str()
    }

    /// The key under which browsers of the same name and version are one.
    pub fn version(&self) -> (r: String)
        ensures
            r@ == self@.version_key(),
    {
        proof {
            reveal_strlit(" ");
            assert(" "@ =~= seq![' ']);
        }
        String::from_str(self.name.as_str()).concat(" ").concat(self.version.as_str())
    }

    /// The line that describes the browser.
    pub fn to_string(&self) -> (r: String)
        ensures
            r@ == self@.line(),
    {
        proof {
            reveal_strlit(" ");
            assert(" "@ =~= seq![' ']);
        }
        let name = pad_right(self.name.as_str(), widest_display_name());
        let version = pad_right(self.version.as_str(), VERSION_WIDTH);
        name.concat(" ").concat(version.as_str()).concat(" ").concat(self.path.as_str())
    }

}

impl PartialEq for Browser {
    fn eq(&self, other: &Self) -> (r: bool) {
        self.name == other.name && self.kind == other.kind && self.path == other.path
            && self.version == other.version
    }
}

impl Eq for Browser {

}

impl PartialEqSpecImpl for Browser {
    open spec fn obeys_eq_spec() -> bool {
        true
    }

    open spec fn eq_spec(&self, other: &Self) -> bool {
        self@ == other@
    }
}

impl Clone for Browser {
    fn clone(&self) -> (r: Self)
        ensures
            r@ == self@,
    {
        proof {
            use_type_invariant(self);
        }
        Browser {
            name: self.name.clone(),
            kind: self.kind,
            path: self.path.clone(),
            version: self.version.clone(),
        }
    }
}

/// Makes a browser of the candidate of kind `kind` at `path`, given how the run of its
/// executable with the flag for its version ended.
pub fn get_browser(kind: &Kind, path: &str, outcome: &Outcome) -> (r: Result<Browser, Failure>)
    ensures
        match resolved(*kind, path@, outcome@) {
            Ok(b) => r is Ok && r.unwrap()@ == b,
            Err(e) => r is Err && r.unwrap_err()@ == e,
        },
{
    match outcome {
        Outcome::NotStarted { reason } => Err(Failure::NotStarted { reason: reason.clone() }),
        Outcome::Exited { code, stdout } => {
            if outcome.success() {
                let report = from_utf8_lossy(stdout.as_slice());
                match kind.parse_version(report.as_str()) {
                    Ok((name, version)) => {
                        Ok(Browser { name, kind: *kind, path: String::from_str(path), version })
                    },
                    Err(e) => Err(e),
                }
            } else {
                Err(Failure::Failed { code: *code })
            }
        },
    }
}

} // verus!
