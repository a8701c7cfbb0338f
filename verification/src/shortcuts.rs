//! Short names for commands of `git`, each written out for the checkout at hand.

use crate::fault::{Fault, FaultView};
use crate::text::{holds, join_words, joined_words, replace, replaced, str_eq};
use vstd::prelude::*;
use vstd::string::StringExecFns;

verus! {

pub const ORIGIN: &'static str = "origin";

pub const UPSTREAM: &'static str = "upstream";

/// The branches that may stand for the default of a remote whose `HEAD` points to nothing, in
/// the order in which they are taken.
pub const MAIN: &'static str = "main";

pub const MASTER: &'static str = "master";

/// A remote of a checkout, as far as the commands read it.
#[derive(Debug, Clone)]
pub struct Remote {
    /// The name of the remote.
    pub name: String,
    /// The short name of what the remote's `HEAD` points to, where it points to something.
    pub head: Option<String>,
    /// Of the branches that may stand for the default, those that the remote has.
    pub branches: Vec<String>,
}

/// A [`Remote`] with its texts as sequences of characters.
pub struct RemoteView {
    pub name: Seq<char>,
    pub head: Option<Seq<char>>,
    pub branches: Seq<Seq<char>>,
}

impl View for Remote {
    type V = RemoteView;

    open spec fn view(&self) -> RemoteView {
        RemoteView {
            name: self.name@,
            head: self.head.deep_view(),
            branches: self.branches.deep_view(),
        }
    }
}

impl DeepView for Remote {
    type V = RemoteView;

    open spec fn deep_view(&self) -> RemoteView {
        self@
    }
}

/// What a checkout has checked out.
#[derive(Debug, Clone)]
pub struct Head {
    /// The short name of what is checked out, where it has one.
    pub shorthand: Option<String>,
    /// Whether a branch is checked out.
    pub is_branch: bool,
}

/// A [`Head`] with its text as a sequence of characters.
pub struct HeadView {
    pub shorthand: Option<Seq<char>>,
    pub is_branch: bool,
}

impl View for Head {
    type V = HeadView;

    open spec fn view(&self) -> HeadView {
        HeadView { shorthand: self.shorthand.deep_view(), is_branch: self.is_branch }
    }
}

impl DeepView for Head {
    type V = HeadView;

    open spec fn deep_view(&self) -> HeadView {
        self@
    }
}

/// A checkout of a repository, as far as the commands read it: its remotes, and what it has
/// checked out, where that can be told.
#[derive(Debug, Clone)]
pub struct Checkout {
    pub remotes: Vec<Remote>,
    pub head: Option<Head>,
}

/// A [`Checkout`] with its parts as sequences.
pub struct CheckoutView {
    pub remotes: Seq<RemoteView>,
    pub head: Option<HeadView>,
}

impl View for Checkout {
    type V = CheckoutView;

    open spec fn view(&self) -> CheckoutView {
        CheckoutView { remotes: self.remotes.deep_view(), head: self.head.deep_view() }
    }
}

impl DeepView for Checkout {
    type V = CheckoutView;

    open spec fn deep_view(&self) -> CheckoutView {
        self@
    }
}

/// The first of `remotes` that has the name `name`.
pub open spec fn remote_named(remotes: Seq<RemoteView>, name: Seq<char>) -> Option<RemoteView>
    decreases remotes.len(),
{
    if remotes.len() == 0 {
        None
    } else if remotes[0].name == name {
        Some(remotes[0])
    } else {
        remote_named(remotes.drop_first(), name)
    }
}

/// The branch that is taken for the default of `remote`: what its `HEAD` points to, without
/// the name of the remote before it; where it points to nothing, `main` where the remote has
/// it, and else `master` where the remote has that.
pub open spec fn default_branch(remote: RemoteView) -> Option<Seq<char>> {
    match remote.head {
        Some(head) => Some(replaced(head, remote.name + "/"@, Seq::empty())),
        None => if remote.branches.contains("main"@) {
            Some("main"@)
        } else if remote.branches.contains("master"@) {
            Some("master"@)
        } else {
            None
        },
    }
}

/// The first of `names` that is the name of a remote with a default branch, with that branch.
pub open spec fn remote_and_default_branch(remotes: Seq<RemoteView>, names: Seq<Seq<char>>) -> Option<
    (Seq<char>, Seq<char>),
>
    decreases names.len(),
{
    if names.len() == 0 {
        None
    } else {
        match remote_named(remotes, names[0]) {
            Some(remote) if default_branch(remote) is Some => Some(
                (names[0], default_branch(remote).unwrap()),
            ),
            _ => remote_and_default_branch(remotes, names.drop_first()),
        }
    }
}

/// The first of `names` that is the name of one of `remotes`.
pub open spec fn first_remote(remotes: Seq<RemoteView>, names: Seq<Seq<char>>) -> Option<
    Seq<char>,
>
    decreases names.len(),
{
    if names.len() == 0 {
        None
    } else if remote_named(remotes, names[0]) is Some {
        Some(names[0])
    } else {
        first_remote(remotes, names.drop_first())
    }
}

impl Checkout {
    /// The first remote that has the name `name`.
    pub fn find_remote(&self, name: &str) -> (r: Option<&Remote>)
        ensures
            r.deep_view() == remote_named(self@.remotes, name@),
    {
        let mut i: usize = 0;
        assert(self@.remotes.skip(0) =~= self@.remotes);
        while i < self.remotes.len()
            invariant
                i <= self.remotes.len(),
                remote_named(self@.remotes, name@) == remote_named(
                    self@.remotes.skip(i as int),
                    name@,
                ),
            decreases self.remotes.len() - i,
        {
            let ghost rest = self@.remotes.skip(i as int);
            assert(rest[0] == self.remotes[i as int]@);
            if str_eq(self.remotes[i].name.as_str(), name) {
                return Some(&self.remotes[i]);
            }
            assert(rest.drop_first() =~= self@.remotes.skip(i + 1));
            i += 1;
        }
        None
    }
}

impl Remote {
    /// The branch that is taken for the default of the remote.
    pub fn default_branch(&self) -> (r: Option<String>)
        ensures
            r.deep_view() == default_branch(self@),
    {
        match &self.head {
            Some(head) => {
                let prefix = String::from_str(self.name.as_str()).concat("/");
                proof {
                    reveal_strlit("");
                    assert(""@ =~= Seq::<char>::empty());
                }
                Some(replace(head.as_str(), prefix.as_str(), ""))
            },
            None => {
                if holds(&self.branches, MAIN) {
                    Some(String::from_str(MAIN))
                } else if holds(&self.branches, MASTER) {
                    Some(String::from_str(MASTER))
                } else {
                    None
                }
            },
        }
    }
}

/// The first of `remote_names` that is the name of a remote with a default branch, with that
/// branch.
pub fn get_remote_and_default_branch(checkout: &Checkout, remote_names: &[&str]) -> (r: Result<
    (String, String),
    Fault,
>)
    ensures
        match remote_and_default_branch(checkout@.remotes, remote_names.deep_view()) {
            Some((remote, branch)) => r is Ok && r.unwrap().0@ == remote && r.unwrap().1@
                == branch,
            None => r is Err && r.unwrap_err()@ == FaultView::NoDefaultBranch,
        },
{
    let mut i: usize = 0;
    assert(remote_names.deep_view().skip(0) =~= remote_names.deep_view());
    while i < remote_names.len()
        invariant
            i <= remote_names.len(),
            remote_and_default_branch(checkout@.remotes, remote_names.deep_view())
                == remote_and_default_branch(
                checkout@.remotes,
                remote_names.deep_view().skip(i as int),
            ),
        decreases remote_names.len() - i,
    {
        let name = remote_names[i];
        proof {
            let rest = remote_names.deep_view().skip(i as int);
            assert(rest[0] == name@);
            assert(rest.drop_first() =~= remote_names.deep_view().skip(i + 1));
        }
        match checkout.find_remote(name) {
            Some(remote) => match remote.default_branch() {
                Some(branch) => {
                    return Ok((String::from_str(name), branch));
                },
                None => {},
            },
            None => {},
        }
        i += 1;
    }
    Err(Fault::NoDefaultBranch)
}

/// The first of `names` that is the name of a remote of `checkout`.
pub fn find_first_remote(checkout: &Checkout, names: &Vec<&'static str>) -> (r: Option<
    &'static str,
>)
    ensures
        r.deep_view() == first_remote(checkout@.remotes, names.deep_view()),
{
    let mut i: usize = 0;
    assert(names.deep_view().skip(0) =~= names.deep_view());
    while i < names.len()
        invariant
            i <= names.len(),
            first_remote(checkout@.remotes, names.deep_view()) == first_remote(
                checkout@.remotes,
                names.deep_view().skip(i as int),
            ),
        decreases names.len() - i,
    {
        let name = names[i];
        proof {
            let rest = names.deep_view().skip(i as int);
            assert(rest[0] == name@);
            assert(rest.drop_first() =~= names.deep_view().skip(i + 1));
        }
        if checkout.find_remote(name).is_some() {
            return Some(name);
        }
        i += 1;
    }
    None
}

/// To which remotes a push may go, in the order in which they are tried.
#[derive(Copy, Clone, Debug, PartialEq, Eq, Structural)]
pub enum GitPushRemote {
    Origin,
    OriginFirst,
    Upstream,
    UpstreamFirst,
}

impl Default for GitPushRemote {
    fn default() -> (r: Self)
        ensures
            r == GitPushRemote::Origin,
    {
        GitPushRemote::Origin
    }
}

impl GitPushRemote {
    /// The names of the remotes, in the order in which they are tried.
    pub open spec fn spec_remotes(self) -> Seq<Seq<char>> {
        match self {
            GitPushRemote::Upstream => seq!["upstream"@],
            GitPushRemote::UpstreamFirst => seq!["upstream"@, "origin"@],
            GitPushRemote::Origin => seq!["origin"@],
            GitPushRemote::OriginFirst => seq!["origin"@, "upstream"@],
        }
    }

    /// The names of the remotes, in the order in which they are tried.
    pub fn remotes(self) -> (r: Vec<&'static str>)
        ensures
            r.deep_view() == self.spec_remotes(),
    {
        let r = match self {
            GitPushRemote::Upstream => vec![UPSTREAM],
            GitPushRemote::UpstreamFirst => vec![UPSTREAM, ORIGIN],
            GitPushRemote::Origin => vec![ORIGIN],
            GitPushRemote::OriginFirst => vec![ORIGIN, UPSTREAM],
        };
        assert(r.deep_view() =~= self.spec_remotes());
        r
    }
}

/// A short name for a command of `git`.
#[derive(Debug, Clone)]
pub enum Abbreviation {
    /// Stands for `git checkout <default-branch> && git fetch <remote> && git merge
    /// --ff-only <remote>/<default-branch>`.
    GitCheckoutMasterFetchFastForward,
    /// Stands for `git push <remote> <branch>`, with the flags that are asked for.
    GitPush { remote_priority: GitPushRemote, skip_hooks: bool, force_with_lease: bool, force: bool },
    /// Stands for `git diff <reference> -- <files>`, handed on to the clipboard where that is
    /// asked for.
    GitDiff { files: Option<Vec<String>>, reference: Option<String>, pbcopy: bool },
}

/// An [`Abbreviation`] with its texts as sequences of characters.
pub enum AbbreviationView {
    GitCheckoutMasterFetchFastForward,
    GitPush { remote_priority: GitPushRemote, skip_hooks: bool, force_with_lease: bool, force: bool },
    GitDiff { files: Option<Seq<Seq<char>>>, reference: Option<Seq<char>>, pbcopy: bool },
}

impl View for Abbreviation {
    type V = AbbreviationView;

    open spec fn view(&self) -> AbbreviationView {
        match self {
            Abbreviation::GitCheckoutMasterFetchFastForward =>
                AbbreviationView::GitCheckoutMasterFetchFastForward,
            Abbreviation::GitPush { remote_priority, skip_hooks, force_with_lease, force } =>
                AbbreviationView::GitPush {
                    remote_priority: *remote_priority,
                    skip_hooks: *skip_hooks,
                    force_with_lease: *force_with_lease,
                    force: *force,
                },
            Abbreviation::GitDiff { files, reference, pbcopy } => AbbreviationView::GitDiff {
                files: files.deep_view(),
                reference: reference.deep_view(),
                pbcopy: *pbcopy,
            },
        }
    }
}

impl DeepView for Abbreviation {
    type V = AbbreviationView;

    open spec fn deep_view(&self) -> AbbreviationView {
        self@
    }
}

/// The short name of what `checkout` has checked out: empty where it has none.
pub open spec fn checked_out(checkout: CheckoutView) -> Seq<char> {
    match checkout.head {
        Some(head) => match head.shorthand {
            Some(name) => name,
            None => Seq::empty(),
        },
        None => Seq::empty(),
    }
}

/// The command that brings the default branch up to its remote: for the first of `upstream`
/// and `origin` that has a default branch, the fetch and the merge, after the checkout of
/// that branch where another is checked out.
pub open spec fn fast_forward(checkout: CheckoutView) -> Option<Seq<char>> {
    match remote_and_default_branch(checkout.remotes, seq!["upstream"@, "origin"@]) {
        None => None,
        Some((remote, branch)) => Some(
            (if checked_out(checkout) != branch {
                "git checkout "@ + branch + " && "@
            } else {
                Seq::empty()
            }) + "git fetch "@ + remote + " && git merge --ff-only "@ + remote + "/"@ + branch,
        ),
    }
}

/// The words of the command that pushes `branch` to `remote`.
pub open spec fn push_words(
    remote: Seq<char>,
    branch: Seq<char>,
    skip_hooks: bool,
    force_with_lease: bool,
    force: bool,
) -> Seq<Seq<char>> {
    seq!["git"@, "push"@, remote, branch] + (if skip_hooks {
        seq!["--no-verify"@]
    } else {
        seq![]
    }) + (if force_with_lease {
        seq!["--force-with-lease"@]
    } else if force {
        seq!["--force"@]
    } else {
        seq![]
    })
}

/// The command that pushes the branch that is checked out to the first remote of
/// `remote_priority` that `checkout` has: none where it has none of them, or has no branch
/// checked out.
pub open spec fn push(
    checkout: CheckoutView,
    remote_priority: GitPushRemote,
    skip_hooks: bool,
    force_with_lease: bool,
    force: bool,
) -> Option<Seq<char>> {
    match first_remote(checkout.remotes, remote_priority.spec_remotes()) {
        None => None,
        Some(remote) => match checkout.head {
            Some(head) if head.is_branch && head.shorthand is Some => Some(
                joined_words(
                    push_words(remote, head.shorthand.unwrap(), skip_hooks, force_with_lease, force),
                ),
            ),
            _ => None,
        },
    }
}

/// The words of the command that shows the changes.
pub open spec fn diff_words(
    files: Option<Seq<Seq<char>>>,
    reference: Option<Seq<char>>,
    pbcopy: bool,
) -> Seq<Seq<char>> {
    seq!["git"@, "diff"@] + (match reference {
        Some(name) => seq![name],
        None => seq![],
    }) + (match files {
        Some(names) => seq!["--"@] + names,
        None => seq![],
    }) + (if pbcopy {
        seq!["|"@, "pbcopy"@]
    } else {
        seq![]
    })
}

impl AbbreviationView {
    /// The command that the short name stands for in `checkout`: none where there is no
    /// checkout, or where the checkout lacks what the command needs.
    pub open spec fn command(self, checkout: Option<CheckoutView>) -> Option<Seq<char>> {
        match checkout {
            None => None,
            Some(c) => match self {
                AbbreviationView::GitCheckoutMasterFetchFastForward => fast_forward(c),
                AbbreviationView::GitPush { remote_priority, skip_hooks, force_with_lease, force } =>
                    push(c, remote_priority, skip_hooks, force_with_lease, force),
                AbbreviationView::GitDiff { files, reference, pbcopy } => Some(
                    joined_words(diff_words(files, reference, pbcopy)),
                ),
            },
        }
    }
}

/// The command that brings the default branch up to its remote.
pub fn fast_forward_command(checkout: &Checkout) -> (r: Option<String>)
    ensures
        r.deep_view() == fast_forward(checkout@),
{
    let names = vec![UPSTREAM, ORIGIN];
    let tried = names.as_slice();
    assert(tried.deep_view() =~= seq!["upstream"@, "origin"@]);
    match get_remote_and_default_branch(checkout, tried) {
        Err(_) => None,
        Ok((remote, branch)) => {
            let same = match &checkout.head {
                Some(Head { shorthand: Some(name), .. }) => str_eq(name.as_str(), branch.as_str()),
                _ => {
                    proof {
                        reveal_strlit("");
                        assert(""@ =~= Seq::<char>::empty());
                    }
                    str_eq("", branch.as_str())
                },
            };
            let mut out = String::new();
            if !same {
                out.append("git checkout ");
                out.append(branch.as_str());
                out.append(" && ");
            }
            let ghost start = out@;
            out.append("git fetch ");
            out.append(remote.as_str());
            out.append(" && git merge --ff-only ");
            out.append(remote.as_str());
            out.append("/");
            out.append(branch.as_str());
            proof {
                assert(start =~= if checked_out(checkout@) != branch@ {
                    "git checkout "@ + branch@ + " && "@
                } else {
                    Seq::empty()
                });
            }
            Some(out)
        },
    }
}

/// The words of the command that pushes `branch` to `remote`.
pub fn push_command_words(
    remote: &str,
    branch: &str,
    skip_hooks: bool,
    force_with_lease: bool,
    force: bool,
) -> (r: Vec<String>)
    ensures
        r.deep_view() == push_words(remote@, branch@, skip_hooks, force_with_lease, force),
{
    let mut words: Vec<String> = Vec::new();
    words.push(String::from_str("git"));
    words.push(String::from_str("push"));
    words.push(String::from_str(remote));
    words.push(String::from_str(branch));
    assert(words.deep_view() =~= seq!["git"@, "push"@, remote@, branch@]);
    let ghost base = words.deep_view();
    if skip_hooks {
        words.push(String::from_str("--no-verify"));
        assert(words.deep_view() =~= base + seq!["--no-verify"@]);
    } else {
        assert(words.deep_view() =~= base + Seq::<Seq<char>>::empty());
    }
    let ghost checked = words.deep_view();
    if force_with_lease {
        words.push(String::from_str("--force-with-lease"));
        assert(words.deep_view() =~= checked + seq!["--force-with-lease"@]);
    } else if force {
        words.push(String::from_str("--force"));
        assert(words.deep_view() =~= checked + seq!["--force"@]);
    } else {
        assert(words.deep_view() =~= checked + Seq::<Seq<char>>::empty());
    }
    words
}

/// The command that pushes the branch that is checked out.
pub fn push_command(
    checkout: &Checkout,
    remote_priority: GitPushRemote,
    skip_hooks: bool,
    force_with_lease: bool,
    force: bool,
) -> (r: Option<String>)
    ensures
        r.deep_view() == push(checkout@, remote_priority, skip_hooks, force_with_lease, force),
{
    let names = remote_priority.remotes();
    match find_first_remote(checkout, &names) {
        None => None,
        Some(remote) => match &checkout.head {
            Some(Head { shorthand: Some(branch), is_branch: true }) => {
                let words = push_command_words(
                    remote,
                    branch.as_str(),
                    skip_hooks,
                    force_with_lease,
                    force,
                );
                Some(join_words(&words))
            },
            _ => None,
        },
    }
}

/// The words of the command that shows the changes.
pub fn diff_command_words(files: &Option<Vec<String>>, reference: &Option<String>, pbcopy: bool) -> (r:
    Vec<String>)
    ensures
        r.deep_view() == diff_words(files.deep_view(), reference.deep_view(), pbcopy),
{
    let mut words: Vec<String> = Vec::new();
    words.push(String::from_str("git"));
    words.push(String::from_str("diff"));
    assert(words.deep_view() =~= seq!["git"@, "diff"@]);
    let ghost base = words.deep_view();
    match reference {
        Some(name) => {
            words.push(name.clone());
            assert(words.deep_view() =~= base + seq![name@]);
        },
        None => {
            assert(words.deep_view() =~= base + Seq::<Seq<char>>::empty());
        },
    }
    let ghost named = words.deep_view();
    match files {
        Some(names) => {
            words.push(String::from_str("--"));
            let mut i: usize = 0;
            assert(words.deep_view() =~= named + (seq!["--"@] + names.deep_view().take(0)));
            while i < names.len()
                invariant
                    i <= names.len(),
                    words.deep_view() == named + (seq!["--"@] + names.deep_view().take(i as int)),
                decreases names.len() - i,
            {
                let ghost before = words.deep_view();
                words.push(names[i].clone());
                assert(words.deep_view() =~= before.push(names[i as int]@));
                assert(names.deep_view().take(i + 1) =~= names.deep_view().take(i as int).push(
                    names[i as int]@,
                ));
                assert(words.deep_view() =~= named + (seq!["--"@] + names.deep_view().take(
                    i + 1,
                )));
                i += 1;
            }
            assert(names.deep_view().take(names.deep_view().len() as int) =~= names.deep_view());
        },
        None => {
            assert(words.deep_view() =~= named + Seq::<Seq<char>>::empty());
        },
    }
    let ghost listed = words.deep_view();
    if pbcopy {
        words.push(String::from_str("|"));
        words.push(String::from_str("pbcopy"));
        assert(words.deep_view() =~= listed + seq!["|"@, "pbcopy"@]);
    } else {
        assert(words.deep_view() =~= listed + Seq::<Seq<char>>::empty());
    }
    words
}

impl Abbreviation {
    /// The command that the short name stands for in `checkout`, to be written out: none
    /// where there is no checkout, or where the checkout lacks what the command needs.
    pub fn run(&self, checkout: Option<&Checkout>) -> (r: Option<String>)
        ensures
            r.deep_view() == self@.command(checkout.deep_view()),
    {
        match checkout {
            None => None,
            Some(c) => match self {
                Abbreviation::GitCheckoutMasterFetchFastForward => fast_forward_command(c),
                Abbreviation::GitPush { remote_priority, skip_hooks, force_with_lease, force } =>
                    push_command(c, *remote_priority, *skip_hooks, *force_with_lease, *force),
                Abbreviation::GitDiff { files, reference, pbcopy } => {
                    let words = diff_command_words(files, reference, *pbcopy);
                    Some(join_words(&words))
                },
            },
        }
    }
}

/// The groups of short names.
#[derive(Debug, Clone)]
pub enum Shortcut {
    /// The short names for commands of `git`.
    Abbreviations(Abbreviation),
}

impl Shortcut {
    /// The command that the short name stands for in `checkout`, to be written out.
    pub fn run(&self, checkout: Option<&Checkout>) -> (r: Option<String>)
        ensures
            match self {
                Shortcut::Abbreviations(cmd) => r.deep_view() == cmd@.command(
                    checkout.deep_view(),
                ),
            },
    {
        match self {
            Shortcut::Abbreviations(cmd) => cmd.run(checkout),
        }
    }
}

} // verus!
